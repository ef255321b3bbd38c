//! What an instruction does to the processor, given the bytes the bus returned for its reads
//!
//! Every read an instruction makes (opcode and operand fetches, memory reads, I/O reads) goes
//! to the bus, and the bus decides what comes back. So the effect of an instruction is stated as
//! a function of the processor state before it and of `rs`, the bytes returned by its reads in
//! the order they were made. The program counter in the state handed to the functions for one
//! opcode is already past that opcode.

use vstd::prelude::*;

use crate::alu::{
    add8, bit_flags, dec8_flags, even_parity, flag_if, inc8_flags, sub8, sub8_flags, sz53, };
use crate::cpu::{IntMode, Z80State};
use crate::exec::{
    accumulator_op, add16_flags, add16_result, alu_result, condition, displaced, hl_name, popped,
    reg8, rp2_of, rp_of, with_reg8,
};
use crate::exec_bits::{reset_bit, set_bit, shift_flags, shift_result};
use crate::exec_ed::{adc16_flags, ld_a_ir};
use crate::opcode::{prefix_byte, prefix_of, Prefix};
use crate::regs::{
    add16, hi_byte, lo_byte, next_r, word, RegName16, Regs, FLAG_CARRY, FLAG_F3, FLAG_F5,
    FLAG_HALF, FLAG_PV, FLAG_SIGN, FLAG_SUB, FLAG_ZERO,
};

verus! {

/// The state with other registers
pub open spec fn with_regs(s: Z80State, r: Regs) -> Z80State {
    Z80State { regs: r, ..s }
}

/// The registers with the program counter `n` bytes further on
pub open spec fn advanced(r: Regs, n: int) -> Regs {
    Regs { pc: add16(r.pc, n), ..r }
}

/// The word read as the two bytes `rs[i]` (low) and `rs[i + 1]` (high)
pub open spec fn word_at(rs: Seq<u8>, i: int) -> u16 {
    word(rs[i + 1], rs[i])
}

/// The memory operand of an instruction: for an unprefixed one, HL, with no read; after `DD` or
/// `FD`, IX or IY plus the displacement byte `rs[0]`, which is fetched (the program counter
/// moves past it) and goes to MEMPTR. Returns the registers after that, the address, and how
/// many reads it took.
pub open spec fn memory_operand(r: Regs, prefix: Prefix, rs: Seq<u8>) -> (Regs, u16, int) {
    if prefix == Prefix::DD || prefix == Prefix::FD {
        let addr = displaced(r.reg16(hl_name(prefix)), rs[0]);
        (Regs { pc: add16(r.pc, 1), mem_ptr: addr, ..r }, addr, 1)
    } else {
        (r, r.reg16(RegName16::HL), 0)
    }
}

/// A relative jump by the displacement `d` fetched at the program counter, taken when `cond`
pub open spec fn relative_jump(r: Regs, cond: bool, d: u8) -> Regs {
    let next = add16(r.pc, 1);
    if cond {
        let target = displaced(next, d);
        Regs { pc: target, mem_ptr: target, ..r }
    } else {
        Regs { pc: next, ..r }
    }
}

/// The registers with flags `f` written by the instruction
pub open spec fn with_flags(r: Regs, f: u8) -> Regs {
    Regs { f, q: f, ..r }
}

/// MEMPTR after a store of A to `addr`: A in the high byte, the low byte of `addr + 1` in the low
pub open spec fn store_a_mem_ptr(a: u8, addr: u16) -> u16 {
    word(a, ((lo_byte(addr) + 1) % 256) as u8)
}

/// `NOP`, `EX AF,AF'`, `DJNZ`, `JR` and `JR cc` (`x = 0`, `z = 0`)
pub open spec fn x0_z0(s: Z80State, y: u8, rs: Seq<u8>) -> Z80State {
    let r = s.regs;
    if y == 0 {
        s
    } else if y == 1 {
        with_regs(s, Regs { a: r.a_alt, f: r.f_alt, a_alt: r.a, f_alt: r.f, ..r })
    } else if y == 2 {
        let b = sub8(r.b, 1, false);
        with_regs(s, relative_jump(Regs { b, ..r }, b != 0, rs[0]))
    } else if y == 3 {
        with_regs(s, relative_jump(r, true, rs[0]))
    } else {
        with_regs(s, relative_jump(r, condition(r.f, (y - 4) as u8), rs[0]))
    }
}

/// `LD rp,nn` and `ADD HL,rp` (`x = 0`, `z = 1`)
pub open spec fn x0_z1(s: Z80State, y: u8, prefix: Prefix, rs: Seq<u8>) -> Z80State {
    let r = s.regs;
    let p = y / 2;
    if y % 2 == 0 {
        with_regs(s, advanced(r, 2).with_reg16(rp_of(p, prefix), word_at(rs, 0)))
    } else {
        let hl = r.reg16(hl_name(prefix));
        let v = r.reg16(rp_of(p, prefix));
        let r1 = Regs { mem_ptr: add16(hl, 1), ..r }.with_reg16(hl_name(prefix), add16_result(hl, v));
        with_regs(s, with_flags(r1, add16_flags(hl, v, r.f)))
    }
}

/// The loads between A or HL and memory addressed by BC, DE or a word operand (`x = 0`,
/// `z = 2`)
pub open spec fn x0_z2(s: Z80State, y: u8, prefix: Prefix, rs: Seq<u8>) -> Z80State {
    let r = s.regs;
    let nn = word_at(rs, 0);
    if y == 0 || y == 2 {
        let addr = if y == 0 {
            r.reg16(RegName16::BC)
        } else {
            r.reg16(RegName16::DE)
        };
        with_regs(s, Regs { mem_ptr: store_a_mem_ptr(r.a, addr), ..r })
    } else if y == 1 || y == 3 {
        let addr = if y == 1 {
            r.reg16(RegName16::BC)
        } else {
            r.reg16(RegName16::DE)
        };
        with_regs(s, Regs { a: rs[0], mem_ptr: add16(addr, 1), ..r })
    } else if y == 4 {
        with_regs(s, Regs { pc: add16(r.pc, 2), mem_ptr: add16(nn, 1), ..r })
    } else if y == 5 {
        let r1 = advanced(r, 2).with_reg16(hl_name(prefix), word_at(rs, 2));
        with_regs(s, Regs { mem_ptr: add16(nn, 1), ..r1 })
    } else if y == 6 {
        with_regs(s, Regs { pc: add16(r.pc, 2), mem_ptr: store_a_mem_ptr(r.a, nn), ..r })
    } else {
        with_regs(s, Regs { pc: add16(r.pc, 2), a: rs[2], mem_ptr: add16(nn, 1), ..r })
    }
}

/// `INC rp` and `DEC rp` (`x = 0`, `z = 3`)
pub open spec fn x0_z3(s: Z80State, y: u8, prefix: Prefix) -> Z80State {
    let r = s.regs;
    let rp = rp_of(y / 2, prefix);
    let v = r.reg16(rp);
    with_regs(
        s,
        r.with_reg16(
            rp,
            if y % 2 == 0 {
                add16(v, 1)
            } else {
                add16(v, -1)
            },
        ),
    )
}

/// `INC r` (`z = 4`) and `DEC r` (`z = 5`), with `x = 0`
pub open spec fn x0_z45(s: Z80State, y: u8, z: u8, prefix: Prefix, rs: Seq<u8>) -> Z80State {
    let r = s.regs;
    if y == 6 {
        let (r1, addr, k) = memory_operand(r, prefix, rs);
        let v = rs[k];
        let f = if z == 4 {
            inc8_flags(v, r.f)
        } else {
            dec8_flags(v, r.f)
        };
        with_regs(s, with_flags(r1, f))
    } else {
        let v = reg8(r, y, prefix);
        let (res, f) = if z == 4 {
            (add8(v, 1, false), inc8_flags(v, r.f))
        } else {
            (sub8(v, 1, false), dec8_flags(v, r.f))
        };
        with_regs(s, with_flags(with_reg8(r, y, prefix, res), f))
    }
}

/// `LD r,n` (`x = 0`, `z = 6`)
pub open spec fn x0_z6(s: Z80State, y: u8, prefix: Prefix, rs: Seq<u8>) -> Z80State {
    let r = s.regs;
    if y == 6 {
        if prefix == Prefix::DD || prefix == Prefix::FD {
            let addr = displaced(r.reg16(hl_name(prefix)), rs[0]);
            with_regs(s, Regs { pc: add16(r.pc, 2), mem_ptr: addr, ..r })
        } else {
            with_regs(s, advanced(r, 1))
        }
    } else {
        with_regs(s, with_reg8(advanced(r, 1), y, prefix, rs[0]))
    }
}

/// Unprefixed instructions with `x = 0`
pub open spec fn effect_x0(s: Z80State, y: u8, z: u8, prefix: Prefix, rs: Seq<u8>) -> Z80State {
    if z == 0 {
        x0_z0(s, y, rs)
    } else if z == 1 {
        x0_z1(s, y, prefix, rs)
    } else if z == 2 {
        x0_z2(s, y, prefix, rs)
    } else if z == 3 {
        x0_z3(s, y, prefix)
    } else if z == 4 || z == 5 {
        x0_z45(s, y, z, prefix, rs)
    } else if z == 6 {
        x0_z6(s, y, prefix, rs)
    } else {
        with_regs(s, accumulator_op(s.regs, y))
    }
}

/// `LD r,r'`, `LD r,(HL)`, `LD (HL),r` and their indexed forms
pub open spec fn effect_ld(s: Z80State, y: u8, z: u8, prefix: Prefix, rs: Seq<u8>) -> Z80State {
    let r = s.regs;
    if z == 6 {
        let (r1, addr, k) = memory_operand(r, prefix, rs);
        with_regs(s, with_reg8(r1, y, Prefix::NoPrefix, rs[k]))
    } else if y == 6 {
        let (r1, addr, k) = memory_operand(r, prefix, rs);
        with_regs(s, r1)
    } else {
        with_regs(s, with_reg8(r, y, prefix, reg8(r, z, prefix)))
    }
}

/// ALU operation `y` with a register or memory operand
pub open spec fn effect_alu(s: Z80State, y: u8, z: u8, prefix: Prefix, rs: Seq<u8>) -> Z80State {
    let r = s.regs;
    let (r1, v) = if z == 6 {
        let (r1, addr, k) = memory_operand(r, prefix, rs);
        (r1, rs[k])
    } else {
        (r, reg8(r, z, prefix))
    };
    let (a, f) = alu_result(r1, y, v);
    with_regs(s, with_flags(Regs { a, ..r1 }, f))
}

/// The registers after a return: the program counter popped, and MEMPTR set to it
pub open spec fn returned(r: Regs, rs: Seq<u8>) -> Regs {
    let r1 = popped(r, RegName16::PC, word_at(rs, 0));
    Regs { mem_ptr: r1.pc, ..r1 }
}

/// `RET cc`, `POP`, `RET`, `EXX`, `JP (HL)` and `LD SP,HL` (`x = 3`, `z` = 0 or 1)
pub open spec fn x3_z01(s: Z80State, y: u8, z: u8, prefix: Prefix, rs: Seq<u8>) -> Z80State {
    let r = s.regs;
    let p = y / 2;
    if z == 0 {
        if condition(r.f, y) {
            with_regs(s, returned(r, rs))
        } else {
            s
        }
    } else if y % 2 == 0 {
        with_regs(s, popped(r, rp2_of(p, prefix), word_at(rs, 0)))
    } else if p == 0 {
        with_regs(s, returned(r, rs))
    } else if p == 1 {
        with_regs(s, r.exchanged())
    } else if p == 2 {
        with_regs(s, Regs { pc: r.reg16(hl_name(prefix)), ..r })
    } else {
        with_regs(s, Regs { sp: r.reg16(hl_name(prefix)), ..r })
    }
}

/// `JP nn`, `OUT (n),A`, `IN A,(n)`, `EX (SP),HL`, `EX DE,HL`, `DI` and `EI` (`x = 3`, `z = 3`)
pub open spec fn x3_z3(s: Z80State, y: u8, prefix: Prefix, rs: Seq<u8>) -> Z80State {
    let r = s.regs;
    let nn = word_at(rs, 0);
    if y == 0 {
        with_regs(s, Regs { pc: nn, mem_ptr: nn, ..r })
    } else if y == 2 {
        with_regs(s, Regs { pc: add16(r.pc, 1), mem_ptr: word(r.a, ((rs[0] + 1) % 256) as u8), ..r })
    } else if y == 3 {
        let port = word(r.a, rs[0]);
        with_regs(s, Regs { pc: add16(r.pc, 1), a: rs[1], mem_ptr: add16(port, 1), ..r })
    } else if y == 4 {
        let v = word_at(rs, 0);
        with_regs(s, Regs { mem_ptr: v, ..r.with_reg16(hl_name(prefix), v) })
    } else if y == 5 {
        with_regs(s, Regs { d: r.h, e: r.l, h: r.d, l: r.e, ..r })
    } else if y == 6 {
        Z80State { regs: Regs { iff1: false, iff2: false, ..r }, skip_interrupt: true, ..s }
    } else if y == 7 {
        Z80State { regs: Regs { iff1: true, iff2: true, ..r }, skip_interrupt: true, ..s }
    } else {
        s
    }
}

/// `JP cc,nn`, `CALL cc,nn`, `PUSH`, `CALL nn`, ALU with an immediate operand and `RST`
/// (`x = 3`, `z` = 2, 4, 5, 6, 7)
pub open spec fn x3_jumps(s: Z80State, y: u8, z: u8, prefix: Prefix, rs: Seq<u8>) -> Z80State {
    let r = s.regs;
    let p = y / 2;
    let nn = word_at(rs, 0);
    if z == 2 {
        let r1 = Regs { pc: add16(r.pc, 2), mem_ptr: nn, ..r };
        if condition(r.f, y) {
            with_regs(s, Regs { pc: nn, ..r1 })
        } else {
            with_regs(s, r1)
        }
    } else if z == 4 {
        let r1 = Regs { pc: add16(r.pc, 2), mem_ptr: nn, ..r };
        if condition(r.f, y) {
            with_regs(s, Regs { sp: add16(r.sp, -2), pc: nn, ..r1 })
        } else {
            with_regs(s, r1)
        }
    } else if z == 5 {
        if y % 2 == 0 {
            with_regs(s, Regs { sp: add16(r.sp, -2), ..r })
        } else if p == 0 {
            with_regs(s, Regs { pc: nn, sp: add16(r.sp, -2), mem_ptr: nn, ..r })
        } else {
            s
        }
    } else if z == 6 {
        let (a, f) = alu_result(r, y, rs[0]);
        with_regs(s, with_flags(Regs { a, pc: add16(r.pc, 1), ..r }, f))
    } else {
        let target = (y * 8) as u16;
        with_regs(s, Regs { sp: add16(r.sp, -2), pc: target, mem_ptr: target, ..r })
    }
}

/// Unprefixed instructions with `x = 3`
pub open spec fn effect_x3(s: Z80State, y: u8, z: u8, prefix: Prefix, rs: Seq<u8>) -> Z80State {
    if z == 0 || z == 1 {
        x3_z01(s, y, z, prefix, rs)
    } else if z == 3 {
        x3_z3(s, y, prefix, rs)
    } else {
        x3_jumps(s, y, z, prefix, rs)
    }
}

/// An instruction without a prefix, or after `DD` or `FD`, with opcode `op`
#[verifier::opaque]
pub open spec fn normal_effect(s: Z80State, op: u8, prefix: Prefix, rs: Seq<u8>) -> Z80State {
    let x = op / 64;
    let y = (op / 8) % 8;
    let z = op % 8;
    if x == 0 {
        effect_x0(s, y, z, prefix, rs)
    } else if x == 1 {
        if y == 6 && z == 6 {
            Z80State { halted: true, regs: Regs { pc: add16(s.regs.pc, -1), ..s.regs }, ..s }
        } else {
            effect_ld(s, y, z, prefix, rs)
        }
    } else if x == 2 {
        effect_alu(s, y, z, prefix, rs)
    } else {
        effect_x3(s, y, z, prefix, rs)
    }
}

/// The operation of a `CB`-prefixed opcode `op` on the operand value `v`, once its operand has
/// been fetched into `s`: `BIT` sets the flags (bits 3 and 5 from MEMPTR for a memory operand);
/// rotations, shifts, `RES` and `SET` store their result in register `z` unless `z` is 6,
/// memory results going to the bus
pub open spec fn bits_operation(s: Z80State, op: u8, v: u8, from_memory: bool) -> Z80State {
    let r1 = s.regs;
    let x = op / 64;
    let y = (op / 8) % 8;
    let z = op % 8;
    if x == 1 {
        let xy = if from_memory {
            hi_byte(r1.mem_ptr)
        } else {
            v
        };
        with_regs(s, with_flags(r1, bit_flags(y, v, r1.f, xy)))
    } else {
        let c = r1.f & FLAG_CARRY != 0;
        let (res, r2) = if x == 0 {
            let (res, carry) = shift_result(y, v, c);
            (res, with_flags(r1, shift_flags(res, carry)))
        } else if x == 2 {
            (reset_bit(v, y), r1)
        } else {
            (set_bit(v, y), r1)
        };
        if z != 6 {
            with_regs(s, with_reg8(r2, z, Prefix::NoPrefix, res))
        } else {
            with_regs(s, r2)
        }
    }
}

/// A `CB`-prefixed instruction; after `DD` or `FD` its operand is indexed: the displacement
/// `rs[0]` comes before the opcode `rs[1]`, and R counts no refresh for the opcode
#[verifier::opaque]
pub open spec fn bits_effect(s: Z80State, prefix: Prefix, rs: Seq<u8>) -> Z80State {
    let r = s.regs;
    let indexed = prefix == Prefix::DD || prefix == Prefix::FD;
    let op = if indexed {
        rs[1]
    } else {
        rs[0]
    };
    let z = op % 8;
    let r1 = if indexed {
        Regs { pc: add16(r.pc, 2), mem_ptr: displaced(r.reg16(hl_name(prefix)), rs[0]), ..r }
    } else {
        Regs { pc: add16(r.pc, 1), r: next_r(r.r), ..r }
    };
    let v = if indexed {
        rs[2]
    } else if z == 6 {
        rs[1]
    } else {
        reg8(r1, z, Prefix::NoPrefix)
    };
    bits_operation(with_regs(s, r1), op, v, indexed || z == 6)
}

/// The interrupt mode selected by `IM` with `y` as its opcode's `y` field (the undocumented
/// forms included)
pub open spec fn im_of_y(y: u8) -> IntMode {
    if y % 4 == 0 || y % 4 == 1 {
        IntMode::Im0
    } else if y % 4 == 2 {
        IntMode::Im1
    } else {
        IntMode::Im2
    }
}

/// Bits 3 and 5 of F after a block transfer or compare: bit 3 and bit 1 of `n`
pub open spec fn block_xy(n: u8) -> u8 {
    (n & FLAG_F3) | flag_if((n / 2) % 2 == 1, FLAG_F5)
}

/// `INI`, `IND`, `INIR`, `INDR` (`z` = 2) and `OUTI`, `OUTD`, `OTIR`, `OTDR` (`z` = 3), `y` = 4
/// to 7, with `v` the byte moved: read from port BC into (HL), or from (HL) to port BC once B
/// has been counted down. HL steps; S, Z, bits 3 and 5 follow the new B; N is bit 7 of `v`; H
/// and C are the carry out of `v` plus C stepped (for input) or plus the new L (for output); P/V
/// is the parity of the low three bits of that sum exclusive-or B. MEMPTR is BC stepped (BC
/// before for input, after for output). The repeating forms go back to the instruction while B
/// is not zero.
pub open spec fn block_io(s: Z80State, y: u8, z: u8, v: u8) -> Z80State {
    let r = s.regs;
    let down = y == 5 || y == 7;
    let step: int = if down {
        -1
    } else {
        1
    };
    let b = sub8(r.b, 1, false);
    let hl = add16(r.reg16(RegName16::HL), step);
    let k: int = if z == 2 {
        v + (r.c + step + 256) % 256
    } else {
        v + lo_byte(hl)
    };
    let f = sz53(b) | flag_if(v >= 128, FLAG_SUB) | flag_if(k > 255, FLAG_HALF | FLAG_CARRY) | flag_if(
        even_parity(((k % 8) as u8) ^ b),
        FLAG_PV,
    );
    let mem_ptr = if z == 2 {
        add16(r.reg16(RegName16::BC), step)
    } else {
        add16(word(b, r.c), step)
    };
    let r1 = Regs { b, mem_ptr, ..with_flags(r.with_reg16(RegName16::HL, hl), f) };
    if y >= 6 && b != 0 {
        with_regs(s, Regs { pc: add16(r.pc, -2), mem_ptr: add16(r.pc, -1), ..r1 })
    } else {
        with_regs(s, r1)
    }
}

/// `LDI`, `LDD`, `LDIR`, `LDDR` (`z` = 0), `CPI`, `CPD`, `CPIR`, `CPDR` (`z` = 1) and the block
/// input and output instructions (`z` = 2 or 3), `y` = 4 to 7, with `v` the byte read from (HL)
/// or from the port
pub open spec fn block_effect(s: Z80State, y: u8, z: u8, v: u8) -> Z80State {
    if z >= 2 {
        block_io(s, y, z, v)
    } else {
        block_transfer_or_compare(s, y, z, v)
    }
}

/// `LDI`, `LDD`, `LDIR`, `LDDR` (`z` = 0) and `CPI`, `CPD`, `CPIR`, `CPDR` (`z` = 1), `y` = 4
/// to 7, with `v` the byte read from (HL)
pub open spec fn block_transfer_or_compare(s: Z80State, y: u8, z: u8, v: u8) -> Z80State {
    let r = s.regs;
    let down = y == 5 || y == 7;
    let repeat = y >= 6;
    let step: int = if down {
        -1
    } else {
        1
    };
    let hl = r.reg16(RegName16::HL);
    let bc = add16(r.reg16(RegName16::BC), -1);
    let pv = flag_if(bc != 0, FLAG_PV);
    if z == 0 {
        let de = r.reg16(RegName16::DE);
        let n = ((r.a + v) % 256) as u8;
        let f = (r.f & (FLAG_SIGN | FLAG_ZERO | FLAG_CARRY)) | pv | block_xy(n);
        let r1 = with_flags(
            r.with_reg16(RegName16::DE, add16(de, step)).with_reg16(
                RegName16::HL,
                add16(hl, step),
            ).with_reg16(RegName16::BC, bc),
            f,
        );
        if repeat && bc != 0 {
            with_regs(s, Regs { pc: add16(r.pc, -2), mem_ptr: add16(r.pc, -1), ..r1 })
        } else {
            with_regs(s, r1)
        }
    } else {
        let res = sub8(r.a, v, false);
        let half = r.a % 16 < v % 16;
        let n = sub8(res, 0, half);
        let f = (r.f & FLAG_CARRY) | (res & FLAG_SIGN) | flag_if(res == 0, FLAG_ZERO) | flag_if(
            half,
            FLAG_HALF,
        ) | pv | FLAG_SUB | block_xy(n);
        let r1 = with_flags(
            Regs {
                mem_ptr: add16(r.mem_ptr, step),
                ..r.with_reg16(RegName16::HL, add16(hl, step)).with_reg16(RegName16::BC, bc)
            },
            f,
        );
        if repeat && bc != 0 && res != 0 {
            with_regs(s, Regs { pc: add16(r.pc, -2), mem_ptr: add16(r.pc, -1), ..r1 })
        } else {
            with_regs(s, r1)
        }
    }
}

/// `IN r,(C)`, `OUT (C),r`, `SBC HL,rp`, `ADC HL,rp`, `LD (nn),rp` and `LD rp,(nn)` (`ED`,
/// `x = 1`, `z` = 0 to 3)
pub open spec fn ed_io_arith(s: Z80State, y: u8, z: u8, rs: Seq<u8>) -> Z80State {
    let r = s.regs;
    let p = y / 2;
    let q = y % 2;
    let bc = r.reg16(RegName16::BC);
    if z == 0 {
        let v = rs[0];
        let f = (r.f & FLAG_CARRY) | sz53(v) | flag_if(even_parity(v), FLAG_PV);
        let r1 = if y != 6 {
            with_reg8(r, y, Prefix::NoPrefix, v)
        } else {
            r
        };
        with_regs(s, Regs { mem_ptr: add16(bc, 1), ..with_flags(r1, f) })
    } else if z == 1 {
        with_regs(s, Regs { mem_ptr: add16(bc, 1), ..r })
    } else if z == 2 {
        let hl = r.reg16(RegName16::HL);
        let v = r.reg16(rp_of(p, Prefix::NoPrefix));
        let (res, f) = adc16_flags(hl, v, r.f & FLAG_CARRY != 0, q == 0);
        with_regs(s, with_flags(Regs { mem_ptr: add16(hl, 1), ..r }.with_reg16(RegName16::HL, res), f))
    } else {
        let nn = word_at(rs, 0);
        let r1 = advanced(r, 2);
        let r2 = if q == 0 {
            r1
        } else {
            r1.with_reg16(rp_of(p, Prefix::NoPrefix), word_at(rs, 2))
        };
        with_regs(s, Regs { mem_ptr: add16(nn, 1), ..r2 })
    }
}

/// `NEG`, `RETN`, `RETI`, `IM`, `LD I,A`, `LD R,A`, `LD A,I`, `LD A,R`, `RRD`, `RLD` (`ED`,
/// `x = 1`, `z` = 4 to 7)
pub open spec fn ed_misc(s: Z80State, y: u8, z: u8, rs: Seq<u8>) -> Z80State {
    let r = s.regs;
    if z == 4 {
        with_regs(s, with_flags(Regs { a: sub8(0, r.a, false), ..r }, sub8_flags(0, r.a, false)))
    } else if z == 5 {
        let r1 = returned(r, rs);
        Z80State {
            regs: Regs { iff1: r.iff2, ..r1 },
            skip_interrupt: s.skip_interrupt || r.iff1 != r.iff2,
            ..s
        }
    } else if z == 6 {
        Z80State { int_mode: im_of_y(y), ..s }
    } else if y == 0 {
        with_regs(s, Regs { i: r.a, ..r })
    } else if y == 1 {
        with_regs(s, Regs { r: r.a, ..r })
    } else if y == 2 || y == 3 {
        let v = if y == 2 {
            r.i
        } else {
            r.r
        };
        Z80State { regs: ld_a_ir(r, v), iff2_read: true, ..s }
    } else if y == 4 || y == 5 {
        let m = rs[0];
        let a = r.a;
        let new_a = if y == 4 {
            (a - a % 16 + m % 16) as u8
        } else {
            (a - a % 16 + m / 16) as u8
        };
        let f = (r.f & FLAG_CARRY) | sz53(new_a) | flag_if(even_parity(new_a), FLAG_PV);
        with_regs(
            s,
            Regs { mem_ptr: add16(r.reg16(RegName16::HL), 1), ..with_flags(Regs { a: new_a, ..r }, f) },
        )
    } else {
        s
    }
}

/// An `ED`-prefixed instruction with opcode `op`; the opcodes that do nothing on the Z80 leave
/// the state as it is
#[verifier::opaque]
pub open spec fn extended_effect(s: Z80State, op: u8, rs: Seq<u8>) -> Z80State {
    let x = op / 64;
    let y = (op / 8) % 8;
    let z = op % 8;
    if x == 1 {
        if z <= 3 {
            ed_io_arith(s, y, z, rs)
        } else {
            ed_misc(s, y, z, rs)
        }
    } else if x == 2 && z <= 3 && y >= 4 {
        block_effect(s, y, z, rs[0])
    } else {
        s
    }
}

/// The state when an instruction starts: the NMI response is over, the `LD A,I`/`LD A,R` mark
/// is cleared, and the pending prefix is used up
pub open spec fn instruction_start(s: Z80State) -> Z80State {
    Z80State { nmi_responded: false, iff2_read: false, prefix: Prefix::NoPrefix, ..s }
}

/// The registers when an instruction's opcode has been fetched: Q moves to `last_q`
pub open spec fn opcode_fetched(s: Z80State) -> Z80State {
    with_regs(s, Regs { last_q: s.regs.q, q: 0, ..s.regs })
}

/// The registers after a prefix or opcode byte is fetched with an M1 cycle
pub open spec fn m1_fetched(s: Z80State) -> Z80State {
    with_regs(s, Regs { pc: add16(s.regs.pc, 1), r: next_r(s.regs.r), ..s.regs })
}

/// An instruction whose first byte `byte1` has been taken, in state `s`, with `rs` the bytes read
/// after it: the prefixes are decoded, and the instruction runs
pub open spec fn decoded_effect(s: Z80State, byte1: u8, rs: Seq<u8>) -> Z80State {
    let hi = prefix_of(byte1);
    if hi == Prefix::NoPrefix {
        normal_effect(opcode_fetched(s), byte1, Prefix::NoPrefix, rs)
    } else if hi == Prefix::DD || hi == Prefix::FD {
        let byte2 = rs[0];
        let s2 = m1_fetched(s);
        let lo = prefix_of(byte2);
        if lo == Prefix::NoPrefix {
            normal_effect(opcode_fetched(s2), byte2, hi, rs.skip(1))
        } else if lo == Prefix::CB {
            bits_effect(opcode_fetched(s2), hi, rs.skip(1))
        } else {
            Z80State { prefix: lo, skip_interrupt: true, ..s2 }
        }
    } else if hi == Prefix::CB {
        bits_effect(opcode_fetched(s), Prefix::NoPrefix, rs)
    } else {
        extended_effect(opcode_fetched(m1_fetched(s)), rs[0], rs.skip(1))
    }
}

/// One call of `execute_instruction`: one instruction, or one more prefix of a chain of
/// prefixes. Its first byte is the pending prefix if there is one, else the byte fetched at the
/// program counter; then the prefixes are decoded, and the instruction runs with the bytes
/// that follow in `rs`.
pub open spec fn instruction_effect(s: Z80State, rs: Seq<u8>) -> Z80State {
    let s0 = instruction_start(s);
    if s.prefix == Prefix::NoPrefix {
        decoded_effect(m1_fetched(s0), rs[0], rs.skip(1))
    } else {
        let byte1 = match prefix_byte(s.prefix) {
            Some(b) => b,
            None => 0u8,
        };
        decoded_effect(s0, byte1, rs)
    }
}

} // verus!
