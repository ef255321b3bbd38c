//! The calls an instruction or an interrupt makes to the bus, in order
//!
//! Besides its registers, a [`Z80`] keeps a ghost record of every call it has made to its bus:
//! memory reads and writes with the clock cycles each takes, port reads and writes, the byte
//! read when a mode 2 interrupt is acknowledged, the cycles it waits, with an address on the bus
//! or inside the processor, which give the timing; and what it has told the bus: the halt
//! output, `RETI`, the program counter after each instruction or interrupt, and opcodes that
//! are no instruction. A word read or written counts as its two byte accesses, the low
//! byte first. The functions here say, for an instruction or an interrupt, what it adds to that
//! record, as a function of the state before it and of `rs`, the bytes returned by its reads.

use vstd::prelude::*;

use crate::alu::{add8, sub8};
use crate::bus::Z80Bus;
use crate::cpu::{Z80State, Z80};
use crate::exec::{condition, displaced, hl_name, reg8, rp2_of, rp_of};
use crate::exec_bits::{reset_bit, set_bit, shift_result};
use crate::opcode::{prefix_byte, prefix_of, Opcode, Prefix};
use crate::regs::{add16, hi_byte, lo_byte, split_word, word, RegName16, Regs, FLAG_CARRY};
use crate::semantics::{
    instruction_effect, instruction_start, m1_fetched, memory_operand, opcode_fetched, word_at,
};

verus! {

/// One call the processor makes to its bus
#[derive(Debug, Clone, Copy)]
pub enum BusAccess {
    /// A byte read from memory, the byte the bus returned, and the clock cycles the access takes
    Read(u16, u8, usize),
    /// A byte written to memory, and the clock cycles the access takes
    Write(u16, u8, usize),
    /// A byte read from a port, and the byte the bus returned
    PortRead(u16, u8),
    /// A byte written to a port
    PortWrite(u16, u8),
    /// The byte the interrupting device put on the data bus
    Acknowledge(u8),
    /// The halt output set (`true`, by `HALT`) or released (`false`, when an interrupt ends a
    /// halt)
    Halt(bool),
    /// `RETI` reported, for the devices that watch for it
    Reti,
    /// The program counter reported after an instruction or an interrupt
    Pc(u16),
    /// An opcode that is no instruction, reported with the prefix it came after
    Unknown(Prefix, u8),
    /// Clock cycles spent with an address on the bus (which a machine with contended memory may
    /// stretch)
    Wait(u16, usize),
    /// Clock cycles spent inside the processor
    Internal(usize),
}

/// The clock cycles a call to the bus asks for: those of a memory access and of a wait; port
/// accesses and the acknowledge take what the bus makes them take
pub open spec fn access_cycles(a: BusAccess) -> int {
    match a {
        BusAccess::Read(_, _, c) => c as int,
        BusAccess::Write(_, _, c) => c as int,
        BusAccess::Wait(_, c) => c as int,
        BusAccess::Internal(c) => c as int,
        _ => 0,
    }
}

/// The clock cycles a record of calls asks for
pub open spec fn cycles(log: Seq<BusAccess>) -> int
    decreases log.len(),
{
    if log.len() == 0 {
        0
    } else {
        cycles(log.drop_last()) + access_cycles(log.last())
    }
}

/// Concatenations of transfer records associate
pub broadcast proof fn lemma_transfers_associate(a: Seq<BusAccess>, b: Seq<BusAccess>, c: Seq<BusAccess>)
    ensures
        #[trigger] ((a + b) + c) == a + (b + c),
{
    assert((a + b) + c =~= a + (b + c));
}


/// A push of `v` with the stack pointer at `sp`: the high byte below `sp`, then the low byte
/// below that, each write taking `clk` cycles
pub open spec fn push_writes(sp: u16, v: u16, clk: usize) -> Seq<BusAccess> {
    seq![BusAccess::Write(add16(sp, -1), hi_byte(v), clk), BusAccess::Write(add16(sp, -2), lo_byte(v), clk)]
}

/// A pop with the stack pointer at `sp`, the bus returning `rs[0]` and `rs[1]`, each read taking
/// `clk` cycles
pub open spec fn pop_reads(sp: u16, rs: Seq<u8>, clk: usize) -> Seq<BusAccess> {
    seq![BusAccess::Read(sp, rs[0], clk), BusAccess::Read(add16(sp, 1), rs[1], clk)]
}

/// I and R as the address the processor puts on the bus during its internal cycles
pub open spec fn ir(r: Regs) -> u16 {
    word(r.i, r.r)
}

/// The fetch of a relative jump's displacement `d` at `pc`, and the five cycles of the jump when
/// it is `taken`
pub open spec fn relative_transfers(pc: u16, d: u8, taken: bool) -> Seq<BusAccess> {
    seq![BusAccess::Read(pc, d, 3)] + if taken {
        seq![BusAccess::Wait(pc, 5)]
    } else {
        seq![]
    }
}

/// The fetch of a word operand at `pc`
pub open spec fn word_fetch(pc: u16, rs: Seq<u8>) -> Seq<BusAccess> {
    seq![BusAccess::Read(pc, rs[0], 3), BusAccess::Read(add16(pc, 1), rs[1], 3)]
}

/// The fetch of the displacement byte of an indexed memory operand, and the five cycles that
/// add it, if there is one
pub open spec fn operand_reads(r: Regs, prefix: Prefix, rs: Seq<u8>) -> Seq<BusAccess> {
    if prefix == Prefix::DD || prefix == Prefix::FD {
        seq![BusAccess::Read(r.pc, rs[0], 3), BusAccess::Wait(r.pc, 5)]
    } else {
        seq![]
    }
}

/// Transfers of `NOP`, `EX AF,AF'`, `DJNZ`, `JR`, `JR cc`: the displacement fetch and the
/// jump, after one cycle to count B down for `DJNZ`
pub open spec fn x0_z0_transfers(s: Z80State, y: u8, rs: Seq<u8>) -> Seq<BusAccess> {
    let r = s.regs;
    if y == 2 {
        seq![BusAccess::Wait(ir(r), 1)] + relative_transfers(r.pc, rs[0], sub8(r.b, 1, false) != 0)
    } else if y == 3 {
        relative_transfers(r.pc, rs[0], true)
    } else if y >= 4 {
        relative_transfers(r.pc, rs[0], condition(r.f, (y - 4) as u8))
    } else {
        seq![]
    }
}

/// Transfers of `LD rp,nn` and `ADD HL,rp`
pub open spec fn x0_z1_transfers(s: Z80State, y: u8, rs: Seq<u8>) -> Seq<BusAccess> {
    if y % 2 == 0 {
        word_fetch(s.regs.pc, rs)
    } else {
        seq![BusAccess::Wait(ir(s.regs), 7)]
    }
}

/// Transfers of the loads between A or HL and memory
pub open spec fn x0_z2_transfers(s: Z80State, y: u8, prefix: Prefix, rs: Seq<u8>) -> Seq<BusAccess> {
    let r = s.regs;
    let nn = word_at(rs, 0);
    let addr = if y / 2 == 0 {
        r.reg16(RegName16::BC)
    } else {
        r.reg16(RegName16::DE)
    };
    if y == 0 || y == 2 {
        seq![BusAccess::Write(addr, r.a, 3)]
    } else if y == 1 || y == 3 {
        seq![BusAccess::Read(addr, rs[0], 3)]
    } else if y == 4 {
        let v = r.reg16(hl_name(prefix));
        word_fetch(r.pc, rs) + seq![BusAccess::Write(nn, lo_byte(v), 3), BusAccess::Write(add16(nn, 1), hi_byte(v), 3)]
    } else if y == 5 {
        word_fetch(r.pc, rs) + seq![BusAccess::Read(nn, rs[2], 3), BusAccess::Read(add16(nn, 1), rs[3], 3)]
    } else if y == 6 {
        word_fetch(r.pc, rs) + seq![BusAccess::Write(nn, r.a, 3)]
    } else {
        word_fetch(r.pc, rs) + seq![BusAccess::Read(nn, rs[2], 3)]
    }
}

/// Transfers of `INC (HL)` and `DEC (HL)` and their indexed forms: the operand read and the
/// result written back
pub open spec fn x0_z45_transfers(s: Z80State, y: u8, z: u8, prefix: Prefix, rs: Seq<u8>) -> Seq<BusAccess> {
    if y == 6 {
        let (r1, addr, k) = memory_operand(s.regs, prefix, rs);
        let v = rs[k];
        let res = if z == 4 {
            add8(v, 1, false)
        } else {
            sub8(v, 1, false)
        };
        operand_reads(s.regs, prefix, rs) + seq![
            BusAccess::Read(addr, v, 3),
            BusAccess::Wait(addr, 1),
            BusAccess::Write(addr, res, 3),
        ]
    } else {
        seq![]
    }
}

/// Transfers of `LD r,n`
pub open spec fn x0_z6_transfers(s: Z80State, y: u8, prefix: Prefix, rs: Seq<u8>) -> Seq<BusAccess> {
    let r = s.regs;
    if y == 6 {
        if prefix == Prefix::DD || prefix == Prefix::FD {
            let addr = displaced(r.reg16(hl_name(prefix)), rs[0]);
            seq![
                BusAccess::Read(r.pc, rs[0], 3),
                BusAccess::Read(add16(r.pc, 1), rs[1], 3),
                BusAccess::Wait(add16(r.pc, 1), 2),
                BusAccess::Write(addr, rs[1], 3),
            ]
        } else {
            seq![BusAccess::Read(r.pc, rs[0], 3), BusAccess::Write(r.reg16(RegName16::HL), rs[0], 3)]
        }
    } else {
        seq![BusAccess::Read(r.pc, rs[0], 3)]
    }
}

/// Transfers of an unprefixed instruction with `x = 0`
pub open spec fn x0_transfers(s: Z80State, y: u8, z: u8, prefix: Prefix, rs: Seq<u8>) -> Seq<BusAccess> {
    if z == 0 {
        x0_z0_transfers(s, y, rs)
    } else if z == 1 {
        x0_z1_transfers(s, y, rs)
    } else if z == 2 {
        x0_z2_transfers(s, y, prefix, rs)
    } else if z == 3 {
        seq![BusAccess::Wait(ir(s.regs), 2)]
    } else if z == 4 || z == 5 {
        x0_z45_transfers(s, y, z, prefix, rs)
    } else if z == 6 {
        x0_z6_transfers(s, y, prefix, rs)
    } else {
        seq![]
    }
}

/// Transfers of `LD r,(HL)`, `LD (HL),r` and their indexed forms
pub open spec fn ld_transfers(s: Z80State, y: u8, z: u8, prefix: Prefix, rs: Seq<u8>) -> Seq<BusAccess> {
    let (r1, addr, k) = memory_operand(s.regs, prefix, rs);
    if z == 6 {
        operand_reads(s.regs, prefix, rs) + seq![BusAccess::Read(addr, rs[k], 3)]
    } else if y == 6 {
        operand_reads(s.regs, prefix, rs) + seq![BusAccess::Write(addr, reg8(s.regs, z, Prefix::NoPrefix), 3)]
    } else {
        seq![]
    }
}

/// Transfers of an ALU operation with a memory operand
pub open spec fn alu_transfers(s: Z80State, z: u8, prefix: Prefix, rs: Seq<u8>) -> Seq<BusAccess> {
    if z == 6 {
        let (r1, addr, k) = memory_operand(s.regs, prefix, rs);
        operand_reads(s.regs, prefix, rs) + seq![BusAccess::Read(addr, rs[k], 3)]
    } else {
        seq![]
    }
}

/// Transfers of `RET cc`, `POP`, `RET`, `EXX`, `JP (HL)`, `LD SP,HL`
pub open spec fn x3_z01_transfers(s: Z80State, y: u8, z: u8, rs: Seq<u8>) -> Seq<BusAccess> {
    let r = s.regs;
    if z == 0 {
        seq![BusAccess::Wait(ir(r), 1)] + if condition(r.f, y) {
            pop_reads(r.sp, rs, 3)
        } else {
            seq![]
        }
    } else if y % 2 == 0 || y == 1 {
        pop_reads(r.sp, rs, 3)
    } else if y == 7 {
        seq![BusAccess::Wait(ir(r), 2)]
    } else {
        seq![]
    }
}

/// Transfers of `JP nn`, `OUT (n),A`, `IN A,(n)`, `EX (SP),HL`
pub open spec fn x3_z3_transfers(s: Z80State, y: u8, prefix: Prefix, rs: Seq<u8>) -> Seq<BusAccess> {
    let r = s.regs;
    if y == 0 {
        word_fetch(r.pc, rs)
    } else if y == 2 {
        seq![BusAccess::Read(r.pc, rs[0], 3), BusAccess::PortWrite(word(r.a, rs[0]), r.a)]
    } else if y == 3 {
        seq![BusAccess::Read(r.pc, rs[0], 3), BusAccess::PortRead(word(r.a, rs[0]), rs[1])]
    } else if y == 4 {
        let v = r.reg16(hl_name(prefix));
        seq![
            BusAccess::Read(r.sp, rs[0], 3),
            BusAccess::Read(add16(r.sp, 1), rs[1], 4),
            BusAccess::Write(add16(r.sp, 1), hi_byte(v), 3),
            BusAccess::Write(r.sp, lo_byte(v), 3),
            BusAccess::Wait(r.sp, 2),
        ]
    } else if y == 1 {
        seq![BusAccess::Unknown(prefix, 0xCB)]
    } else {
        seq![]
    }
}

/// Transfers of `JP cc,nn`, `CALL cc,nn`, `PUSH`, `CALL nn`, ALU with an immediate operand,
/// `RST`
pub open spec fn x3_jumps_transfers(s: Z80State, y: u8, z: u8, prefix: Prefix, rs: Seq<u8>) -> Seq<BusAccess> {
    let r = s.regs;
    let p = y / 2;
    if z == 2 {
        word_fetch(r.pc, rs)
    } else if z == 4 {
        word_fetch(r.pc, rs) + if condition(r.f, y) {
            call_transfers(r, add16(r.pc, 2))
        } else {
            seq![]
        }
    } else if z == 5 {
        if y % 2 == 0 {
            seq![BusAccess::Wait(ir(r), 1)] + push_writes(r.sp, r.reg16(rp2_of(p, prefix)), 3)
        } else if p == 0 {
            word_fetch(r.pc, rs) + call_transfers(r, add16(r.pc, 2))
        } else {
            seq![BusAccess::Unknown(prefix, (192 + y * 8 + 5) as u8)]
        }
    } else if z == 6 {
        seq![BusAccess::Read(r.pc, rs[0], 3)]
    } else {
        seq![BusAccess::Wait(ir(r), 1)] + push_writes(r.sp, r.pc, 3)
    }
}

/// A call with the stack pointer of `r`, the return address `ret` being one past the last
/// byte of the instruction: a cycle with that byte's address on the bus, then the push
pub open spec fn call_transfers(r: Regs, ret: u16) -> Seq<BusAccess> {
    seq![BusAccess::Wait(add16(ret, -1), 1)] + push_writes(r.sp, ret, 3)
}

/// Transfers of an instruction without a prefix, or after `DD` or `FD`, with opcode `op`
#[verifier::opaque]
pub open spec fn normal_transfers(s: Z80State, op: u8, prefix: Prefix, rs: Seq<u8>) -> Seq<BusAccess> {
    let x = op / 64;
    let y = (op / 8) % 8;
    let z = op % 8;
    if x == 0 {
        x0_transfers(s, y, z, prefix, rs)
    } else if x == 1 {
        if y == 6 && z == 6 {
            if s.halted {
                seq![]
            } else {
                seq![BusAccess::Halt(true)]
            }
        } else {
            ld_transfers(s, y, z, prefix, rs)
        }
    } else if x == 2 {
        alu_transfers(s, z, prefix, rs)
    } else {
        x3_transfers(s, y, z, prefix, rs)
    }
}

/// Transfers of an unprefixed instruction with `x = 3`
pub open spec fn x3_transfers(s: Z80State, y: u8, z: u8, prefix: Prefix, rs: Seq<u8>) -> Seq<BusAccess> {
    if z == 0 || z == 1 {
        x3_z01_transfers(s, y, z, rs)
    } else if z == 3 {
        x3_z3_transfers(s, y, prefix, rs)
    } else {
        x3_jumps_transfers(s, y, z, prefix, rs)
    }
}

/// The result that a rotation, shift, `RES` or `SET` (`CB` opcode `op`) makes of `v`, with the
/// carry flag `c`
pub open spec fn bits_result(op: u8, v: u8, c: bool) -> u8 {
    let x = op / 64;
    let y = (op / 8) % 8;
    if x == 0 {
        shift_result(y, v, c).0
    } else if x == 2 {
        reset_bit(v, y)
    } else {
        set_bit(v, y)
    }
}

/// Transfers of a `CB`-prefixed instruction: the opcode fetch (after the displacement for an
/// indexed one), and for a memory operand its read and, unless it is `BIT`, the result written
/// back
#[verifier::opaque]
pub open spec fn bits_transfers(s: Z80State, prefix: Prefix, rs: Seq<u8>) -> Seq<BusAccess> {
    let r = s.regs;
    let c = r.f & FLAG_CARRY != 0;
    if prefix == Prefix::DD || prefix == Prefix::FD {
        let addr = displaced(r.reg16(hl_name(prefix)), rs[0]);
        let op = rs[1];
        seq![
            BusAccess::Read(r.pc, rs[0], 3),
            BusAccess::Read(add16(r.pc, 1), rs[1], 3),
            BusAccess::Wait(add16(r.pc, 1), 2),
            BusAccess::Read(addr, rs[2], 3),
            BusAccess::Wait(addr, 1),
        ] + if op / 64 == 1 {
            seq![]
        } else {
            seq![BusAccess::Write(addr, bits_result(op, rs[2], c), 3)]
        }
    } else {
        let op = rs[0];
        let hl = r.reg16(RegName16::HL);
        seq![BusAccess::Read(r.pc, rs[0], 4)] + if op % 8 == 6 {
            seq![BusAccess::Read(hl, rs[1], 3), BusAccess::Wait(hl, 1)] + if op / 64 == 1 {
                seq![]
            } else {
                seq![BusAccess::Write(hl, bits_result(op, rs[1], c), 3)]
            }
        } else {
            seq![]
        }
    }
}

/// Transfers of `IN r,(C)`, `OUT (C),r`, `SBC HL,rp`, `ADC HL,rp`, `LD (nn),rp`, `LD rp,(nn)`
pub open spec fn ed_io_transfers(s: Z80State, y: u8, z: u8, rs: Seq<u8>) -> Seq<BusAccess> {
    let r = s.regs;
    let bc = r.reg16(RegName16::BC);
    if z == 0 {
        seq![BusAccess::PortRead(bc, rs[0])]
    } else if z == 1 {
        seq![BusAccess::PortWrite(bc, if y == 6 { 0u8 } else { reg8(r, y, Prefix::NoPrefix) })]
    } else if z == 2 {
        seq![BusAccess::Wait(ir(r), 7)]
    } else if z == 3 {
        let nn = word_at(rs, 0);
        let v = r.reg16(rp_of(y / 2, Prefix::NoPrefix));
        word_fetch(r.pc, rs) + if y % 2 == 0 {
            seq![BusAccess::Write(nn, lo_byte(v), 3), BusAccess::Write(add16(nn, 1), hi_byte(v), 3)]
        } else {
            seq![BusAccess::Read(nn, rs[2], 3), BusAccess::Read(add16(nn, 1), rs[3], 3)]
        }
    } else {
        seq![]
    }
}

/// Transfers of `NEG`, `RETN`, `RETI`, `IM`, `LD I,A`, `LD R,A`, `LD A,I`, `LD A,R`, `RRD`,
/// `RLD`
pub open spec fn ed_misc_transfers(s: Z80State, y: u8, z: u8, rs: Seq<u8>) -> Seq<BusAccess> {
    let r = s.regs;
    let hl = r.reg16(RegName16::HL);
    if z == 5 {
        pop_reads(r.sp, rs, 3) + if y == 1 {
            seq![BusAccess::Reti]
        } else {
            seq![]
        }
    } else if z == 7 && (y == 4 || y == 5) {
        let m = rs[0];
        let new_m = if y == 4 {
            ((r.a % 16) * 16 + m / 16) as u8
        } else {
            ((m % 16) * 16 + r.a % 16) as u8
        };
        seq![BusAccess::Read(hl, m, 3), BusAccess::Wait(hl, 4), BusAccess::Write(hl, new_m, 3)]
    } else if z == 7 && y < 4 {
        seq![BusAccess::Wait(ir(r), 1)]
    } else {
        seq![]
    }
}

/// Transfers of a block transfer (`z` = 0) or compare (`z` = 1) that read `v` from (HL), of a
/// block input (`z` = 2) that reads `v` from port BC and writes it to (HL), and of a block output
/// (`z` = 3) that reads `v` from (HL) and writes it to port BC once B has been counted down;
/// a repeating one (`y` = 6 or 7) that goes back to the instruction ends with five more cycles
pub open spec fn block_transfers(s: Z80State, y: u8, z: u8, v: u8) -> Seq<BusAccess> {
    let r = s.regs;
    let hl = r.reg16(RegName16::HL);
    let de = r.reg16(RegName16::DE);
    let bc = add16(r.reg16(RegName16::BC), -1);
    let b = sub8(r.b, 1, false);
    let port = word(b, r.c);
    if z == 2 {
        seq![BusAccess::Wait(ir(r), 1), BusAccess::PortRead(r.reg16(RegName16::BC), v), BusAccess::Write(hl, v, 3)]
            + if y >= 6 && b != 0 {
            seq![BusAccess::Wait(hl, 5)]
        } else {
            seq![]
        }
    } else if z == 3 {
        seq![BusAccess::Wait(ir(r), 1), BusAccess::Read(hl, v, 3), BusAccess::PortWrite(port, v)] + if y
            >= 6 && b != 0 {
            seq![BusAccess::Wait(port, 5)]
        } else {
            seq![]
        }
    } else if z == 0 {
        seq![BusAccess::Read(hl, v, 3), BusAccess::Write(de, v, 3), BusAccess::Wait(de, 2)] + if y >= 6
            && bc != 0 {
            seq![BusAccess::Wait(de, 5)]
        } else {
            seq![]
        }
    } else {
        seq![BusAccess::Read(hl, v, 3), BusAccess::Wait(hl, 5)] + if y >= 6 && bc != 0 && sub8(
            r.a,
            v,
            false,
        ) != 0 {
            seq![BusAccess::Wait(hl, 5)]
        } else {
            seq![]
        }
    }
}

/// Transfers of an `ED`-prefixed instruction with opcode `op`
#[verifier::opaque]
pub open spec fn extended_transfers(s: Z80State, op: u8, rs: Seq<u8>) -> Seq<BusAccess> {
    let x = op / 64;
    let y = (op / 8) % 8;
    let z = op % 8;
    if x == 1 {
        if z <= 3 {
            ed_io_transfers(s, y, z, rs)
        } else {
            ed_misc_transfers(s, y, z, rs)
        }
    } else if x == 2 && z <= 3 && y >= 4 {
        block_transfers(s, y, z, rs[0])
    } else {
        seq![BusAccess::Unknown(Prefix::ED, op)]
    }
}

/// Transfers of an instruction whose first byte `byte1` has been taken, in state `s`
pub open spec fn decoded_transfers(s: Z80State, byte1: u8, rs: Seq<u8>) -> Seq<BusAccess> {
    let hi = prefix_of(byte1);
    if hi == Prefix::NoPrefix {
        normal_transfers(opcode_fetched(s), byte1, Prefix::NoPrefix, rs)
    } else if hi == Prefix::DD || hi == Prefix::FD {
        let s2 = m1_fetched(s);
        let lo = prefix_of(rs[0]);
        seq![BusAccess::Read(s.regs.pc, rs[0], 4)] + if lo == Prefix::NoPrefix {
            normal_transfers(opcode_fetched(s2), rs[0], hi, rs.skip(1))
        } else if lo == Prefix::CB {
            bits_transfers(opcode_fetched(s2), hi, rs.skip(1))
        } else {
            seq![]
        }
    } else if hi == Prefix::CB {
        bits_transfers(opcode_fetched(s), Prefix::NoPrefix, rs)
    } else {
        seq![BusAccess::Read(s.regs.pc, rs[0], 4)] + extended_transfers(
            opcode_fetched(m1_fetched(s)),
            rs[0],
            rs.skip(1),
        )
    }
}

/// Transfers of one call of `execute_instruction`: the opcode fetch, unless a prefix was
/// pending, then those of the instruction, and last the program counter reported
pub open spec fn instruction_transfers(s: Z80State, rs: Seq<u8>) -> Seq<BusAccess> {
    let s0 = instruction_start(s);
    let body = if s.prefix == Prefix::NoPrefix {
        seq![BusAccess::Read(s.regs.pc, rs[0], 4)] + decoded_transfers(m1_fetched(s0), rs[0], rs.skip(1))
    } else {
        let byte1 = match prefix_byte(s.prefix) {
            Some(b) => b,
            None => 0u8,
        };
        decoded_transfers(s0, byte1, rs)
    };
    body + seq![BusAccess::Pc(instruction_effect(s, rs).regs.pc)]
}

} // verus!
