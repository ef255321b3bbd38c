//! Execution of the `ED`-prefixed instructions

use vstd::prelude::*;

use crate::alu::{even_parity, flag_if, parity_even, sub8_exec, sz53, sz53_of, xy_bits};
use crate::bus::Z80Bus;
use crate::cpu::{state_of, IntMode, Z80};
use crate::transfers::{
    block_transfers, ed_io_transfers, ed_misc_transfers, extended_transfers, pop_reads,
    BusAccess,
};
use crate::semantics::{
    block_effect, block_io, block_transfer_or_compare, ed_io_arith, ed_misc, extended_effect, returned,
};
use crate::exec::{get_r8, ir_addr, rp_of, same_control, set_r8};
use crate::opcode::{Opcode, Prefix};
use crate::regs::{
    add16, hi_byte, lo_byte, make_word, split_word, wrapping_add16, wrapping_sub16, RegName16, Regs,
    FLAG_CARRY, FLAG_F3, FLAG_F5, FLAG_HALF, FLAG_PV, FLAG_SIGN, FLAG_SUB, FLAG_ZERO,
};

verus! {

broadcast use crate::transfers::lemma_transfers_associate;

/// The registers after `LD A,I` (`v` = I) or `LD A,R` (`v` = R): A gets `v`; S, Z and bits 3
/// and 5 follow it; P/V is IFF2; H and N reset; C kept
pub open spec fn ld_a_ir(r: Regs, v: u8) -> Regs {
    let f = (r.f & FLAG_CARRY) | sz53(v) | flag_if(r.iff2, FLAG_PV);
    Regs { a: v, f, q: f, ..r }
}

/// `LD A,I` or `LD A,R` on the registers
pub fn load_a_ir(regs: &mut Regs, v: u8)
    ensures
        *final(regs) == ld_a_ir(*old(regs), v),
{
    let f = (regs.f & FLAG_CARRY) | sz53_of(v) | (if regs.iff2 {
        FLAG_PV
    } else {
        0
    });
    regs.a = v;
    regs.set_flags(f);
}

/// Flags after `ADC HL,rp` (`sub` false) or `SBC HL,rp` (`sub` true) of `a` and `v` with carry
/// `c`: S, Z from the 16-bit result; H from bit 11; P/V on signed overflow; N for the
/// subtraction; C from bit 15; bits 3 and 5 from the high byte of the result
pub open spec fn adc16_flags(a: u16, v: u16, c: bool, sub: bool) -> (u16, u8) {
    let ci: int = if c {
        1
    } else {
        0
    };
    let sa: int = if a >= 0x8000 {
        a - 0x10000
    } else {
        a as int
    };
    let sv: int = if v >= 0x8000 {
        v - 0x10000
    } else {
        v as int
    };
    let exact: int = if sub {
        a - v - ci
    } else {
        a + v + ci
    };
    let signed: int = if sub {
        sa - sv - ci
    } else {
        sa + sv + ci
    };
    let res = ((exact + 0x20000) % 0x10000) as u16;
    let half = if sub {
        a % 0x1000 < v % 0x1000 + ci
    } else {
        a % 0x1000 + v % 0x1000 + ci >= 0x1000
    };
    let f = flag_if(res >= 0x8000, FLAG_SIGN) | flag_if(res == 0, FLAG_ZERO) | xy_bits(hi_byte(res))
        | flag_if(half, FLAG_HALF) | flag_if(signed < -0x8000 || signed > 0x7FFF, FLAG_PV) | flag_if(
        sub,
        FLAG_SUB,
    ) | flag_if(exact < 0 || exact >= 0x10000, FLAG_CARRY);
    (res, f)
}

/// `ADC HL,rp` or `SBC HL,rp`: the result and the flags
pub fn adc16_exec(a: u16, v: u16, c: bool, sub: bool) -> (r: (u16, u8))
    ensures
        r == adc16_flags(a, v, c, sub),
{
    let ci: i32 = if c {
        1
    } else {
        0
    };
    let sa: i32 = if a >= 0x8000 {
        a as i32 - 0x10000
    } else {
        a as i32
    };
    let sv: i32 = if v >= 0x8000 {
        v as i32 - 0x10000
    } else {
        v as i32
    };
    let exact: i32 = if sub {
        a as i32 - v as i32 - ci
    } else {
        a as i32 + v as i32 + ci
    };
    let signed: i32 = if sub {
        sa - sv - ci
    } else {
        sa + sv + ci
    };
    let res: u16 = ((exact + 0x20000) % 0x10000) as u16;
    let ah: i32 = (a % 0x1000) as i32;
    let vh: i32 = (v % 0x1000) as i32;
    let half = if sub {
        ah < vh + ci
    } else {
        ah + vh + ci >= 0x1000
    };
    let f = (if res >= 0x8000 {
        FLAG_SIGN
    } else {
        0
    }) | (if res == 0 {
        FLAG_ZERO
    } else {
        0
    }) | (split_word(res).0 & (FLAG_F5 | FLAG_F3)) | (if half {
        FLAG_HALF
    } else {
        0
    }) | (if signed < -0x8000 || signed > 0x7FFF {
        FLAG_PV
    } else {
        0
    }) | (if sub {
        FLAG_SUB
    } else {
        0
    }) | (if exact < 0 || exact >= 0x10000 {
        FLAG_CARRY
    } else {
        0
    });
    (res, f)
}

/// Runs an `ED`-prefixed instruction whose opcode has been fetched; Q has been moved to
/// `last_q`. Opcodes that do nothing on the Z80 are reported to the bus and do nothing here.
/// Returns the bytes read after the opcode.
#[verifier::rlimit(30)]
pub(crate) fn execute_extended<B: Z80Bus>(cpu: &mut Z80, bus: &mut B, opcode: Opcode) -> (rs: Ghost<
    Seq<u8>,
>)
    requires
        opcode.fields_of(opcode.byte),
        opcode.x < 4,
        opcode.y < 8,
        opcode.z < 8,
        opcode.p < 4,
        opcode.q < 2,
    ensures
        final(bus).calls() == old(bus).calls() + extended_transfers(state_of(*old(cpu)), opcode.byte, rs@),
        state_of(*final(cpu)) == extended_effect(state_of(*old(cpu)), opcode.byte, rs@),
        same_control(*old(cpu), *final(cpu)),
{
    reveal(extended_transfers);
    reveal(extended_effect);
    let y = opcode.y;
    let z = opcode.z;
    if opcode.x == 1 {
        if z <= 3 {
            ed_io_arith_exec(cpu, bus, y, z)
        } else {
            ed_misc_exec(cpu, bus, y, z)
        }
    } else if opcode.x == 2 && z <= 3 && y >= 4 {
        let v = block_instruction(cpu, bus, y, z);
        Ghost(Seq::empty().push(v))
    } else {
        bus.process_unknown_opcode(Prefix::ED, opcode);
        Ghost(Seq::empty())
    }
}

/// `IN r,(C)`, `OUT (C),r`, `SBC HL,rp`, `ADC HL,rp`, `LD (nn),rp`, `LD rp,(nn)`
#[verifier::rlimit(40)]
fn ed_io_arith_exec<B: Z80Bus>(cpu: &mut Z80, bus: &mut B, y: u8, z: u8) -> (rs: Ghost<Seq<u8>>)
    requires
        y < 8,
        z <= 3,
    ensures
        final(bus).calls() == old(bus).calls() + ed_io_transfers(state_of(*old(cpu)), y, z, rs@),
        state_of(*final(cpu)) == ed_io_arith(state_of(*old(cpu)), y, z, rs@),
        same_control(*old(cpu), *final(cpu)),
{
    let p = y / 2;
    let q = y % 2;
    match z {
        // IN r,(C)
        0 => {
            let port = cpu.regs.get_bc();
            let v = bus.read_io(port);
            let f = (cpu.regs.f & FLAG_CARRY) | sz53_of(v) | (if parity_even(v) {
                FLAG_PV
            } else {
                0
            });
            if y != 6 {
                set_r8(&mut cpu.regs, y, Prefix::NoPrefix, v);
            }
            cpu.regs.set_flags(f);
            cpu.regs.set_mem_ptr(wrapping_add16(port, 1));
            Ghost(Seq::empty().push(v))
        },
        // OUT (C),r
        1 => {
            let port = cpu.regs.get_bc();
            let v = if y == 6 {
                0
            } else {
                get_r8(&cpu.regs, y, Prefix::NoPrefix)
            };
            bus.write_io(port, v);
            cpu.regs.set_mem_ptr(wrapping_add16(port, 1));
            Ghost(Seq::empty())
        },
        // SBC HL,rp / ADC HL,rp
        2 => {
            bus.wait_loop(ir_addr(&cpu.regs), 7);
            let hl = cpu.regs.get_hl();
            let v = cpu.regs.get_reg_16(rp_of_exec(p));
            let c = cpu.regs.f & FLAG_CARRY != 0;
            let (res, f) = adc16_exec(hl, v, c, q == 0);
            cpu.regs.set_mem_ptr(wrapping_add16(hl, 1));
            cpu.regs.set_hl(res);
            cpu.regs.set_flags(f);
            Ghost(Seq::empty())
        },
        // LD (nn),rp / LD rp,(nn)
        _ => {
            let addr = cpu.fetch_word(bus, 3);
            let rp = rp_of_exec(p);
            let ghost mut rs: Seq<u8> = Seq::empty().push(lo_byte(addr)).push(hi_byte(addr));
            if q == 0 {
                let v = cpu.regs.get_reg_16(rp);
                bus.write_word(addr, v, 3);
            } else {
                let v = bus.read_word(addr, 3);
                cpu.regs.set_reg_16(rp, v);
                proof {
                    rs = rs.push(lo_byte(v)).push(hi_byte(v));
                }
            }
            cpu.regs.set_mem_ptr(wrapping_add16(addr, 1));
            Ghost(rs)
        },
    }
}

/// `NEG`, `RETN`, `RETI`, `IM`, `LD I,A`, `LD R,A`, `LD A,I`, `LD A,R`, `RRD`, `RLD`
#[verifier::rlimit(40)]
fn ed_misc_exec<B: Z80Bus>(cpu: &mut Z80, bus: &mut B, y: u8, z: u8) -> (rs: Ghost<Seq<u8>>)
    requires
        y < 8,
        4 <= z < 8,
    ensures
        final(bus).calls() == old(bus).calls() + ed_misc_transfers(state_of(*old(cpu)), y, z, rs@),
        state_of(*final(cpu)) == ed_misc(state_of(*old(cpu)), y, z, rs@),
        same_control(*old(cpu), *final(cpu)),
{
    match z {
        // NEG
        4 => {
            let a = cpu.regs.a;
            let (res, f) = sub8_exec(0, a, false);
            cpu.regs.a = res;
            cpu.regs.set_flags(f);
            Ghost(Seq::empty())
        },
        // RETN / RETI
        5 => {
            let iff1 = cpu.regs.iff1;
            let iff2 = cpu.regs.iff2;
            let rs = ret_pc(cpu, bus);
            cpu.regs.set_iff1(iff2);
            if iff1 != iff2 {
                cpu.skip_interrupt = true;
            }
            if y == 1 {
                bus.reti();
            }
            rs
        },
        // IM 0 / IM 1 / IM 2
        6 => {
            cpu.int_mode = match y % 4 {
                0 | 1 => IntMode::Im0,
                2 => IntMode::Im1,
                _ => IntMode::Im2,
            };
            Ghost(Seq::empty())
        },
        _ => ed_z7_exec(cpu, bus, y),
    }
}

/// `LD I,A`, `LD R,A`, `LD A,I`, `LD A,R`, `RRD`, `RLD`
#[verifier::rlimit(40)]
fn ed_z7_exec<B: Z80Bus>(cpu: &mut Z80, bus: &mut B, y: u8) -> (rs: Ghost<Seq<u8>>)
    requires
        y < 8,
    ensures
        final(bus).calls() == old(bus).calls() + ed_misc_transfers(state_of(*old(cpu)), y, 7, rs@),
        state_of(*final(cpu)) == ed_misc(state_of(*old(cpu)), y, 7, rs@),
        same_control(*old(cpu), *final(cpu)),
{
    match y {
        // LD I,A
        0 => {
            bus.wait_loop(ir_addr(&cpu.regs), 1);
            cpu.regs.i = cpu.regs.a;
            Ghost(Seq::empty())
        },
        // LD R,A
        1 => {
            bus.wait_loop(ir_addr(&cpu.regs), 1);
            cpu.regs.r = cpu.regs.a;
            Ghost(Seq::empty())
        },
        // LD A,I / LD A,R
        2 | 3 => {
            bus.wait_loop(ir_addr(&cpu.regs), 1);
            let v = if y == 2 {
                cpu.regs.i
            } else {
                cpu.regs.r
            };
            load_a_ir(&mut cpu.regs, v);
            cpu.iff2_read = true;
            Ghost(Seq::empty())
        },
        // RRD / RLD
        4 | 5 => {
            let hl = cpu.regs.get_hl();
            let m = bus.read(hl, 3);
            bus.wait_loop(hl, 4);
            let a = cpu.regs.a;
            let (new_m, new_a) = if y == 4 {
                (((a % 16) * 16 + m / 16) as u8, (a - a % 16 + m % 16) as u8)
            } else {
                (((m % 16) * 16 + a % 16) as u8, (a - a % 16 + m / 16) as u8)
            };
            bus.write(hl, new_m, 3);
            assert(bus.calls() =~= old(bus).calls() + seq![
                BusAccess::Read(hl, m, 3),
                BusAccess::Wait(hl, 4),
                BusAccess::Write(hl, new_m, 3),
            ]);
            cpu.regs.a = new_a;
            let f = (cpu.regs.f & FLAG_CARRY) | sz53_of(new_a) | (if parity_even(new_a) {
                FLAG_PV
            } else {
                0
            });
            cpu.regs.set_flags(f);
            cpu.regs.set_mem_ptr(wrapping_add16(hl, 1));
            Ghost(Seq::empty().push(m))
        },
        // the remaining two do nothing
        _ => Ghost(Seq::empty()),
    }
}

/// Pops the program counter, which also goes to MEMPTR; returns the bytes read
#[verifier::rlimit(30)]
fn ret_pc<B: Z80Bus>(cpu: &mut Z80, bus: &mut B) -> (rs: Ghost<Seq<u8>>)
    ensures
        (*final(cpu) == Z80 { regs: returned(old(cpu).regs, rs@), ..*old(cpu) } && final(bus).calls() == old(bus).calls() + (pop_reads(old(cpu).regs.sp, rs@, 3))),
{
    let ghost r0 = cpu.regs;
    let sp = cpu.regs.sp;
    let lo = bus.read(sp, 3);
    let sp1 = wrapping_add16(sp, 1);
    let hi = bus.read(sp1, 3);
    cpu.regs.set_sp(wrapping_add16(sp1, 1));
    let v = make_word(hi, lo);
    cpu.regs.set_pc(v);
    cpu.regs.set_mem_ptr(v);
    let rs = Ghost(Seq::empty().push(lo).push(hi));
    assert(cpu.regs == returned(r0, rs@));
    assert(bus.calls() =~= old(bus).calls() + pop_reads(old(cpu).regs.sp, rs@, 3));
    rs
}

fn rp_of_exec(p: u8) -> (n: RegName16)
    ensures
        n == rp_of(p, Prefix::NoPrefix),
{
    match p {
        0 => RegName16::BC,
        1 => RegName16::DE,
        2 => RegName16::HL,
        _ => RegName16::SP,
    }
}

/// `LDI`, `LDD`, `LDIR`, `LDDR` (`z` = 0) and `CPI`, `CPD`, `CPIR`, `CPDR` (`z` = 1); `y` = 4
/// increments, 5 decrements, 6 and 7 repeat. Returns the byte read from (HL).
#[verifier::rlimit(30)]
fn block_instruction<B: Z80Bus>(cpu: &mut Z80, bus: &mut B, y: u8, z: u8) -> (v: u8)
    requires
        4 <= y < 8,
        z <= 3,
    ensures
        final(bus).calls() == old(bus).calls() + block_transfers(state_of(*old(cpu)), y, z, v),
        state_of(*final(cpu)) == block_effect(state_of(*old(cpu)), y, z, v),
        same_control(*old(cpu), *final(cpu)),
{
    match z {
        0 => block_transfer(cpu, bus, y),
        1 => block_compare(cpu, bus, y),
        2 => block_input(cpu, bus, y),
        _ => block_output(cpu, bus, y),
    }
}

/// The flags after a block input or output that moved `v`, with `c` the C register stepped
/// (input) or the new L (output), and `b` the new B
fn block_io_flags(v: u8, c: u8, b: u8) -> (f: u8)
    ensures
        ({
            let k: int = v + c;
            f == sz53(b) | flag_if(v >= 128, FLAG_SUB) | flag_if(k > 255, FLAG_HALF | FLAG_CARRY)
                | flag_if(even_parity(((k % 8) as u8) ^ b), FLAG_PV)
        }),
{
    let k: u16 = v as u16 + c as u16;
    sz53_of(b) | (if v >= 128 {
        FLAG_SUB
    } else {
        0
    }) | (if k > 255 {
        FLAG_HALF | FLAG_CARRY
    } else {
        0
    }) | (if parity_even(((k % 8) as u8) ^ b) {
        FLAG_PV
    } else {
        0
    })
}

/// `INI`, `IND`, `INIR`, `INDR`
#[verifier::rlimit(40)]
fn block_input<B: Z80Bus>(cpu: &mut Z80, bus: &mut B, y: u8) -> (v: u8)
    requires
        4 <= y < 8,
    ensures
        final(bus).calls() == old(bus).calls() + block_transfers(state_of(*old(cpu)), y, 2, v),
        state_of(*final(cpu)) == block_io(state_of(*old(cpu)), y, 2, v),
        same_control(*old(cpu), *final(cpu)),
{
    let down = y == 5 || y == 7;
    let repeat = y >= 6;
    bus.wait_loop(ir_addr(&cpu.regs), 1);
    let bc = cpu.regs.get_bc();
    let v = bus.read_io(bc);
    let hl = cpu.regs.get_hl();
    bus.write(hl, v, 3);
    let b = if cpu.regs.b == 0 {
        255
    } else {
        cpu.regs.b - 1
    };
    let c = cpu.regs.c;
    let c1: u8 = if down {
        ((c as u16 + 255) % 256) as u8
    } else {
        ((c as u16 + 1) % 256) as u8
    };
    let f = block_io_flags(v, c1, b);
    cpu.regs.set_hl(
        if down {
            wrapping_sub16(hl, 1)
        } else {
            wrapping_add16(hl, 1)
        },
    );
    cpu.regs.b = b;
    cpu.regs.set_flags(f);
    cpu.regs.set_mem_ptr(
        if down {
            wrapping_sub16(bc, 1)
        } else {
            wrapping_add16(bc, 1)
        },
    );
    if repeat && b != 0 {
        bus.wait_loop(hl, 5);
        repeat_block(&mut cpu.regs);
    }
    assert(bus.calls() =~= old(bus).calls() + block_transfers(state_of(*old(cpu)), y, 2, v));
    v
}

/// `OUTI`, `OUTD`, `OTIR`, `OTDR`
#[verifier::rlimit(40)]
fn block_output<B: Z80Bus>(cpu: &mut Z80, bus: &mut B, y: u8) -> (v: u8)
    requires
        4 <= y < 8,
    ensures
        final(bus).calls() == old(bus).calls() + block_transfers(state_of(*old(cpu)), y, 3, v),
        state_of(*final(cpu)) == block_io(state_of(*old(cpu)), y, 3, v),
        same_control(*old(cpu), *final(cpu)),
{
    let down = y == 5 || y == 7;
    let repeat = y >= 6;
    bus.wait_loop(ir_addr(&cpu.regs), 1);
    let b = if cpu.regs.b == 0 {
        255
    } else {
        cpu.regs.b - 1
    };
    cpu.regs.b = b;
    let hl = cpu.regs.get_hl();
    let v = bus.read(hl, 3);
    let port = make_word(b, cpu.regs.c);
    bus.write_io(port, v);
    let new_hl = if down {
        wrapping_sub16(hl, 1)
    } else {
        wrapping_add16(hl, 1)
    };
    cpu.regs.set_hl(new_hl);
    let f = block_io_flags(v, split_word(new_hl).1, b);
    cpu.regs.set_flags(f);
    cpu.regs.set_mem_ptr(
        if down {
            wrapping_sub16(port, 1)
        } else {
            wrapping_add16(port, 1)
        },
    );
    if repeat && b != 0 {
        bus.wait_loop(port, 5);
        repeat_block(&mut cpu.regs);
    }
    assert(bus.calls() =~= old(bus).calls() + block_transfers(state_of(*old(cpu)), y, 3, v));
    v
}

/// The step back of a repeating block instruction: the program counter returns to the
/// instruction, MEMPTR one past it
fn repeat_block(regs: &mut Regs)
    ensures
        *final(regs) == (Regs { pc: add16(old(regs).pc, -2), mem_ptr: add16(old(regs).pc, -1), ..*old(regs) }),
{
    let pc = wrapping_sub16(regs.pc, 2);
    regs.set_pc(pc);
    regs.set_mem_ptr(wrapping_sub16(wrapping_add16(pc, 2), 1));
}

/// `LDI`, `LDD`, `LDIR`, `LDDR`
#[verifier::rlimit(40)]
fn block_transfer<B: Z80Bus>(cpu: &mut Z80, bus: &mut B, y: u8) -> (v: u8)
    requires
        4 <= y < 8,
    ensures
        final(bus).calls() == old(bus).calls() + block_transfers(state_of(*old(cpu)), y, 0, v),
        state_of(*final(cpu)) == block_transfer_or_compare(state_of(*old(cpu)), y, 0, v),
        same_control(*old(cpu), *final(cpu)),
{
    let down = y == 5 || y == 7;
    let repeat = y >= 6;
    let hl = cpu.regs.get_hl();
    let bc = wrapping_sub16(cpu.regs.get_bc(), 1);
    let v = bus.read(hl, 3);
    let kept = cpu.regs.f & (FLAG_SIGN | FLAG_ZERO | FLAG_CARRY);
    let pv = if bc != 0 {
        FLAG_PV
    } else {
        0
    };
    let de = cpu.regs.get_de();
    bus.write(de, v, 3);
    bus.wait_loop(de, 2);
    cpu.regs.set_de(
        if down {
            wrapping_sub16(de, 1)
        } else {
            wrapping_add16(de, 1)
        },
    );
    cpu.regs.set_hl(
        if down {
            wrapping_sub16(hl, 1)
        } else {
            wrapping_add16(hl, 1)
        },
    );
    cpu.regs.set_bc(bc);
    // bits 3 and 5 from A plus the byte moved: bit 3 and bit 1 of it
    let n = ((cpu.regs.a as u16 + v as u16) % 256) as u8;
    let xy = (n & FLAG_F3) | (if (n / 2) % 2 == 1 {
        FLAG_F5
    } else {
        0
    });
    cpu.regs.set_flags(kept | pv | xy);
    if repeat && bc != 0 {
        bus.wait_loop(de, 5);
        repeat_block(&mut cpu.regs);
    }
    assert(bus.calls() =~= old(bus).calls() + block_transfers(state_of(*old(cpu)), y, 0, v));
    v
}

/// `CPI`, `CPD`, `CPIR`, `CPDR`
#[verifier::rlimit(40)]
fn block_compare<B: Z80Bus>(cpu: &mut Z80, bus: &mut B, y: u8) -> (v: u8)
    requires
        4 <= y < 8,
    ensures
        final(bus).calls() == old(bus).calls() + block_transfers(state_of(*old(cpu)), y, 1, v),
        state_of(*final(cpu)) == block_transfer_or_compare(state_of(*old(cpu)), y, 1, v),
        same_control(*old(cpu), *final(cpu)),
{
    let down = y == 5 || y == 7;
    let repeat = y >= 6;
    let hl = cpu.regs.get_hl();
    let bc = wrapping_sub16(cpu.regs.get_bc(), 1);
    let v = bus.read(hl, 3);
    let pv = if bc != 0 {
        FLAG_PV
    } else {
        0
    };
    bus.wait_loop(hl, 5);
    let a = cpu.regs.a;
    let res = ((a as u16 + 512 - v as u16) % 256) as u8;
    let half = a % 16 < v % 16;
    cpu.regs.set_hl(
        if down {
            wrapping_sub16(hl, 1)
        } else {
            wrapping_add16(hl, 1)
        },
    );
    cpu.regs.set_bc(bc);
    // bits 3 and 5 from the result less H: bit 3 and bit 1 of it
    let n = ((res as u16 + 512 - if half {
        1
    } else {
        0
    }) % 256) as u8;
    let xy = (n & FLAG_F3) | (if (n / 2) % 2 == 1 {
        FLAG_F5
    } else {
        0
    });
    let f = (cpu.regs.f & FLAG_CARRY) | (res & FLAG_SIGN) | (if res == 0 {
        FLAG_ZERO
    } else {
        0
    }) | (if half {
        FLAG_HALF
    } else {
        0
    }) | pv | FLAG_SUB | xy;
    cpu.regs.set_flags(f);
    let mp = cpu.regs.mem_ptr;
    cpu.regs.set_mem_ptr(
        if down {
            wrapping_sub16(mp, 1)
        } else {
            wrapping_add16(mp, 1)
        },
    );
    if repeat && bc != 0 && res != 0 {
        bus.wait_loop(hl, 5);
        repeat_block(&mut cpu.regs);
    }
    assert(bus.calls() =~= old(bus).calls() + block_transfers(state_of(*old(cpu)), y, 1, v));
    v
}

} // verus!
