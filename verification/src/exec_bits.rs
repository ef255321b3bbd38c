//! Execution of the `CB`-prefixed instructions: rotations, shifts and bit operations

use vstd::prelude::*;

use crate::alu::{bit_exec, bit_mask, bit_of, even_parity, flag_if, parity_even, pow2_8, sz53, sz53_of, test_bit};
use crate::bus::Z80Bus;
use crate::cpu::{state_of, Z80};
use crate::semantics::{bits_effect, bits_operation};
use crate::transfers::{bits_result, bits_transfers, BusAccess};
use crate::exec::{displace, get_r8, hl_reg, same_control, set_r8};
use crate::opcode::{Opcode, Prefix};
use crate::regs::{add16, split_word, wrapping_sub16, FLAG_CARRY, FLAG_PV};

verus! {

broadcast use crate::transfers::lemma_transfers_associate;

/// Rotation or shift `y` (RLC, RRC, RL, RR, SLA, SRA, SLL, SRL) of `v`, with the carry flag
/// `c` coming in: the result and the carry going out
pub open spec fn shift_result(y: u8, v: u8, c: bool) -> (u8, bool) {
    let x = v as int;
    let top = x >= 128;
    let bottom = x % 2 == 1;
    if y == 0 {
        (((x * 2) % 256 + x / 128) as u8, top)
    } else if y == 1 {
        ((x / 2 + (x % 2) * 128) as u8, bottom)
    } else if y == 2 {
        (((x * 2) % 256 + (if c {
            1int
        } else {
            0int
        })) as u8, top)
    } else if y == 3 {
        ((x / 2 + (if c {
            128int
        } else {
            0int
        })) as u8, bottom)
    } else if y == 4 {
        (((x * 2) % 256) as u8, top)
    } else if y == 5 {
        ((x / 2 + (x / 128) * 128) as u8, bottom)
    } else if y == 6 {
        (((x * 2) % 256 + 1) as u8, top)
    } else {
        ((x / 2) as u8, bottom)
    }
}

/// Flags after a rotation or shift with result `r` and carry out `c`: S, Z, bits 3 and 5 and the
/// parity from the result, H and N reset
pub open spec fn shift_flags(r: u8, c: bool) -> u8 {
    sz53(r) | flag_if(even_parity(r), FLAG_PV) | flag_if(c, FLAG_CARRY)
}

/// Rotation or shift `y` of `v`: the result and the flags
pub fn shift_exec(y: u8, v: u8, f: u8) -> (r: (u8, u8))
    ensures
        r.0 == shift_result(y, v, f & FLAG_CARRY != 0).0,
        r.1 == shift_flags(r.0, shift_result(y, v, f & FLAG_CARRY != 0).1),
{
    let c = f & FLAG_CARRY != 0;
    let x = v as u16;
    let top = v >= 128;
    let bottom = v % 2 == 1;
    let (res, carry): (u8, bool) = match y {
        0 => (((x * 2) % 256 + x / 128) as u8, top),
        1 => ((x / 2 + (x % 2) * 128) as u8, bottom),
        2 => (((x * 2) % 256 + if c {
            1
        } else {
            0
        }) as u8, top),
        3 => ((x / 2 + if c {
            128
        } else {
            0
        }) as u8, bottom),
        4 => (((x * 2) % 256) as u8, top),
        5 => ((x / 2 + (x / 128) * 128) as u8, bottom),
        6 => (((x * 2) % 256 + 1) as u8, top),
        _ => ((x / 2) as u8, bottom),
    };
    let flags = sz53_of(res) | (if parity_even(res) {
        FLAG_PV
    } else {
        0
    }) | (if carry {
        FLAG_CARRY
    } else {
        0
    });
    (res, flags)
}

/// `v` with bit `b` reset
pub open spec fn reset_bit(v: u8, b: u8) -> u8 {
    if bit_of(v, b) {
        (v - pow2_8(b)) as u8
    } else {
        v
    }
}

/// `v` with bit `b` set
pub open spec fn set_bit(v: u8, b: u8) -> u8 {
    if bit_of(v, b) {
        v
    } else {
        (v + pow2_8(b)) as u8
    }
}

/// `RES b` or `SET b` of `v`
pub fn change_bit(v: u8, b: u8, set: bool) -> (r: u8)
    requires
        b < 8,
    ensures
        r == if set {
            set_bit(v, b)
        } else {
            reset_bit(v, b)
        },
{
    let m = bit_mask(b);
    let is_set = test_bit(v, b);
    proof {
        // a set bit is at least its own value
        if is_set {
            assert(v as int >= pow2_8(b)) by (nonlinear_arith)
                requires
                    (v as int / pow2_8(b)) % 2 == 1,
                    pow2_8(b) > 0,
            ;
        } else {
            assert(v as int + pow2_8(b) <= 255) by (nonlinear_arith)
                requires
                    (v as int / pow2_8(b)) % 2 == 0,
                    pow2_8(b) == 1 || pow2_8(b) == 2 || pow2_8(b) == 4 || pow2_8(b) == 8
                        || pow2_8(b) == 16 || pow2_8(b) == 32 || pow2_8(b) == 64 || pow2_8(b)
                        == 128,
                    v <= 255,
            ;
        }
    }
    if set {
        if is_set {
            v
        } else {
            v + m
        }
    } else {
        if is_set {
            v - m
        } else {
            v
        }
    }
}

/// Runs a `CB`-prefixed instruction; after `DD` or `FD`, its operand is `(IX+d)` or `(IY+d)`.
/// Q has been moved to `last_q`. Returns the bytes read after the `CB`.
#[verifier::rlimit(30)]
pub(crate) fn execute_bits<B: Z80Bus>(cpu: &mut Z80, bus: &mut B, prefix: Prefix) -> (rs: Ghost<
    Seq<u8>,
>)
    ensures
        final(bus).calls() == old(bus).calls() + bits_transfers(state_of(*old(cpu)), prefix, rs@),
        state_of(*final(cpu)) == bits_effect(state_of(*old(cpu)), prefix, rs@),
        same_control(*old(cpu), *final(cpu)),
{
    if prefix == Prefix::DD || prefix == Prefix::FD {
        execute_bits_indexed(cpu, bus, prefix)
    } else {
        execute_bits_plain(cpu, bus, prefix)
    }
}

/// `DD CB d op` and `FD CB d op`: the operand is `(IX+d)` or `(IY+d)`
#[verifier::rlimit(60)]
fn execute_bits_indexed<B: Z80Bus>(cpu: &mut Z80, bus: &mut B, prefix: Prefix) -> (rs: Ghost<
    Seq<u8>,
>)
    requires
        prefix == Prefix::DD || prefix == Prefix::FD,
    ensures
        final(bus).calls() == old(bus).calls() + bits_transfers(state_of(*old(cpu)), prefix, rs@),
        state_of(*final(cpu)) == bits_effect(state_of(*old(cpu)), prefix, rs@),
        same_control(*old(cpu), *final(cpu)),
{
    reveal(bits_transfers);
    reveal(bits_effect);
    let ghost s0 = state_of(*cpu);
    let d = cpu.fetch_byte(bus, 3);
    let op_byte = cpu.fetch_byte(bus, 3);
    bus.wait_loop(wrapping_sub16(cpu.regs.pc, 1), 2);
    let base = cpu.regs.get_reg_16(hl_reg(prefix));
    let addr = displace(base, d);
    cpu.regs.set_mem_ptr(addr);
    let opcode = Opcode::from_byte(op_byte);
    let v = bus.read(addr, 3);
    let rs = Ghost(Seq::empty().push(d).push(op_byte).push(v));
    let ghost fetched = seq![
        BusAccess::Read(s0.regs.pc, d, 3),
        BusAccess::Read(add16(s0.regs.pc, 1), op_byte, 3),
        BusAccess::Wait(add16(s0.regs.pc, 1), 2),
        BusAccess::Read(addr, v, 3),
    ];
    assert(bus.calls() =~= old(bus).calls() + fetched);
    assert(bits_effect(s0, prefix, rs@) == bits_operation(state_of(*cpu), opcode.byte, v, true));
    bits_operate(cpu, bus, opcode, addr, v, true);
    assert(bus.calls() =~= old(bus).calls() + fetched + seq![BusAccess::Wait(addr, 1)] + (if opcode.x != 1 {
        seq![BusAccess::Write(addr, bits_result(op_byte, v, s0.regs.f & FLAG_CARRY != 0), 3)]
    } else {
        seq![]
    }));
    assert(bus.calls() =~= old(bus).calls() + bits_transfers(s0, prefix, rs@));
    rs
}

/// `CB op`: the operand is a register or `(HL)`
#[verifier::rlimit(60)]
fn execute_bits_plain<B: Z80Bus>(cpu: &mut Z80, bus: &mut B, prefix: Prefix) -> (rs: Ghost<
    Seq<u8>,
>)
    requires
        !(prefix == Prefix::DD || prefix == Prefix::FD),
    ensures
        final(bus).calls() == old(bus).calls() + bits_transfers(state_of(*old(cpu)), prefix, rs@),
        state_of(*final(cpu)) == bits_effect(state_of(*old(cpu)), prefix, rs@),
        same_control(*old(cpu), *final(cpu)),
{
    reveal(bits_transfers);
    reveal(bits_effect);
    let ghost s0 = state_of(*cpu);
    let op_byte = cpu.fetch_byte(bus, 4);
    cpu.regs.inc_r();
    let addr = cpu.regs.get_hl();
    let opcode = Opcode::from_byte(op_byte);
    let z = opcode.z;
    let from_memory = z == 6;
    let (v, rs) = if from_memory {
        let v = bus.read(addr, 3);
        (v, Ghost(Seq::empty().push(op_byte).push(v)))
    } else {
        (get_r8(&cpu.regs, z, Prefix::NoPrefix), Ghost(Seq::empty().push(op_byte)))
    };
    assert(bits_effect(s0, prefix, rs@) == bits_operation(state_of(*cpu), opcode.byte, v, from_memory));
    let ghost log1 = bus.calls();
    assert(log1 =~= old(bus).calls() + seq![BusAccess::Read(s0.regs.pc, op_byte, 4)] + (if from_memory {
        seq![BusAccess::Read(addr, v, 3)]
    } else {
        seq![]
    }));
    bits_operate(cpu, bus, opcode, addr, v, from_memory);
    assert(bus.calls() =~= old(bus).calls() + bits_transfers(s0, prefix, rs@));
    rs
}

/// The operation of a `CB`-prefixed opcode on its operand value `v`; a memory operand is at
/// `addr`
#[verifier::rlimit(40)]
fn bits_operate<B: Z80Bus>(cpu: &mut Z80, bus: &mut B, opcode: Opcode, addr: u16, v: u8, from_memory: bool)
    requires
        opcode.fields_of(opcode.byte),
        opcode.x < 4,
        opcode.y < 8,
        opcode.z < 8,
        opcode.z == 6 ==> from_memory,
    ensures
        final(bus).calls() == old(bus).calls() + (if from_memory {
            seq![BusAccess::Wait(addr, 1)]
        } else {
            seq![]
        }) + (if from_memory && opcode.x != 1 {
            seq![BusAccess::Write(addr, bits_result(opcode.byte, v, old(cpu).regs.f & FLAG_CARRY != 0), 3)]
        } else {
            seq![]
        }),
        state_of(*final(cpu)) == bits_operation(state_of(*old(cpu)), opcode.byte, v, from_memory),
        same_control(*old(cpu), *final(cpu)),
{
    let y = opcode.y;
    let z = opcode.z;
    match opcode.x {
        1 => {
            // BIT y: bits 3 and 5 come from the operand for a register, else from MEMPTR
            let xy = if from_memory {
                bus.wait_loop(addr, 1);
                split_word(cpu.regs.mem_ptr).0
            } else {
                v
            };
            let f = bit_exec(y, v, cpu.regs.f, xy);
            cpu.regs.set_flags(f);
        },
        _ => {
            let res = if opcode.x == 0 {
                let (res, f) = shift_exec(y, v, cpu.regs.f);
                cpu.regs.set_flags(f);
                res
            } else {
                change_bit(v, y, opcode.x == 3)
            };
            if from_memory {
                bus.wait_loop(addr, 1);
                bus.write(addr, res, 3);
            }
            // the indexed forms also copy the result to a register, unless it is (HL)
            if z != 6 {
                set_r8(&mut cpu.regs, z, Prefix::NoPrefix, res);
            }
        },
    }
}

} // verus!
