//! Instructions do not look at the level last seen on the NMI input
//!
//! The processor keeps that level only to find the input's rising edges at the next interrupt
//! check. Two states that differ in it alone run any instruction alike: the same bytes from the
//! bus give the same transfers, and states that still differ in that level alone.

use vstd::prelude::*;

use crate::cpu::Z80State;
use crate::opcode::{prefix_byte, prefix_of, Prefix};
use crate::semantics::{
    bits_effect, block_io, block_transfer_or_compare, decoded_effect, ed_io_arith,
    ed_misc, effect_alu, effect_ld, effect_x0, effect_x3, extended_effect, instruction_effect,
    instruction_start, m1_fetched, normal_effect, opcode_fetched, x0_z0, x0_z1, x0_z2, x0_z3,
    x0_z45, x0_z6, x3_jumps, x3_z01, x3_z3,
};
use crate::transfers::{
    alu_transfers, bits_transfers, block_transfers, decoded_transfers, ed_io_transfers,
    ed_misc_transfers, extended_transfers, instruction_transfers, ld_transfers, normal_transfers,
    x0_transfers, x0_z0_transfers, x0_z1_transfers, x0_z2_transfers, x0_z45_transfers,
    x0_z6_transfers, x3_jumps_transfers, x3_transfers, x3_z01_transfers, x3_z3_transfers,
};

verus! {

/// `s` with the level last seen on the NMI input set to `x`
pub open spec fn with_nmi_line(s: Z80State, x: bool) -> Z80State {
    Z80State { nmi_line: x, ..s }
}

proof fn lemma_x0_z0(s: Z80State, y: u8, rs: Seq<u8>, x: bool)
    ensures
        x0_z0(with_nmi_line(s, x), y, rs) == with_nmi_line(x0_z0(s, y, rs), x),
{
}

proof fn lemma_x0_z1(s: Z80State, y: u8, prefix: Prefix, rs: Seq<u8>, x: bool)
    ensures
        x0_z1(with_nmi_line(s, x), y, prefix, rs) == with_nmi_line(x0_z1(s, y, prefix, rs), x),
{
}

proof fn lemma_x0_z2(s: Z80State, y: u8, prefix: Prefix, rs: Seq<u8>, x: bool)
    ensures
        x0_z2(with_nmi_line(s, x), y, prefix, rs) == with_nmi_line(x0_z2(s, y, prefix, rs), x),
{
}

proof fn lemma_x0_z3(s: Z80State, y: u8, prefix: Prefix, x: bool)
    ensures
        x0_z3(with_nmi_line(s, x), y, prefix) == with_nmi_line(x0_z3(s, y, prefix), x),
{
}

proof fn lemma_x0_z45(s: Z80State, y: u8, z: u8, prefix: Prefix, rs: Seq<u8>, x: bool)
    ensures
        x0_z45(with_nmi_line(s, x), y, z, prefix, rs) == with_nmi_line(x0_z45(s, y, z, prefix, rs), x),
{
}

proof fn lemma_x0_z6(s: Z80State, y: u8, prefix: Prefix, rs: Seq<u8>, x: bool)
    ensures
        x0_z6(with_nmi_line(s, x), y, prefix, rs) == with_nmi_line(x0_z6(s, y, prefix, rs), x),
{
}

proof fn lemma_effect_ld(s: Z80State, y: u8, z: u8, prefix: Prefix, rs: Seq<u8>, x: bool)
    ensures
        effect_ld(with_nmi_line(s, x), y, z, prefix, rs) == with_nmi_line(effect_ld(s, y, z, prefix, rs), x),
{
}

proof fn lemma_effect_alu(s: Z80State, y: u8, z: u8, prefix: Prefix, rs: Seq<u8>, x: bool)
    ensures
        effect_alu(with_nmi_line(s, x), y, z, prefix, rs) == with_nmi_line(effect_alu(s, y, z, prefix, rs), x),
{
}

proof fn lemma_x3_z01(s: Z80State, y: u8, z: u8, prefix: Prefix, rs: Seq<u8>, x: bool)
    ensures
        x3_z01(with_nmi_line(s, x), y, z, prefix, rs) == with_nmi_line(x3_z01(s, y, z, prefix, rs), x),
{
}

proof fn lemma_x3_z3(s: Z80State, y: u8, prefix: Prefix, rs: Seq<u8>, x: bool)
    ensures
        x3_z3(with_nmi_line(s, x), y, prefix, rs) == with_nmi_line(x3_z3(s, y, prefix, rs), x),
{
}

proof fn lemma_x3_jumps(s: Z80State, y: u8, z: u8, prefix: Prefix, rs: Seq<u8>, x: bool)
    ensures
        x3_jumps(with_nmi_line(s, x), y, z, prefix, rs) == with_nmi_line(x3_jumps(s, y, z, prefix, rs), x),
{
}

proof fn lemma_block_io(s: Z80State, y: u8, z: u8, v: u8, x: bool)
    ensures
        block_io(with_nmi_line(s, x), y, z, v) == with_nmi_line(block_io(s, y, z, v), x),
{
}

proof fn lemma_block_transfer_or_compare(s: Z80State, y: u8, z: u8, v: u8, x: bool)
    ensures
        block_transfer_or_compare(with_nmi_line(s, x), y, z, v) == with_nmi_line(block_transfer_or_compare(s, y, z, v), x),
{
}

proof fn lemma_ed_io_arith(s: Z80State, y: u8, z: u8, rs: Seq<u8>, x: bool)
    ensures
        ed_io_arith(with_nmi_line(s, x), y, z, rs) == with_nmi_line(ed_io_arith(s, y, z, rs), x),
{
}

proof fn lemma_ed_misc(s: Z80State, y: u8, z: u8, rs: Seq<u8>, x: bool)
    ensures
        ed_misc(with_nmi_line(s, x), y, z, rs) == with_nmi_line(ed_misc(s, y, z, rs), x),
{
}

proof fn lemma_x0_z0_transfers(s: Z80State, y: u8, rs: Seq<u8>, x: bool)
    ensures
        x0_z0_transfers(with_nmi_line(s, x), y, rs) == x0_z0_transfers(s, y, rs),
{
}

proof fn lemma_x0_z1_transfers(s: Z80State, y: u8, rs: Seq<u8>, x: bool)
    ensures
        x0_z1_transfers(with_nmi_line(s, x), y, rs) == x0_z1_transfers(s, y, rs),
{
}

proof fn lemma_x0_z2_transfers(s: Z80State, y: u8, prefix: Prefix, rs: Seq<u8>, x: bool)
    ensures
        x0_z2_transfers(with_nmi_line(s, x), y, prefix, rs) == x0_z2_transfers(s, y, prefix, rs),
{
}

proof fn lemma_x0_z45_transfers(s: Z80State, y: u8, z: u8, prefix: Prefix, rs: Seq<u8>, x: bool)
    ensures
        x0_z45_transfers(with_nmi_line(s, x), y, z, prefix, rs) == x0_z45_transfers(s, y, z, prefix, rs),
{
}

proof fn lemma_x0_z6_transfers(s: Z80State, y: u8, prefix: Prefix, rs: Seq<u8>, x: bool)
    ensures
        x0_z6_transfers(with_nmi_line(s, x), y, prefix, rs) == x0_z6_transfers(s, y, prefix, rs),
{
}

proof fn lemma_ld_transfers(s: Z80State, y: u8, z: u8, prefix: Prefix, rs: Seq<u8>, x: bool)
    ensures
        ld_transfers(with_nmi_line(s, x), y, z, prefix, rs) == ld_transfers(s, y, z, prefix, rs),
{
}

proof fn lemma_alu_transfers(s: Z80State, z: u8, prefix: Prefix, rs: Seq<u8>, x: bool)
    ensures
        alu_transfers(with_nmi_line(s, x), z, prefix, rs) == alu_transfers(s, z, prefix, rs),
{
}

proof fn lemma_x3_z01_transfers(s: Z80State, y: u8, z: u8, rs: Seq<u8>, x: bool)
    ensures
        x3_z01_transfers(with_nmi_line(s, x), y, z, rs) == x3_z01_transfers(s, y, z, rs),
{
}

proof fn lemma_x3_z3_transfers(s: Z80State, y: u8, prefix: Prefix, rs: Seq<u8>, x: bool)
    ensures
        x3_z3_transfers(with_nmi_line(s, x), y, prefix, rs) == x3_z3_transfers(s, y, prefix, rs),
{
}

proof fn lemma_x3_jumps_transfers(s: Z80State, y: u8, z: u8, prefix: Prefix, rs: Seq<u8>, x: bool)
    ensures
        x3_jumps_transfers(with_nmi_line(s, x), y, z, prefix, rs) == x3_jumps_transfers(s, y, z, prefix, rs),
{
}

proof fn lemma_ed_io_transfers(s: Z80State, y: u8, z: u8, rs: Seq<u8>, x: bool)
    ensures
        ed_io_transfers(with_nmi_line(s, x), y, z, rs) == ed_io_transfers(s, y, z, rs),
{
}

proof fn lemma_ed_misc_transfers(s: Z80State, y: u8, z: u8, rs: Seq<u8>, x: bool)
    ensures
        ed_misc_transfers(with_nmi_line(s, x), y, z, rs) == ed_misc_transfers(s, y, z, rs),
{
}

proof fn lemma_block_transfers(s: Z80State, y: u8, z: u8, v: u8, x: bool)
    ensures
        block_transfers(with_nmi_line(s, x), y, z, v) == block_transfers(s, y, z, v),
{
}

proof fn lemma_x0(s: Z80State, y: u8, z: u8, prefix: Prefix, rs: Seq<u8>, x: bool)
    ensures
        effect_x0(with_nmi_line(s, x), y, z, prefix, rs) == with_nmi_line(effect_x0(s, y, z, prefix, rs), x),
        x0_transfers(with_nmi_line(s, x), y, z, prefix, rs) == x0_transfers(s, y, z, prefix, rs),
{
    lemma_x0_z0(s, y, rs, x);
    lemma_x0_z1(s, y, prefix, rs, x);
    lemma_x0_z2(s, y, prefix, rs, x);
    lemma_x0_z3(s, y, prefix, x);
    lemma_x0_z45(s, y, z, prefix, rs, x);
    lemma_x0_z6(s, y, prefix, rs, x);
    lemma_x0_z0_transfers(s, y, rs, x);
    lemma_x0_z1_transfers(s, y, rs, x);
    lemma_x0_z2_transfers(s, y, prefix, rs, x);
    lemma_x0_z45_transfers(s, y, z, prefix, rs, x);
    lemma_x0_z6_transfers(s, y, prefix, rs, x);
}

proof fn lemma_x3(s: Z80State, y: u8, z: u8, prefix: Prefix, rs: Seq<u8>, x: bool)
    ensures
        effect_x3(with_nmi_line(s, x), y, z, prefix, rs) == with_nmi_line(effect_x3(s, y, z, prefix, rs), x),
        x3_transfers(with_nmi_line(s, x), y, z, prefix, rs) == x3_transfers(s, y, z, prefix, rs),
{
    lemma_x3_z01(s, y, z, prefix, rs, x);
    lemma_x3_z3(s, y, prefix, rs, x);
    lemma_x3_jumps(s, y, z, prefix, rs, x);
    lemma_x3_z01_transfers(s, y, z, rs, x);
    lemma_x3_z3_transfers(s, y, prefix, rs, x);
    lemma_x3_jumps_transfers(s, y, z, prefix, rs, x);
}

proof fn lemma_normal(s: Z80State, op: u8, prefix: Prefix, rs: Seq<u8>, x: bool)
    ensures
        normal_effect(with_nmi_line(s, x), op, prefix, rs) == with_nmi_line(normal_effect(s, op, prefix, rs), x),
        normal_transfers(with_nmi_line(s, x), op, prefix, rs) == normal_transfers(s, op, prefix, rs),
{
    reveal(normal_effect);
    reveal(normal_transfers);
    let y = (op / 8) % 8;
    let z = op % 8;
    lemma_x0(s, y, z, prefix, rs, x);
    lemma_x3(s, y, z, prefix, rs, x);
    lemma_effect_ld(s, y, z, prefix, rs, x);
    lemma_effect_alu(s, y, z, prefix, rs, x);
    lemma_ld_transfers(s, y, z, prefix, rs, x);
    lemma_alu_transfers(s, z, prefix, rs, x);
}

proof fn lemma_bits(s: Z80State, prefix: Prefix, rs: Seq<u8>, x: bool)
    ensures
        bits_effect(with_nmi_line(s, x), prefix, rs) == with_nmi_line(bits_effect(s, prefix, rs), x),
        bits_transfers(with_nmi_line(s, x), prefix, rs) == bits_transfers(s, prefix, rs),
{
    reveal(bits_effect);
    reveal(bits_transfers);
}

proof fn lemma_extended(s: Z80State, op: u8, rs: Seq<u8>, x: bool)
    ensures
        extended_effect(with_nmi_line(s, x), op, rs) == with_nmi_line(extended_effect(s, op, rs), x),
        extended_transfers(with_nmi_line(s, x), op, rs) == extended_transfers(s, op, rs),
{
    reveal(extended_effect);
    reveal(extended_transfers);
    let y = (op / 8) % 8;
    let z = op % 8;
    lemma_ed_io_arith(s, y, z, rs, x);
    lemma_ed_misc(s, y, z, rs, x);
    lemma_ed_io_transfers(s, y, z, rs, x);
    lemma_ed_misc_transfers(s, y, z, rs, x);
    lemma_block_io(s, y, z, rs[0], x);
    lemma_block_transfer_or_compare(s, y, z, rs[0], x);
    lemma_block_transfers(s, y, z, rs[0], x);
}

proof fn lemma_decoded(s: Z80State, byte1: u8, rs: Seq<u8>, x: bool)
    ensures
        decoded_effect(with_nmi_line(s, x), byte1, rs) == with_nmi_line(decoded_effect(s, byte1, rs), x),
        decoded_transfers(with_nmi_line(s, x), byte1, rs) == decoded_transfers(s, byte1, rs),
{
    let t = with_nmi_line(s, x);
    assert(opcode_fetched(t) == with_nmi_line(opcode_fetched(s), x));
    assert(m1_fetched(t) == with_nmi_line(m1_fetched(s), x));
    assert(opcode_fetched(m1_fetched(t)) == with_nmi_line(opcode_fetched(m1_fetched(s)), x));
    lemma_normal(opcode_fetched(s), byte1, Prefix::NoPrefix, rs, x);
    lemma_normal(opcode_fetched(m1_fetched(s)), rs[0], prefix_of(byte1), rs.skip(1), x);
    lemma_bits(opcode_fetched(m1_fetched(s)), prefix_of(byte1), rs.skip(1), x);
    lemma_bits(opcode_fetched(s), Prefix::NoPrefix, rs, x);
    lemma_extended(opcode_fetched(m1_fetched(s)), rs[0], rs.skip(1), x);
}

/// An instruction does not look at the level last seen on the NMI input: from two states that
/// differ only in it, the same bytes from the bus give the same transfers, and states that
/// still differ only in it.
pub proof fn law_instruction_ignores_nmi_line(s: Z80State, rs: Seq<u8>, x: bool)
    ensures
        instruction_effect(with_nmi_line(s, x), rs) == with_nmi_line(instruction_effect(s, rs), x),
        instruction_transfers(with_nmi_line(s, x), rs) == instruction_transfers(s, rs),
{
    let t = with_nmi_line(s, x);
    assert(instruction_start(t) == with_nmi_line(instruction_start(s), x));
    assert(m1_fetched(instruction_start(t)) == with_nmi_line(m1_fetched(instruction_start(s)), x));
    lemma_decoded(m1_fetched(instruction_start(s)), rs[0], rs.skip(1), x);
    let b1 = match prefix_byte(s.prefix) {
        Some(b) => b,
        None => 0u8,
    };
    lemma_decoded(instruction_start(s), b1, rs, x);
}

} // verus!
