//! The program counter is reported once per step, at its end
//!
//! No instruction and no interrupt response reports the program counter on its own; `step` and
//! `emulate` report it once, as their last call to the bus.

use vstd::prelude::*;

use crate::cpu::Z80State;
use crate::opcode::{prefix_byte, Prefix};
use crate::regs::Regs;
use crate::semantics::{instruction_effect, instruction_start, m1_fetched, opcode_fetched};
use crate::transfers::{
    alu_transfers, bits_transfers, block_transfers, call_transfers, decoded_transfers,
    ed_io_transfers, ed_misc_transfers, extended_transfers, instruction_transfers, ld_transfers,
    normal_transfers, operand_reads, pop_reads, push_writes, relative_transfers, word_fetch,
    x0_transfers, x0_z0_transfers, x0_z1_transfers, x0_z2_transfers, x0_z45_transfers,
    x0_z6_transfers, x3_jumps_transfers, x3_transfers, x3_z01_transfers, x3_z3_transfers,
    BusAccess,
};

verus! {

/// `log` holds no report of the program counter
pub open spec fn no_pc(log: Seq<BusAccess>) -> bool {
    forall|i: int| 0 <= i < log.len() ==> !(#[trigger] log[i] is Pc)
}

/// Two records without a report make one without
pub broadcast proof fn lemma_no_pc_append(a: Seq<BusAccess>, b: Seq<BusAccess>)
    requires
        no_pc(a),
        no_pc(b),
    ensures
        #[trigger] no_pc(a + b),
{
    assert forall|i: int| 0 <= i < (a + b).len() implies !((a + b)[i] is Pc) by {
        if i < a.len() {
            assert((a + b)[i] == a[i]);
        } else {
            assert((a + b)[i] == b[i - a.len()]);
        }
    }
}

proof fn lemma_helpers(r: Regs, prefix: Prefix, sp: u16, v: u16, rs: Seq<u8>, clk: usize, pc: u16, d: u8, taken: bool)
    ensures
        no_pc(push_writes(sp, v, clk)),
        no_pc(pop_reads(sp, rs, clk)),
        no_pc(word_fetch(pc, rs)),
        no_pc(operand_reads(r, prefix, rs)),
        no_pc(relative_transfers(pc, d, taken)),
        no_pc(call_transfers(r, v)),
{
    broadcast use lemma_no_pc_append;
    assert(no_pc(push_writes(sp, v, clk)));
    assert(no_pc(pop_reads(sp, rs, clk)));
    assert(no_pc(word_fetch(pc, rs)));
    assert(no_pc(seq![BusAccess::Wait(pc, 5)]));
    assert(no_pc(seq![BusAccess::Read(pc, d, 3)]));
    assert(no_pc(seq![BusAccess::Wait(pc, 5)]));
}

proof fn lemma_x0_z0_transfers(s: Z80State, y: u8, rs: Seq<u8>)
    ensures
        no_pc(x0_z0_transfers(s, y, rs)),
{
    broadcast use lemma_no_pc_append;
    lemma_helpers(s.regs, Prefix::NoPrefix, 0, 0, seq![], 0, 0, 0, false);
}

proof fn lemma_x0_z1_transfers(s: Z80State, y: u8, rs: Seq<u8>)
    ensures
        no_pc(x0_z1_transfers(s, y, rs)),
{
    broadcast use lemma_no_pc_append;
    lemma_helpers(s.regs, Prefix::NoPrefix, 0, 0, seq![], 0, 0, 0, false);
}

proof fn lemma_x0_z2_transfers(s: Z80State, y: u8, prefix: Prefix, rs: Seq<u8>)
    ensures
        no_pc(x0_z2_transfers(s, y, prefix, rs)),
{
    broadcast use lemma_no_pc_append;
    lemma_helpers(s.regs, Prefix::NoPrefix, 0, 0, seq![], 0, 0, 0, false);
}

proof fn lemma_x0_z45_transfers(s: Z80State, y: u8, z: u8, prefix: Prefix, rs: Seq<u8>)
    ensures
        no_pc(x0_z45_transfers(s, y, z, prefix, rs)),
{
    broadcast use lemma_no_pc_append;
    lemma_helpers(s.regs, Prefix::NoPrefix, 0, 0, seq![], 0, 0, 0, false);
}

proof fn lemma_x0_z6_transfers(s: Z80State, y: u8, prefix: Prefix, rs: Seq<u8>)
    ensures
        no_pc(x0_z6_transfers(s, y, prefix, rs)),
{
    broadcast use lemma_no_pc_append;
    lemma_helpers(s.regs, Prefix::NoPrefix, 0, 0, seq![], 0, 0, 0, false);
}

proof fn lemma_ld_transfers(s: Z80State, y: u8, z: u8, prefix: Prefix, rs: Seq<u8>)
    ensures
        no_pc(ld_transfers(s, y, z, prefix, rs)),
{
    broadcast use lemma_no_pc_append;
    lemma_helpers(s.regs, Prefix::NoPrefix, 0, 0, seq![], 0, 0, 0, false);
}

proof fn lemma_alu_transfers(s: Z80State, z: u8, prefix: Prefix, rs: Seq<u8>)
    ensures
        no_pc(alu_transfers(s, z, prefix, rs)),
{
    broadcast use lemma_no_pc_append;
    lemma_helpers(s.regs, Prefix::NoPrefix, 0, 0, seq![], 0, 0, 0, false);
}

proof fn lemma_x3_z01_transfers(s: Z80State, y: u8, z: u8, rs: Seq<u8>)
    ensures
        no_pc(x3_z01_transfers(s, y, z, rs)),
{
    broadcast use lemma_no_pc_append;
    lemma_helpers(s.regs, Prefix::NoPrefix, 0, 0, seq![], 0, 0, 0, false);
}

proof fn lemma_x3_z3_transfers(s: Z80State, y: u8, prefix: Prefix, rs: Seq<u8>)
    ensures
        no_pc(x3_z3_transfers(s, y, prefix, rs)),
{
    broadcast use lemma_no_pc_append;
    lemma_helpers(s.regs, Prefix::NoPrefix, 0, 0, seq![], 0, 0, 0, false);
}

proof fn lemma_x3_jumps_transfers(s: Z80State, y: u8, z: u8, prefix: Prefix, rs: Seq<u8>)
    ensures
        no_pc(x3_jumps_transfers(s, y, z, prefix, rs)),
{
    broadcast use lemma_no_pc_append;
    lemma_helpers(s.regs, Prefix::NoPrefix, 0, 0, seq![], 0, 0, 0, false);
}

proof fn lemma_ed_io_transfers(s: Z80State, y: u8, z: u8, rs: Seq<u8>)
    ensures
        no_pc(ed_io_transfers(s, y, z, rs)),
{
    broadcast use lemma_no_pc_append;
    lemma_helpers(s.regs, Prefix::NoPrefix, 0, 0, seq![], 0, 0, 0, false);
}

proof fn lemma_ed_misc_transfers(s: Z80State, y: u8, z: u8, rs: Seq<u8>)
    ensures
        no_pc(ed_misc_transfers(s, y, z, rs)),
{
    broadcast use lemma_no_pc_append;
    lemma_helpers(s.regs, Prefix::NoPrefix, 0, 0, seq![], 0, 0, 0, false);
}

proof fn lemma_block_transfers(s: Z80State, y: u8, z: u8, v: u8)
    ensures
        no_pc(block_transfers(s, y, z, v)),
{
    broadcast use lemma_no_pc_append;
    lemma_helpers(s.regs, Prefix::NoPrefix, 0, 0, seq![], 0, 0, 0, false);
}

proof fn lemma_normal(s: Z80State, op: u8, prefix: Prefix, rs: Seq<u8>)
    ensures
        no_pc(normal_transfers(s, op, prefix, rs)),
{
    reveal(normal_transfers);
    let y = (op / 8) % 8;
    let z = op % 8;
    lemma_x0_z0_transfers(s, y, rs);
    lemma_x0_z1_transfers(s, y, rs);
    lemma_x0_z2_transfers(s, y, prefix, rs);
    lemma_x0_z45_transfers(s, y, z, prefix, rs);
    lemma_x0_z6_transfers(s, y, prefix, rs);
    lemma_ld_transfers(s, y, z, prefix, rs);
    lemma_alu_transfers(s, z, prefix, rs);
    lemma_x3_z01_transfers(s, y, z, rs);
    lemma_x3_z3_transfers(s, y, prefix, rs);
    lemma_x3_jumps_transfers(s, y, z, prefix, rs);
    assert(no_pc(x0_transfers(s, y, z, prefix, rs)));
    assert(no_pc(x3_transfers(s, y, z, prefix, rs)));
}

proof fn lemma_bits(s: Z80State, prefix: Prefix, rs: Seq<u8>)
    ensures
        no_pc(bits_transfers(s, prefix, rs)),
{
    reveal(bits_transfers);
    broadcast use lemma_no_pc_append;
}

proof fn lemma_extended(s: Z80State, op: u8, rs: Seq<u8>)
    ensures
        no_pc(extended_transfers(s, op, rs)),
{
    reveal(extended_transfers);
    let y = (op / 8) % 8;
    let z = op % 8;
    lemma_ed_io_transfers(s, y, z, rs);
    lemma_ed_misc_transfers(s, y, z, rs);
    lemma_block_transfers(s, y, z, rs[0]);
}

proof fn lemma_decoded(s: Z80State, byte1: u8, rs: Seq<u8>)
    ensures
        no_pc(decoded_transfers(s, byte1, rs)),
{
    broadcast use lemma_no_pc_append;
    lemma_normal(opcode_fetched(s), byte1, Prefix::NoPrefix, rs);
    lemma_normal(opcode_fetched(m1_fetched(s)), rs[0], crate::opcode::prefix_of(byte1), rs.skip(1));
    lemma_bits(opcode_fetched(m1_fetched(s)), crate::opcode::prefix_of(byte1), rs.skip(1));
    lemma_bits(opcode_fetched(s), Prefix::NoPrefix, rs);
    lemma_extended(opcode_fetched(m1_fetched(s)), rs[0], rs.skip(1));
    assert(no_pc(seq![BusAccess::Read(s.regs.pc, rs[0], 4)]));
}

/// One instruction reports the program counter once, as its last call to the bus
pub proof fn lemma_instruction_reports_once(s: Z80State, rs: Seq<u8>)
    ensures
        ({
            let log = instruction_transfers(s, rs);
            &&& log.len() > 0
            &&& log.last() == BusAccess::Pc(instruction_effect(s, rs).regs.pc)
            &&& no_pc(log.drop_last())
        }),
{
    broadcast use lemma_no_pc_append;
    let s0 = instruction_start(s);
    lemma_decoded(m1_fetched(s0), rs[0], rs.skip(1));
    let b1 = match prefix_byte(s.prefix) {
        Some(b) => b,
        None => 0u8,
    };
    lemma_decoded(s0, b1, rs);
    assert(no_pc(seq![BusAccess::Read(s.regs.pc, rs[0], 4)]));
    let body = if s.prefix == Prefix::NoPrefix {
        seq![BusAccess::Read(s.regs.pc, rs[0], 4)] + decoded_transfers(m1_fetched(s0), rs[0], rs.skip(1))
    } else {
        decoded_transfers(s0, b1, rs)
    };
    let log = instruction_transfers(s, rs);
    assert(log.drop_last() =~= body);
}

/// An interrupt check reports nothing
pub proof fn lemma_check_reports_nothing(s: Z80State, nmi_line: bool, int_line: bool, vector: u8, table_word: u16)
    ensures
        no_pc(s.check_transfers(nmi_line, int_line, vector, table_word)),
{
    broadcast use lemma_no_pc_append;
    let t = s.sampled(nmi_line);
    let u = t.unhalted();
    lemma_helpers(u.regs, Prefix::NoPrefix, u.regs.sp, u.regs.pc, seq![], 3, 0, 0, false);
    assert(no_pc(t.release_transfers()));
    assert(no_pc(t.vector_transfers(vector, table_word)));
    assert(no_pc(seq![BusAccess::Wait(u.regs.pc, 5)]));
}

} // verus!
