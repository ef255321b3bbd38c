//! What single instructions do, stated over their opcodes and operands
//!
//! Each law runs one instruction from any state with no prefix pending, and says what it leaves
//! in terms of the state before it and the bytes of the instruction, as the Z80's documentation
//! gives it.

use vstd::prelude::*;

use crate::cpu::{IntMode, Z80State};
use crate::opcode::Prefix;
use crate::regs::{
    add16, hi_byte, lo_byte, next_r, word, RegName16, Regs, FLAG_CARRY, FLAG_HALF, FLAG_PV, FLAG_SIGN, FLAG_SUB,
    FLAG_ZERO,
};
use crate::alu::{
    add8, bit_of, dec8_flags, even_parity, flag_if, inc8_flags, pow2_8, signed8, sub8, sz53, xy_bits,
};
use crate::exec::{accumulator_op, alu_result, condition, reg8, with_reg8};
use crate::exec_bits::{reset_bit, set_bit, shift_result};
use crate::opcode::prefix_of;
use crate::semantics::{
    bits_effect, bits_operation, block_effect, effect_alu, block_io, block_transfer_or_compare, ed_misc, extended_effect, im_of_y, instruction_effect, instruction_start, m1_fetched, normal_effect,
    opcode_fetched, with_flags, with_regs, x0_z0, x0_z45, x3_jumps,
};

verus! {

/// The state in which an unprefixed opcode runs: its fetch has moved the program counter on by
/// one and counted a refresh, and Q has moved to `last_q`
pub open spec fn opcode_state(s: Z80State) -> Z80State {
    opcode_fetched(m1_fetched(instruction_start(s)))
}

/// The state in which the second byte of an `ED` instruction runs
pub open spec fn ed_opcode_state(s: Z80State) -> Z80State {
    opcode_fetched(m1_fetched(m1_fetched(instruction_start(s))))
}

proof fn lemma_unprefixed(s: Z80State, rs: Seq<u8>)
    requires
        s.prefix == Prefix::NoPrefix,
        prefix_of(rs[0]) == Prefix::NoPrefix,
    ensures
        instruction_effect(s, rs) == normal_effect(opcode_state(s), rs[0], Prefix::NoPrefix, rs.skip(1)),
        opcode_state(s).regs.pc == add16(s.regs.pc, 1),
        opcode_state(s).regs.f == s.regs.f,
        opcode_state(s).regs.a == s.regs.a,
{
}

proof fn lemma_ed(s: Z80State, rs: Seq<u8>)
    requires
        s.prefix == Prefix::NoPrefix,
        rs.len() >= 2,
        rs[0] == 0xED,
    ensures
        instruction_effect(s, rs) == extended_effect(ed_opcode_state(s), rs[1], rs.skip(2)),
        ed_opcode_state(s).regs.reg16(RegName16::HL) == s.regs.reg16(RegName16::HL),
        ed_opcode_state(s).regs.reg16(RegName16::DE) == s.regs.reg16(RegName16::DE),
        ed_opcode_state(s).regs.reg16(RegName16::BC) == s.regs.reg16(RegName16::BC),
        ed_opcode_state(s).regs.a == s.regs.a,
{
    assert(rs.skip(1)[0] == rs[1]);
    assert(rs.skip(1).skip(1) =~= rs.skip(2));
}

proof fn lemma_cb(s: Z80State, rs: Seq<u8>)
    requires
        s.prefix == Prefix::NoPrefix,
        rs[0] == 0xCB,
    ensures
        instruction_effect(s, rs) == bits_effect(opcode_state(s), Prefix::NoPrefix, rs.skip(1)),
        opcode_state(s).regs.f == s.regs.f,
        opcode_state(s).regs.a == s.regs.a,
{
}

/// `IM 0` (`ED 46`), `IM 1` (`ED 56`) and `IM 2` (`ED 5E`) select interrupt modes 0, 1 and 2
pub proof fn law_im_selects_its_mode(s: Z80State)
    requires
        s.prefix == Prefix::NoPrefix,
    ensures
        instruction_effect(s, seq![0xEDu8, 0x46u8]).int_mode == IntMode::Im0,
        instruction_effect(s, seq![0xEDu8, 0x56u8]).int_mode == IntMode::Im1,
        instruction_effect(s, seq![0xEDu8, 0x5Eu8]).int_mode == IntMode::Im2,
{
    let t = ed_opcode_state(s);
    lemma_ed(s, seq![0xEDu8, 0x46u8]);
    lemma_ed(s, seq![0xEDu8, 0x56u8]);
    lemma_ed(s, seq![0xEDu8, 0x5Eu8]);
    lemma_im_opcode(t, 0x46u8, seq![0xEDu8, 0x46u8].skip(2));
    lemma_im_opcode(t, 0x56u8, seq![0xEDu8, 0x56u8].skip(2));
    lemma_im_opcode(t, 0x5Eu8, seq![0xEDu8, 0x5Eu8].skip(2));
}

proof fn lemma_im_opcode(t: Z80State, op: u8, rs: Seq<u8>)
    requires
        op / 64 == 1,
        op % 8 == 6,
    ensures
        extended_effect(t, op, rs).int_mode == im_of_y((op / 8) % 8),
{
    reveal(extended_effect);
    assert(extended_effect(t, op, rs) == ed_misc(t, (op / 8) % 8, 6, rs));
}

/// The condition `cc` of a conditional jump, call or return, by the number in its opcode:
/// NZ, Z, NC, C, PO, PE, P, M, on Z (bit 6), C (bit 0), P/V (bit 2) and S (bit 7) of `f`
pub open spec fn condition_holds(f: u8, cc: u8) -> bool {
    if cc == 0 {
        f & 0x40 == 0
    } else if cc == 1 {
        f & 0x40 != 0
    } else if cc == 2 {
        f & 0x01 == 0
    } else if cc == 3 {
        f & 0x01 != 0
    } else if cc == 4 {
        f & 0x04 == 0
    } else if cc == 5 {
        f & 0x04 != 0
    } else if cc == 6 {
        f & 0x80 == 0
    } else {
        f & 0x80 != 0
    }
}

/// `JP cc,nn` jumps to `nn` when `cc` holds and otherwise goes on past its three bytes
#[verifier::spinoff_prover]
#[verifier::rlimit(40)]
pub proof fn law_conditional_jump(s: Z80State, cc: u8, lo: u8, hi: u8)
    requires
        s.prefix == Prefix::NoPrefix,
        cc < 8,
    ensures
        instruction_effect(s, seq![(0xC2 + 8 * cc) as u8, lo, hi]).regs.pc == if condition_holds(
            s.regs.f,
            cc,
        ) {
            word(hi, lo)
        } else {
            add16(s.regs.pc, 3)
        },
{
    let op = (0xC2 + 8 * cc) as u8;
    let rs = seq![op, lo, hi];
    assert(op / 64 == 3 && (op / 8) % 8 == cc && op % 8 == 2);
    assert(rs[0] == op && rs.skip(1)[0] == lo && rs.skip(1)[1] == hi);
    lemma_unprefixed(s, rs);
    let t = opcode_state(s);
    assert(normal_effect(t, op, Prefix::NoPrefix, rs.skip(1)) == x3_jumps(t, cc, 2, Prefix::NoPrefix, rs.skip(1))) by {
        reveal(normal_effect);
    }
    assert(condition(t.regs.f, cc) == condition_holds(s.regs.f, cc));
    assert(add16(add16(s.regs.pc, 1), 2) == add16(s.regs.pc, 3));
}

/// Bits 0 (C) and 6 (Z) of the flags after an addition with result `r`
proof fn lemma_add_flag_bits(r: u8, h: bool, pv: bool, cy: bool)
    ensures
        ({
            let x = sz53(r) | flag_if(h, FLAG_HALF) | flag_if(pv, FLAG_PV) | flag_if(cy, FLAG_CARRY);
            &&& (x & FLAG_CARRY != 0) == cy
            &&& (x & FLAG_ZERO != 0) == (r == 0)
        }),
{
    assert({
        let x = sz53(r) | flag_if(h, FLAG_HALF) | flag_if(pv, FLAG_PV) | flag_if(cy, FLAG_CARRY);
        &&& (x & FLAG_CARRY != 0) == cy
        &&& (x & FLAG_ZERO != 0) == (r == 0)
    }) by (bit_vector);
}

/// Bits 0 (C) and 6 (Z) of the flags after a subtraction with result `r`
proof fn lemma_sub_flag_bits(r: u8, h: bool, pv: bool, cy: bool)
    ensures
        ({
            let x = sz53(r) | flag_if(h, FLAG_HALF) | flag_if(pv, FLAG_PV) | FLAG_SUB | flag_if(cy, FLAG_CARRY);
            &&& (x & FLAG_CARRY != 0) == cy
            &&& (x & FLAG_ZERO != 0) == (r == 0)
        }),
{
    assert({
        let x = sz53(r) | flag_if(h, FLAG_HALF) | flag_if(pv, FLAG_PV) | FLAG_SUB | flag_if(cy, FLAG_CARRY);
        &&& (x & FLAG_CARRY != 0) == cy
        &&& (x & FLAG_ZERO != 0) == (r == 0)
    }) by (bit_vector);
}

/// Bits 0 (C) and 6 (Z) of the flags after `AND` with result `r`
proof fn lemma_and_flag_bits(r: u8, p: bool)
    ensures
        ({
            let x = sz53(r) | FLAG_HALF | flag_if(p, FLAG_PV);
            &&& x & FLAG_CARRY == 0
            &&& (x & FLAG_ZERO != 0) == (r == 0)
        }),
{
    assert({
        let x = sz53(r) | FLAG_HALF | flag_if(p, FLAG_PV);
        &&& x & FLAG_CARRY == 0
        &&& (x & FLAG_ZERO != 0) == (r == 0)
    }) by (bit_vector);
}

/// Bits 0 (C) and 6 (Z) of the flags after `OR` or `XOR` with result `r`
proof fn lemma_or_flag_bits(r: u8, p: bool)
    ensures
        ({
            let x = sz53(r) | flag_if(p, FLAG_PV);
            &&& x & FLAG_CARRY == 0
            &&& (x & FLAG_ZERO != 0) == (r == 0)
        }),
{
    assert({
        let x = sz53(r) | flag_if(p, FLAG_PV);
        &&& x & FLAG_CARRY == 0
        &&& (x & FLAG_ZERO != 0) == (r == 0)
    }) by (bit_vector);
}

/// Bits 0 (C) and 6 (Z) of the flags after `CP` with difference `r`
proof fn lemma_compare_flag_bits(r: u8, v: u8, h: bool, pv: bool, cy: bool)
    ensures
        ({
            let x = (r & FLAG_SIGN) | flag_if(r == 0, FLAG_ZERO) | xy_bits(v) | flag_if(h, FLAG_HALF)
                | flag_if(pv, FLAG_PV) | FLAG_SUB | flag_if(cy, FLAG_CARRY);
            &&& (x & FLAG_CARRY != 0) == cy
            &&& (x & FLAG_ZERO != 0) == (r == 0)
        }),
{
    assert({
        let x = (r & FLAG_SIGN) | flag_if(r == 0, FLAG_ZERO) | xy_bits(v) | flag_if(h, FLAG_HALF)
            | flag_if(pv, FLAG_PV) | FLAG_SUB | flag_if(cy, FLAG_CARRY);
        &&& (x & FLAG_CARRY != 0) == cy
        &&& (x & FLAG_ZERO != 0) == (r == 0)
    }) by (bit_vector);
}

/// The accumulator an 8-bit ALU operation leaves, by its number `op` (ADD, ADC, SUB, SBC,
/// AND, XOR, OR, CP) on `a`, the operand `v` and the incoming carry `c` (0 or 1)
pub open spec fn alu_value(op: u8, a: u8, v: u8, c: int) -> int {
    if op == 0 {
        (a + v) % 256
    } else if op == 1 {
        (a + v + c) % 256
    } else if op == 2 {
        (a - v + 256) % 256
    } else if op == 3 {
        (a - v - c + 512) % 256
    } else if op == 4 {
        (a & v) as int
    } else if op == 5 {
        (a ^ v) as int
    } else if op == 6 {
        (a | v) as int
    } else {
        a as int
    }
}

/// The carry an 8-bit ALU operation leaves: out of bit 7 for the additions, a borrow for the
/// subtractions and `CP`, none for the logical operations
pub open spec fn alu_carry(op: u8, a: u8, v: u8, c: int) -> bool {
    if op == 0 {
        a + v >= 256
    } else if op == 1 {
        a + v + c >= 256
    } else if op == 2 || op == 7 {
        a < v
    } else if op == 3 {
        a < v + c
    } else {
        false
    }
}

/// The accumulator and the carry and zero flags after ALU operation `op` on `r` and `v`
proof fn lemma_alu(r: Regs, op: u8, v: u8)
    requires
        op < 8,
    ensures
        ({
            let c: int = if r.f & 0x01 != 0 {
                1
            } else {
                0
            };
            let (a, f) = alu_result(r, op, v);
            let zero = if op == 7 {
                r.a == v
            } else {
                alu_value(op, r.a, v, c) == 0
            };
            &&& a as int == alu_value(op, r.a, v, c)
            &&& (f & 0x01 != 0) == alu_carry(op, r.a, v, c)
            &&& (f & 0x40 != 0) == zero
        }),
{
    let a = r.a;
    let cf = r.f & FLAG_CARRY != 0;
    if op == 0 || op == 1 {
        let carry = op == 1 && cf;
        let cc: int = if carry {
            1
        } else {
            0
        };
        let sm = signed8(a as int) + signed8(v as int) + cc;
        lemma_add_flag_bits(add8(a, v, carry), a % 16 + v % 16 + cc >= 16, sm < -128 || sm > 127, a + v + cc >= 256);
    } else if op == 2 || op == 3 {
        let carry = op == 3 && cf;
        let cc: int = if carry {
            1
        } else {
            0
        };
        let sm = signed8(a as int) - signed8(v as int) - cc;
        lemma_sub_flag_bits(sub8(a, v, carry), a % 16 < v % 16 + cc, sm < -128 || sm > 127, a < v + cc);
    } else if op == 4 {
        lemma_and_flag_bits(a & v, even_parity(a & v));
    } else if op == 5 {
        lemma_or_flag_bits(a ^ v, even_parity(a ^ v));
    } else if op == 6 {
        lemma_or_flag_bits(a | v, even_parity(a | v));
    } else {
        let sm = signed8(a as int) - signed8(v as int);
        lemma_compare_flag_bits(sub8(a, v, false), v, a % 16 < v % 16, sm < -128 || sm > 127, a < v);
    }
}

/// The 8-bit ALU operations with an immediate operand (`C6`, `CE`, `D6`, `DE`, `E6`, `EE`,
/// `F6`, `FE` followed by `v`): `ADD` and `ADC` add `v` (and the carry), `SUB` and `SBC`
/// subtract it (and the carry), `AND`, `XOR` and `OR` combine it bitwise, `CP` leaves A as it
/// was; C is the carry out of bit 7, or the borrow, and clear after a logical operation; Z is
/// set when the result (for `CP`, the difference) is zero
#[verifier::spinoff_prover]
#[verifier::rlimit(40)]
pub proof fn law_alu_immediate(s: Z80State, op: u8, v: u8)
    requires
        s.prefix == Prefix::NoPrefix,
        op < 8,
    ensures
        ({
            let e = instruction_effect(s, seq![(0xC6 + 8 * op) as u8, v]);
            let a = s.regs.a;
            let c: int = if s.regs.f & 0x01 != 0 {
                1
            } else {
                0
            };
            &&& e.regs.a as int == alu_value(op, a, v, c)
            &&& (e.regs.f & 0x01 != 0) == alu_carry(op, a, v, c)
            &&& (e.regs.f & 0x40 != 0) == if op == 7 {
                a == v
            } else {
                alu_value(op, a, v, c) == 0
            }
            &&& e.regs.pc == add16(s.regs.pc, 2)
        }),
{
    let code = (0xC6 + 8 * op) as u8;
    let rs = seq![code, v];
    assert(code / 64 == 3 && (code / 8) % 8 == op && code % 8 == 6);
    assert(rs[0] == code && rs.skip(1)[0] == v);
    lemma_unprefixed(s, rs);
    let t = opcode_state(s);
    assert(normal_effect(t, code, Prefix::NoPrefix, rs.skip(1)) == x3_jumps(t, op, 6, Prefix::NoPrefix, rs.skip(1))) by {
        reveal(normal_effect);
    }
    lemma_alu(t.regs, op, v);
    assert(add16(add16(s.regs.pc, 1), 1) == add16(s.regs.pc, 2));
}

/// A word is its two bytes put together again
proof fn lemma_word_of_bytes(w: u16)
    ensures
        word(hi_byte(w), lo_byte(w)) == w,
{
}

proof fn lemma_transfer_registers(t: Z80State, y: u8, z: u8, v: u8)
    requires
        4 <= y < 8,
        z <= 1,
    ensures
        ({
            let e = block_transfer_or_compare(t, y, z, v).regs;
            let r = t.regs;
            let step: int = if y == 5 || y == 7 {
                -1
            } else {
                1
            };
            &&& e.reg16(RegName16::HL) == add16(r.reg16(RegName16::HL), step)
            &&& z == 0 ==> e.reg16(RegName16::DE) == add16(r.reg16(RegName16::DE), step)
            &&& e.reg16(RegName16::BC) == add16(r.reg16(RegName16::BC), -1)
        }),
{
    let r = t.regs;
    let step: int = if y == 5 || y == 7 {
        -1
    } else {
        1
    };
    let hl = add16(r.reg16(RegName16::HL), step);
    let de = add16(r.reg16(RegName16::DE), step);
    let bc = add16(r.reg16(RegName16::BC), -1);
    lemma_word_of_bytes(hl);
    lemma_word_of_bytes(de);
    lemma_word_of_bytes(bc);
    let e = block_transfer_or_compare(t, y, z, v).regs;
    if z == 0 {
        assert(e.h == hi_byte(hl) && e.l == lo_byte(hl));
        assert(e.d == hi_byte(de) && e.e == lo_byte(de));
        assert(e.b == hi_byte(bc) && e.c == lo_byte(bc));
    } else {
        assert(e.h == hi_byte(hl) && e.l == lo_byte(hl));
        assert(e.b == hi_byte(bc) && e.c == lo_byte(bc));
    }
}

proof fn lemma_io_registers(t: Z80State, y: u8, z: u8, v: u8)
    requires
        4 <= y < 8,
        2 <= z < 4,
    ensures
        ({
            let e = block_io(t, y, z, v).regs;
            let r = t.regs;
            let step: int = if y == 5 || y == 7 {
                -1
            } else {
                1
            };
            &&& e.reg16(RegName16::HL) == add16(r.reg16(RegName16::HL), step)
            &&& e.b as int == (r.b + 255) % 256
            &&& e.c == r.c
        }),
{
    let r = t.regs;
    let step: int = if y == 5 || y == 7 {
        -1
    } else {
        1
    };
    let hl = add16(r.reg16(RegName16::HL), step);
    lemma_word_of_bytes(hl);
    let e = block_io(t, y, z, v).regs;
    assert(e.h == hi_byte(hl) && e.l == lo_byte(hl));
}

proof fn lemma_block_opcode(t: Z80State, op: u8, rs: Seq<u8>)
    requires
        op / 64 == 2,
        (op / 8) % 8 >= 4,
        op % 8 < 4,
    ensures
        extended_effect(t, op, rs) == block_effect(t, (op / 8) % 8, op % 8, rs[0]),
{
    reveal(extended_effect);
}

/// The block instructions step their pointers the same way: `LDI`, `LDIR` (`ED A0`, `ED B0`)
/// move HL and DE up by one, `LDD`, `LDDR` (`ED A8`, `ED B8`) move both down, and each counts BC
/// down; `CPI`, `CPIR`, `CPD`, `CPDR` step HL likewise and count BC down; `INI`, `INIR`, `IND`,
/// `INDR`, `OUTI`, `OTIR`, `OUTD`, `OTDR` step HL likewise and count B down. `v` is the byte the
/// instruction reads.
#[verifier::spinoff_prover]
#[verifier::rlimit(80)]
pub proof fn law_block_pointers(s: Z80State, op: u8, v: u8)
    requires
        s.prefix == Prefix::NoPrefix,
        op / 64 == 2,
        (op / 8) % 8 >= 4,
        op % 8 < 4,
    ensures
        ({
            let e = instruction_effect(s, seq![0xEDu8, op, v]).regs;
            let r = s.regs;
            let down = (op / 8) % 2 == 1;
            let step: int = if down {
                -1
            } else {
                1
            };
            &&& e.reg16(RegName16::HL) == add16(r.reg16(RegName16::HL), step)
            &&& op % 8 == 0 ==> e.reg16(RegName16::DE) == add16(r.reg16(RegName16::DE), step)
            &&& op % 8 <= 1 ==> e.reg16(RegName16::BC) == add16(r.reg16(RegName16::BC), -1)
            &&& op % 8 >= 2 ==> e.b as int == (r.b + 255) % 256 && e.c == r.c
        }),
{
    let rs = seq![0xEDu8, op, v];
    assert(rs[1] == op && rs.skip(2)[0] == v);
    lemma_ed(s, rs);
    let t = ed_opcode_state(s);
    let y = (op / 8) % 8;
    let z = op % 8;
    lemma_block_opcode(t, op, rs.skip(2));
    if z <= 1 {
        lemma_transfer_registers(t, y, z, v);
    } else {
        lemma_io_registers(t, y, z, v);
    }
    assert(t.regs.b == s.regs.b && t.regs.c == s.regs.c);
}

proof fn lemma_transfer_pc(t: Z80State, y: u8, z: u8, v: u8)
    requires
        4 <= y < 8,
        z <= 1,
    ensures
        block_transfer_or_compare(t, y, z, v).regs.pc == if y >= 6 && add16(
            t.regs.reg16(RegName16::BC),
            -1,
        ) != 0 && (z == 0 || t.regs.a != v) {
            add16(t.regs.pc, -2)
        } else {
            t.regs.pc
        },
{
    assert((sub8(t.regs.a, v, false) == 0) == (t.regs.a == v));
}

proof fn lemma_io_pc(t: Z80State, y: u8, z: u8, v: u8)
    requires
        4 <= y < 8,
        2 <= z < 4,
    ensures
        block_io(t, y, z, v).regs.pc == if y >= 6 && (t.regs.b + 255) % 256 != 0 {
            add16(t.regs.pc, -2)
        } else {
            t.regs.pc
        },
{
}

/// The repeating block instructions (`LDIR`, `LDDR`, `CPIR`, `CPDR`, `INIR`, `INDR`, `OTIR`,
/// `OTDR`) go back to their own first byte while there is more to do: while BC, counted down, is
/// not zero (for `CPIR` and `CPDR`, and A differs from the byte `v` compared), or, for input and
/// output, while B, counted down, is not zero; otherwise, and always for the single forms,
/// execution goes on past the two bytes
#[verifier::spinoff_prover]
#[verifier::rlimit(80)]
pub proof fn law_block_repeat(s: Z80State, op: u8, v: u8)
    requires
        s.prefix == Prefix::NoPrefix,
        op / 64 == 2,
        (op / 8) % 8 >= 4,
        op % 8 < 4,
    ensures
        ({
            let e = instruction_effect(s, seq![0xEDu8, op, v]).regs;
            let r = s.regs;
            let z = op % 8;
            let more = if z <= 1 {
                add16(r.reg16(RegName16::BC), -1) != 0 && (z == 0 || r.a != v)
            } else {
                (r.b + 255) % 256 != 0
            };
            e.pc == if (op / 8) % 8 >= 6 && more {
                r.pc
            } else {
                add16(r.pc, 2)
            }
        }),
{
    let rs = seq![0xEDu8, op, v];
    assert(rs[1] == op && rs.skip(2)[0] == v);
    lemma_ed(s, rs);
    let t = ed_opcode_state(s);
    let y = (op / 8) % 8;
    let z = op % 8;
    lemma_block_opcode(t, op, rs.skip(2));
    if z <= 1 {
        lemma_transfer_pc(t, y, z, v);
    } else {
        lemma_io_pc(t, y, z, v);
    }
    assert(t.regs.b == s.regs.b && t.regs.a == s.regs.a);
    assert(t.regs.pc == add16(add16(s.regs.pc, 1), 1));
    assert(add16(add16(add16(s.regs.pc, 1), 1), -2) == s.regs.pc);
    assert(add16(add16(s.regs.pc, 1), 1) == add16(s.regs.pc, 2));
}

/// Bit `b` of a byte: the mask `1 << b` against the arithmetic of `bit_of`, `set_bit` and
/// `reset_bit`
proof fn lemma_bit_forms(a: u8, b: u8)
    requires
        b < 8,
    ensures
        (1u8 << b) as int == pow2_8(b),
        bit_of(a, b) == (a & (1u8 << b) != 0),
        set_bit(a, b) == a | (1u8 << b),
        reset_bit(a, b) == a & !(1u8 << b),
{
    let m: u8 = 1u8 << b;
    assert(b < 8 ==> (1u8 << b) == if b == 0 {
        1u8
    } else if b == 1 {
        2u8
    } else if b == 2 {
        4u8
    } else if b == 3 {
        8u8
    } else if b == 4 {
        16u8
    } else if b == 5 {
        32u8
    } else if b == 6 {
        64u8
    } else {
        128u8
    }) by (bit_vector);
    assert(m as int == pow2_8(b));
    assert({
        &&& ((a / m) % 2 == 1) == (a & m != 0)
        &&& a & m != 0 ==> (a | m) == a && (a & !m) == a - m
        &&& a & m == 0 ==> (a | m) == a + m && (a & !m) == a
    }) by (bit_vector)
        requires
            m == 1u8 << b,
            b < 8,
    ;
}

/// Bit 6 (Z) of the flags after `BIT`: set when the tested bit is clear
proof fn lemma_bit_test_flag(f: u8, bo: bool, sign: bool, xy: u8)
    ensures
        (((f & FLAG_CARRY) | FLAG_HALF | flag_if(!bo, FLAG_ZERO | FLAG_PV) | flag_if(sign, FLAG_SIGN)
            | xy_bits(xy)) & FLAG_ZERO != 0) == !bo,
{
    assert((((f & FLAG_CARRY) | FLAG_HALF | flag_if(!bo, FLAG_ZERO | FLAG_PV) | flag_if(
        sign,
        FLAG_SIGN,
    ) | xy_bits(xy)) & FLAG_ZERO != 0) == !bo) by (bit_vector);
}

/// The state after a `CB`-prefixed opcode on register A (`op % 8` is 7)
proof fn lemma_cb_on_a(s: Z80State, op: u8)
    requires
        s.prefix == Prefix::NoPrefix,
        op % 8 == 7,
    ensures
        ({
            let t = opcode_state(s);
            let r1 = Regs { pc: add16(t.regs.pc, 1), r: next_r(t.regs.r), ..t.regs };
            instruction_effect(s, seq![0xCBu8, op]) == bits_operation(with_regs(t, r1), op, s.regs.a, false)
        }),
        add16(add16(s.regs.pc, 1), 1) == add16(s.regs.pc, 2),
{
    let rs = seq![0xCBu8, op];
    assert(rs.skip(1)[0] == op);
    lemma_cb(s, rs);
    let t = opcode_state(s);
    let r1 = Regs { pc: add16(t.regs.pc, 1), r: next_r(t.regs.r), ..t.regs };
    assert(reg8(r1, 7, Prefix::NoPrefix) == t.regs.a);
    assert(bits_effect(t, Prefix::NoPrefix, rs.skip(1)) == bits_operation(
        with_regs(t, r1),
        op,
        t.regs.a,
        false,
    )) by {
        reveal(bits_effect);
    }
}

/// `SET b,A` (`CB C7 + 8b`) sets bit `b` of A, `RES b,A` (`CB 87 + 8b`) clears it, and
/// `BIT b,A` (`CB 47 + 8b`) sets Z exactly when that bit is clear, leaving A as it was
#[verifier::spinoff_prover]
#[verifier::rlimit(40)]
pub proof fn law_bit_operations_a(s: Z80State, b: u8)
    requires
        s.prefix == Prefix::NoPrefix,
        b < 8,
    ensures
        instruction_effect(s, seq![0xCBu8, (0xC7 + 8 * b) as u8]).regs.a == s.regs.a | (1u8 << b),
        instruction_effect(s, seq![0xCBu8, (0x87 + 8 * b) as u8]).regs.a == s.regs.a & !(1u8 << b),
        instruction_effect(s, seq![0xCBu8, (0x47 + 8 * b) as u8]).regs.a == s.regs.a,
        (instruction_effect(s, seq![0xCBu8, (0x47 + 8 * b) as u8]).regs.f & 0x40 != 0) == (s.regs.a
            & (1u8 << b) == 0),
{
    let a = s.regs.a;
    let set_op = (0xC7 + 8 * b) as u8;
    let res_op = (0x87 + 8 * b) as u8;
    let bit_op = (0x47 + 8 * b) as u8;
    assert(set_op / 64 == 3 && (set_op / 8) % 8 == b && set_op % 8 == 7);
    assert(res_op / 64 == 2 && (res_op / 8) % 8 == b && res_op % 8 == 7);
    assert(bit_op / 64 == 1 && (bit_op / 8) % 8 == b && bit_op % 8 == 7);
    lemma_cb_on_a(s, set_op);
    lemma_cb_on_a(s, res_op);
    lemma_cb_on_a(s, bit_op);
    lemma_bit_forms(a, b);
    let t = opcode_state(s);
    lemma_bit_test_flag(t.regs.f, bit_of(a, b), b == 7 && bit_of(a, b), a);
}

/// The byte `d` read as a signed displacement, -128 to 127
pub open spec fn displacement(d: u8) -> int {
    if d < 128 {
        d as int
    } else {
        d as int - 256
    }
}

proof fn lemma_x0_z0(s: Z80State, y: u8, d: u8)
    requires
        s.prefix == Prefix::NoPrefix,
        2 <= y < 8,
    ensures
        ({
            let rs = seq![(8 * y) as u8, d];
            instruction_effect(s, rs) == x0_z0(opcode_state(s), y, rs.skip(1))
        }),
{
    let op = (8 * y) as u8;
    let rs = seq![op, d];
    assert(op / 64 == 0 && (op / 8) % 8 == y && op % 8 == 0);
    lemma_unprefixed(s, rs);
    let t = opcode_state(s);
    assert(normal_effect(t, op, Prefix::NoPrefix, rs.skip(1)) == x0_z0(t, y, rs.skip(1))) by {
        reveal(normal_effect);
    }
}

/// The relative jumps: `JR d` (`18 d`) always goes to the address after its two bytes moved by
/// `d`, read as signed; `JR cc,d` (`20`, `28`, `30`, `38` for NZ, Z, NC, C) does so when its
/// condition holds; `DJNZ d` (`10 d`) counts B down and does so while B is not zero. Otherwise
/// execution goes on past the two bytes.
#[verifier::spinoff_prover]
#[verifier::rlimit(40)]
pub proof fn law_relative_jumps(s: Z80State, cc: u8, d: u8)
    requires
        s.prefix == Prefix::NoPrefix,
        cc < 4,
    ensures
        ({
            let next = add16(s.regs.pc, 2);
            let target = add16(s.regs.pc, 2 + displacement(d));
            let b = (s.regs.b + 255) % 256;
            &&& instruction_effect(s, seq![0x18u8, d]).regs.pc == target
            &&& instruction_effect(s, seq![(0x20 + 8 * cc) as u8, d]).regs.pc == if condition_holds(
                s.regs.f,
                cc,
            ) {
                target
            } else {
                next
            }
            &&& instruction_effect(s, seq![0x10u8, d]).regs.b as int == b
            &&& instruction_effect(s, seq![0x10u8, d]).regs.pc == if b != 0 {
                target
            } else {
                next
            }
        }),
{
    let t = opcode_state(s);
    let y = (4 + cc) as u8;
    assert((8 * y) as u8 == (0x20 + 8 * cc) as u8);
    lemma_x0_z0(s, 2, d);
    lemma_x0_z0(s, 3, d);
    lemma_x0_z0(s, y, d);
    assert(seq![0x18u8, d].skip(1)[0] == d);
    assert(seq![0x10u8, d].skip(1)[0] == d);
    assert(seq![(0x20 + 8 * cc) as u8, d].skip(1)[0] == d);
    assert(condition(t.regs.f, cc) == condition_holds(s.regs.f, cc));
    assert(add16(add16(s.regs.pc, 1), 1) == add16(s.regs.pc, 2));
    assert(add16(add16(add16(s.regs.pc, 1), 1), signed8(d as int)) == add16(
        s.regs.pc,
        2 + displacement(d),
    ));
}

/// Bits 0 (C) and 6 (Z) of the flags after the accumulator rotations, `CPL`, `SCF` and `CCF`,
/// with `f` the flags before
proof fn lemma_accumulator_flag_bits(f: u8, xy: u8, cy: bool)
    ensures
        ({
            let kept = f & (FLAG_SIGN | FLAG_ZERO | FLAG_PV);
            let c = f & FLAG_CARRY != 0;
            let rot = kept | xy_bits(xy) | flag_if(cy, FLAG_CARRY);
            let cpl = (f & (FLAG_SIGN | FLAG_ZERO | FLAG_PV | FLAG_CARRY)) | FLAG_HALF | FLAG_SUB | xy_bits(xy);
            let scf = kept | FLAG_CARRY | xy_bits(xy);
            let ccf = kept | flag_if(c, FLAG_HALF) | flag_if(!c, FLAG_CARRY) | xy_bits(xy);
            &&& (rot & FLAG_CARRY != 0) == cy && rot & FLAG_ZERO == f & FLAG_ZERO
            &&& cpl & FLAG_CARRY == f & FLAG_CARRY
            &&& scf & FLAG_CARRY != 0
            &&& (ccf & FLAG_CARRY != 0) == !c
        }),
{
    assert({
        let kept = f & (FLAG_SIGN | FLAG_ZERO | FLAG_PV);
        let c = f & FLAG_CARRY != 0;
        let rot = kept | xy_bits(xy) | flag_if(cy, FLAG_CARRY);
        let cpl = (f & (FLAG_SIGN | FLAG_ZERO | FLAG_PV | FLAG_CARRY)) | FLAG_HALF | FLAG_SUB | xy_bits(xy);
        let scf = kept | FLAG_CARRY | xy_bits(xy);
        let ccf = kept | flag_if(c, FLAG_HALF) | flag_if(!c, FLAG_CARRY) | xy_bits(xy);
        &&& (rot & FLAG_CARRY != 0) == cy && rot & FLAG_ZERO == f & FLAG_ZERO
        &&& cpl & FLAG_CARRY == f & FLAG_CARRY
        &&& scf & FLAG_CARRY != 0
        &&& (ccf & FLAG_CARRY != 0) == !c
    }) by (bit_vector);
}

/// The one-byte operations on A and the carry: `RLCA`, `RLA` (`07`, `17`) double A, drop bit 7
/// into the carry and fill bit 0 with the old bit 7 or the carry; `RRCA`, `RRA` (`0F`, `1F`)
/// halve A, drop bit 0 into the carry and fill bit 7 with the old bit 0 or the carry; all four
/// keep Z. `CPL` (`2F`) complements A and keeps the carry, `SCF` (`37`) sets the carry and `CCF`
/// (`3F`) inverts it.
#[verifier::spinoff_prover]
#[verifier::rlimit(40)]
pub proof fn law_accumulator_operations(s: Z80State, y: u8)
    requires
        s.prefix == Prefix::NoPrefix,
        y < 8,
        y != 4,
    ensures
        ({
            let e = instruction_effect(s, seq![(8 * y + 7) as u8]).regs;
            let a = s.regs.a;
            let f = s.regs.f;
            let c: int = if f & 0x01 != 0 {
                1
            } else {
                0
            };
            &&& (y == 0 || y == 2) ==> e.a as int == (2 * a) % 256 + left_fill(y, a, c) && (e.f
                & 0x01 != 0) == (a >= 128) && e.f & 0x40 == f & 0x40
            &&& (y == 1 || y == 3) ==> e.a as int == a / 2 + 128 * right_fill(y, a, c) && (e.f
                & 0x01 != 0) == (a % 2 == 1) && e.f & 0x40 == f & 0x40
            &&& y == 5 ==> e.a as int == 255 - a && e.f & 0x01 == f & 0x01
            &&& y == 6 ==> e.a == a && e.f & 0x01 != 0
            &&& y == 7 ==> e.a == a && (e.f & 0x01 != 0) == (c == 0)
            &&& e.pc == add16(s.regs.pc, 1)
        }),
{
    let op = (8 * y + 7) as u8;
    let rs = seq![op];
    assert(op / 64 == 0 && (op / 8) % 8 == y && op % 8 == 7);
    lemma_unprefixed(s, rs);
    let t = opcode_state(s);
    assert(normal_effect(t, op, Prefix::NoPrefix, rs.skip(1)) == with_regs(t, accumulator_op(t.regs, y))) by {
        reveal(normal_effect);
    }
    let e = accumulator_op(t.regs, y);
    let a = t.regs.a;
    if y == 0 || y == 2 {
        lemma_accumulator_flag_bits(t.regs.f, e.a, a >= 128);
    } else if y == 1 || y == 3 {
        lemma_accumulator_flag_bits(t.regs.f, e.a, a % 2 == 1);
    } else if y == 5 {
        lemma_accumulator_flag_bits(t.regs.f, e.a, false);
    } else {
        lemma_accumulator_flag_bits(t.regs.f, (t.regs.last_q ^ t.regs.f) | t.regs.a, false);
    }
}

/// The register a 3-bit operand number names without a prefix: B, C, D, E, H, L, (HL), A
pub open spec fn named_register(r: Regs, z: u8) -> u8 {
    if z == 0 {
        r.b
    } else if z == 1 {
        r.c
    } else if z == 2 {
        r.d
    } else if z == 3 {
        r.e
    } else if z == 4 {
        r.h
    } else if z == 5 {
        r.l
    } else {
        r.a
    }
}

/// The 8-bit ALU operations on a register (`80 + 8op + z`, `z` naming B, C, D, E, H, L or A)
/// do to A, C and Z what their immediate forms do with the register's value as the operand
#[verifier::spinoff_prover]
#[verifier::rlimit(40)]
pub proof fn law_alu_register(s: Z80State, op: u8, z: u8)
    requires
        s.prefix == Prefix::NoPrefix,
        op < 8,
        z < 8,
        z != 6,
    ensures
        ({
            let e = instruction_effect(s, seq![(0x80 + 8 * op + z) as u8]);
            let a = s.regs.a;
            let v = named_register(s.regs, z);
            let c: int = if s.regs.f & 0x01 != 0 {
                1
            } else {
                0
            };
            &&& e.regs.a as int == alu_value(op, a, v, c)
            &&& (e.regs.f & 0x01 != 0) == alu_carry(op, a, v, c)
            &&& (e.regs.f & 0x40 != 0) == if op == 7 {
                a == v
            } else {
                alu_value(op, a, v, c) == 0
            }
            &&& e.regs.pc == add16(s.regs.pc, 1)
        }),
{
    let code = (0x80 + 8 * op + z) as u8;
    let rs = seq![code];
    assert(code / 64 == 2 && (code / 8) % 8 == op && code % 8 == z);
    lemma_unprefixed(s, rs);
    let t = opcode_state(s);
    assert(normal_effect(t, code, Prefix::NoPrefix, rs.skip(1)) == effect_alu(t, op, z, Prefix::NoPrefix, rs.skip(1))) by {
        reveal(normal_effect);
    }
    assert(reg8(t.regs, z, Prefix::NoPrefix) == named_register(s.regs, z));
    lemma_alu(t.regs, op, named_register(s.regs, z));
}

/// Bits 0 (C) and 6 (Z) of the flags after `INC` or `DEC` with result `r`: C as it was in `f`
proof fn lemma_step_flag_bits(f: u8, r: u8, h: bool, pv: bool)
    ensures
        ({
            let inc = (f & FLAG_CARRY) | sz53(r) | flag_if(h, FLAG_HALF) | flag_if(pv, FLAG_PV);
            let dec = inc | FLAG_SUB;
            &&& inc & FLAG_CARRY == f & FLAG_CARRY && (inc & FLAG_ZERO != 0) == (r == 0)
            &&& dec & FLAG_CARRY == f & FLAG_CARRY && (dec & FLAG_ZERO != 0) == (r == 0)
        }),
{
    assert({
        let inc = (f & FLAG_CARRY) | sz53(r) | flag_if(h, FLAG_HALF) | flag_if(pv, FLAG_PV);
        let dec = inc | FLAG_SUB;
        &&& inc & FLAG_CARRY == f & FLAG_CARRY && (inc & FLAG_ZERO != 0) == (r == 0)
        &&& dec & FLAG_CARRY == f & FLAG_CARRY && (dec & FLAG_ZERO != 0) == (r == 0)
    }) by (bit_vector);
}

/// `INC r` (`04 + 8r`) adds one to register `r` (B, C, D, E, H, L or A) and `DEC r`
/// (`05 + 8r`) subtracts one, both wrapping; Z is set when the result is zero and C is left as
/// it was
#[verifier::spinoff_prover]
#[verifier::rlimit(40)]
pub proof fn law_increment_decrement(s: Z80State, y: u8)
    requires
        s.prefix == Prefix::NoPrefix,
        y < 8,
        y != 6,
    ensures
        ({
            let v = named_register(s.regs, y);
            let inc = instruction_effect(s, seq![(8 * y + 4) as u8]).regs;
            let dec = instruction_effect(s, seq![(8 * y + 5) as u8]).regs;
            &&& named_register(inc, y) as int == (v + 1) % 256
            &&& inc.f & 0x01 == s.regs.f & 0x01
            &&& (inc.f & 0x40 != 0) == (v == 255)
            &&& named_register(dec, y) as int == (v + 255) % 256
            &&& dec.f & 0x01 == s.regs.f & 0x01
            &&& (dec.f & 0x40 != 0) == (v == 1)
        }),
{
    let t = opcode_state(s);
    let r = t.regs;
    let v = named_register(s.regs, y);
    let inc_op = (8 * y + 4) as u8;
    let dec_op = (8 * y + 5) as u8;
    assert(inc_op / 64 == 0 && (inc_op / 8) % 8 == y && inc_op % 8 == 4);
    assert(dec_op / 64 == 0 && (dec_op / 8) % 8 == y && dec_op % 8 == 5);
    lemma_unprefixed(s, seq![inc_op]);
    lemma_unprefixed(s, seq![dec_op]);
    assert(normal_effect(t, inc_op, Prefix::NoPrefix, seq![inc_op].skip(1)) == x0_z45(t, y, 4, Prefix::NoPrefix, seq![inc_op].skip(1))) by {
        reveal(normal_effect);
    }
    assert(normal_effect(t, dec_op, Prefix::NoPrefix, seq![dec_op].skip(1)) == x0_z45(t, y, 5, Prefix::NoPrefix, seq![dec_op].skip(1))) by {
        reveal(normal_effect);
    }
    assert(reg8(r, y, Prefix::NoPrefix) == v);
    let up = add8(v, 1, false);
    let down = sub8(v, 1, false);
    assert(named_register(with_flags(with_reg8(r, y, Prefix::NoPrefix, up), inc8_flags(v, r.f)), y) == up);
    assert(named_register(with_flags(with_reg8(r, y, Prefix::NoPrefix, down), dec8_flags(v, r.f)), y) == down);
    lemma_step_flag_bits(r.f, up, v % 16 == 15, v == 0x7F);
    lemma_step_flag_bits(r.f, down, v % 16 == 0, v == 0x80);
}

/// `NEG` (`ED 44`) replaces A by its two's complement, `0 - A`; C is set unless A was zero, and
/// Z is set when it was
#[verifier::spinoff_prover]
#[verifier::rlimit(40)]
pub proof fn law_negate(s: Z80State)
    requires
        s.prefix == Prefix::NoPrefix,
    ensures
        ({
            let e = instruction_effect(s, seq![0xEDu8, 0x44u8]).regs;
            let a = s.regs.a;
            &&& e.a as int == (256 - a) % 256
            &&& (e.f & 0x01 != 0) == (a != 0)
            &&& (e.f & 0x40 != 0) == (a == 0)
        }),
{
    let rs = seq![0xEDu8, 0x44u8];
    lemma_ed(s, rs);
    let t = ed_opcode_state(s);
    assert(extended_effect(t, 0x44u8, rs.skip(2)) == ed_misc(t, 0, 4, rs.skip(2))) by {
        reveal(extended_effect);
    }
    let r0 = Regs { a: 0, ..t.regs };
    lemma_alu(r0, 2, t.regs.a);
}

/// Bit 0 (C) of the flags after a rotation or shift with result `r` and carry out `cy`
proof fn lemma_shift_flag_bits(r: u8, p: bool, cy: bool)
    ensures
        ((sz53(r) | flag_if(p, FLAG_PV) | flag_if(cy, FLAG_CARRY)) & FLAG_CARRY != 0) == cy,
{
    assert(((sz53(r) | flag_if(p, FLAG_PV) | flag_if(cy, FLAG_CARRY)) & FLAG_CARRY != 0) == cy)
        by (bit_vector);
}

/// The bit that a rotation or shift to the left (`y` = 0, 2, 4, 6: RLC, RL, SLA, SLL) moves
/// into bit 0: the old bit 7, the carry, a zero, a one
pub open spec fn left_fill(y: u8, a: u8, c: int) -> int {
    if y == 0 {
        a as int / 128
    } else if y == 2 {
        c
    } else if y == 4 {
        0
    } else {
        1
    }
}

/// The bit that a rotation or shift to the right (`y` = 1, 3, 5, 7: RRC, RR, SRA, SRL) moves
/// into bit 7: the old bit 0, the carry, the old bit 7 (the sign stays), a zero
pub open spec fn right_fill(y: u8, a: u8, c: int) -> int {
    if y == 1 {
        a as int % 2
    } else if y == 3 {
        c
    } else if y == 5 {
        a as int / 128
    } else {
        0
    }
}

/// The rotations and shifts of A (`CB 07`, `CB 0F`, ..., `CB 3F`): those to the left double A,
/// drop its bit 7 into the carry and fill bit 0 (`SLA` with a zero); those to the right halve
/// A, drop its bit 0 into the carry and fill bit 7
#[verifier::spinoff_prover]
#[verifier::rlimit(40)]
pub proof fn law_shift_a(s: Z80State, y: u8)
    requires
        s.prefix == Prefix::NoPrefix,
        y < 8,
    ensures
        ({
            let e = instruction_effect(s, seq![0xCBu8, (8 * y + 7) as u8]).regs;
            let a = s.regs.a;
            let c: int = if s.regs.f & 0x01 != 0 {
                1
            } else {
                0
            };
            &&& y % 2 == 0 ==> e.a as int == (2 * a) % 256 + left_fill(y, a, c) && (e.f & 0x01
                != 0) == (a >= 128)
            &&& y % 2 == 1 ==> e.a as int == a / 2 + 128 * right_fill(y, a, c) && (e.f & 0x01
                != 0) == (a % 2 == 1)
            &&& e.pc == add16(s.regs.pc, 2)
        }),
{
    let op = (8 * y + 7) as u8;
    let rs = seq![0xCBu8, op];
    assert(op / 64 == 0 && (op / 8) % 8 == y && op % 8 == 7);
    assert(rs.skip(1)[0] == op);
    lemma_cb(s, rs);
    let t = opcode_state(s);
    let r1 = Regs { pc: add16(t.regs.pc, 1), r: next_r(t.regs.r), ..t.regs };
    assert(bits_effect(t, Prefix::NoPrefix, rs.skip(1)) == bits_operation(
        with_regs(t, r1),
        op,
        t.regs.a,
        false,
    )) by {
        reveal(bits_effect);
    }
    let c = t.regs.f & FLAG_CARRY != 0;
    let (res, carry) = shift_result(y, t.regs.a, c);
    lemma_shift_flag_bits(res, even_parity(res), carry);
    assert(add16(add16(s.regs.pc, 1), 1) == add16(s.regs.pc, 2));
}

} // verus!
