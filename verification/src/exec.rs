//! Execution of the unprefixed and index-prefixed instructions

use vstd::prelude::*;

use crate::alu::{
    add8, add8_exec, add8_flags, and_flags, cp_exec, cp_flags, dec8_exec, even_parity, flag_if,
    inc8_exec, or_flags, parity_even, signed8, sub8, sub8_exec, sub8_flags, sz53, sz53_of, xy_bits,
};
use crate::bus::Z80Bus;
use crate::cpu::{state_of, Z80};
use crate::transfers::{
    call_transfers, ir, ld_transfers, normal_transfers, operand_reads, pop_reads,
    push_writes, relative_transfers, word_fetch, x0_transfers, x0_z0_transfers, x0_z1_transfers,
    x0_z2_transfers, x0_z45_transfers, x0_z6_transfers, x3_jumps_transfers, x3_transfers, x3_z01_transfers, x3_z3_transfers,
    BusAccess,
};
use crate::semantics::{
    advanced, effect_alu, effect_ld, effect_x0, effect_x3, memory_operand, normal_effect,
    relative_jump, returned, word_at, x0_z0, x0_z1, x0_z2, x0_z3, x0_z45, x0_z6, x3_jumps, x3_z01,
    x3_z3,
};
use crate::opcode::{Opcode, Prefix};
use crate::regs::{
    add16, hi_byte, lo_byte, make_word, split_word, word, wrapping_add16, wrapping_sub16, RegName16,
    Regs, FLAG_CARRY, FLAG_F3, FLAG_F5, FLAG_HALF, FLAG_PV, FLAG_SIGN, FLAG_SUB, FLAG_ZERO,
};

verus! {

broadcast use crate::transfers::lemma_transfers_associate;

/// An instruction leaves the NMI latch and the pending prefix as it found them
pub(crate) open spec fn same_control(a: Z80, b: Z80) -> bool {
    b.nmi == a.nmi && b.active_prefix == a.active_prefix
}

/// The 8-bit register with number `idx` (0 B, 1 C, 2 D, 3 E, 4 H, 5 L, 7 A); under a `DD` or
/// `FD` prefix H and L stand for the halves of IX or IY
pub open spec fn reg8(r: Regs, idx: u8, prefix: Prefix) -> u8 {
    if idx == 0 {
        r.b
    } else if idx == 1 {
        r.c
    } else if idx == 2 {
        r.d
    } else if idx == 3 {
        r.e
    } else if idx == 4 {
        match prefix {
            Prefix::DD => hi_byte(r.ix),
            Prefix::FD => hi_byte(r.iy),
            _ => r.h,
        }
    } else if idx == 5 {
        match prefix {
            Prefix::DD => lo_byte(r.ix),
            Prefix::FD => lo_byte(r.iy),
            _ => r.l,
        }
    } else {
        r.a
    }
}

/// The registers with 8-bit register `idx` set to `v`
pub open spec fn with_reg8(r: Regs, idx: u8, prefix: Prefix, v: u8) -> Regs {
    if idx == 0 {
        Regs { b: v, ..r }
    } else if idx == 1 {
        Regs { c: v, ..r }
    } else if idx == 2 {
        Regs { d: v, ..r }
    } else if idx == 3 {
        Regs { e: v, ..r }
    } else if idx == 4 {
        match prefix {
            Prefix::DD => Regs { ix: word(v, lo_byte(r.ix)), ..r },
            Prefix::FD => Regs { iy: word(v, lo_byte(r.iy)), ..r },
            _ => Regs { h: v, ..r },
        }
    } else if idx == 5 {
        match prefix {
            Prefix::DD => Regs { ix: word(hi_byte(r.ix), v), ..r },
            Prefix::FD => Regs { iy: word(hi_byte(r.iy), v), ..r },
            _ => Regs { l: v, ..r },
        }
    } else {
        Regs { a: v, ..r }
    }
}

/// HL, or IX or IY under a `DD` or `FD` prefix
pub open spec fn hl_name(prefix: Prefix) -> RegName16 {
    match prefix {
        Prefix::DD => RegName16::IX,
        Prefix::FD => RegName16::IY,
        _ => RegName16::HL,
    }
}

/// Condition `y` of conditional jumps, calls and returns: NZ, Z, NC, C, PO, PE, P, M
pub open spec fn condition(f: u8, y: u8) -> bool {
    if y == 0 {
        f & FLAG_ZERO == 0
    } else if y == 1 {
        f & FLAG_ZERO != 0
    } else if y == 2 {
        f & FLAG_CARRY == 0
    } else if y == 3 {
        f & FLAG_CARRY != 0
    } else if y == 4 {
        f & FLAG_PV == 0
    } else if y == 5 {
        f & FLAG_PV != 0
    } else if y == 6 {
        f & FLAG_SIGN == 0
    } else {
        f & FLAG_SIGN != 0
    }
}

/// The address `base + d`, `d` a signed displacement byte
pub open spec fn displaced(base: u16, d: u8) -> u16 {
    add16(base, signed8(d as int))
}

pub(crate) fn get_r8(regs: &Regs, idx: u8, prefix: Prefix) -> (v: u8)
    ensures
        v == reg8(*regs, idx, prefix),
{
    match idx {
        0 => regs.b,
        1 => regs.c,
        2 => regs.d,
        3 => regs.e,
        4 => match prefix {
            Prefix::DD => split_word(regs.ix).0,
            Prefix::FD => split_word(regs.iy).0,
            _ => regs.h,
        },
        5 => match prefix {
            Prefix::DD => split_word(regs.ix).1,
            Prefix::FD => split_word(regs.iy).1,
            _ => regs.l,
        },
        _ => regs.a,
    }
}

pub(crate) fn set_r8(regs: &mut Regs, idx: u8, prefix: Prefix, v: u8)
    ensures
        *final(regs) == with_reg8(*old(regs), idx, prefix, v),
{
    match idx {
        0 => {
            regs.b = v;
        },
        1 => {
            regs.c = v;
        },
        2 => {
            regs.d = v;
        },
        3 => {
            regs.e = v;
        },
        4 => match prefix {
            Prefix::DD => {
                regs.ix = make_word(v, split_word(regs.ix).1);
            },
            Prefix::FD => {
                regs.iy = make_word(v, split_word(regs.iy).1);
            },
            _ => {
                regs.h = v;
            },
        },
        5 => match prefix {
            Prefix::DD => {
                regs.ix = make_word(split_word(regs.ix).0, v);
            },
            Prefix::FD => {
                regs.iy = make_word(split_word(regs.iy).0, v);
            },
            _ => {
                regs.l = v;
            },
        },
        _ => {
            regs.a = v;
        },
    }
}

pub(crate) fn hl_reg(prefix: Prefix) -> (n: RegName16)
    ensures
        n == hl_name(prefix),
{
    match prefix {
        Prefix::DD => RegName16::IX,
        Prefix::FD => RegName16::IY,
        _ => RegName16::HL,
    }
}

/// Whether condition `y` holds for the flags `f`
pub fn check_condition(f: u8, y: u8) -> (r: bool)
    ensures
        r == condition(f, y),
{
    match y {
        0 => f & FLAG_ZERO == 0,
        1 => f & FLAG_ZERO != 0,
        2 => f & FLAG_CARRY == 0,
        3 => f & FLAG_CARRY != 0,
        4 => f & FLAG_PV == 0,
        5 => f & FLAG_PV != 0,
        6 => f & FLAG_SIGN == 0,
        _ => f & FLAG_SIGN != 0,
    }
}

/// `base + d`, `d` a signed displacement byte
pub fn displace(base: u16, d: u8) -> (r: u16)
    ensures
        r == displaced(base, d),
{
    if d < 128 {
        wrapping_add16(base, d as u16)
    } else {
        wrapping_sub16(base, 256 - d as u16)
    }
}

/// I and R as the address that the processor puts on the bus during internal cycles
pub(crate) fn ir_addr(regs: &Regs) -> (a: u16)
    ensures
        a == word(regs.i, regs.r),
{
    make_word(regs.i, regs.r)
}

/// Pushes a register pair: SP goes down by two, the high byte is written below the old SP and
/// the low byte below that, each write taking `clk` cycles
#[verifier::rlimit(30)]
pub(crate) fn execute_push_16<B: Z80Bus>(cpu: &mut Z80, bus: &mut B, reg: RegName16, clk: usize)
    ensures
        (*final(cpu) == Z80 { regs: Regs { sp: add16(old(cpu).regs.sp, -2), ..old(cpu).regs }, ..*old(cpu) } && final(bus).calls() == old(bus).calls() + (push_writes(old(cpu).regs.sp, old(cpu).regs.reg16(reg), clk))),
{
    let v = cpu.regs.get_reg_16(reg);
    let (hi, lo) = split_word(v);
    let sp1 = wrapping_sub16(cpu.regs.sp, 1);
    bus.write(sp1, hi, clk);
    let sp2 = wrapping_sub16(sp1, 1);
    bus.write(sp2, lo, clk);
    cpu.regs.set_sp(sp2);
    assert(bus.calls() =~= old(bus).calls() + push_writes(old(cpu).regs.sp, old(cpu).regs.reg16(reg), clk));
}

/// The registers after a pop of `v` into `reg`: SP up by two, then `reg` set
pub open spec fn popped(r: Regs, reg: RegName16, v: u16) -> Regs {
    r.with_reg16(RegName16::SP, add16(r.sp, 2)).with_reg16(reg, v)
}

/// Pops a register pair: the low byte from SP, the high byte from the next address, and SP goes
/// up by two
#[verifier::rlimit(30)]
pub(crate) fn execute_pop_16<B: Z80Bus>(cpu: &mut Z80, bus: &mut B, reg: RegName16, clk: usize) -> (rs: Ghost<Seq<u8>>)
    requires
        reg != RegName16::SP,
    ensures
        rs@.len() == 2,
        (*final(cpu) == Z80 { regs: popped(old(cpu).regs, reg, word_at(rs@, 0)), ..*old(cpu) } && final(bus).calls() == old(bus).calls() + (pop_reads(old(cpu).regs.sp, rs@, clk))),
{
    let sp = cpu.regs.sp;
    let lo = bus.read(sp, clk);
    let sp1 = wrapping_add16(sp, 1);
    let hi = bus.read(sp1, clk);
    cpu.regs.set_sp(wrapping_add16(sp1, 1));
    let v = make_word(hi, lo);
    cpu.regs.set_reg_16(reg, v);
    let rs = Ghost(Seq::empty().push(lo).push(hi));
    assert(cpu.regs == popped(old(cpu).regs, reg, word_at(rs@, 0)));
    assert(bus.calls() =~= old(bus).calls() + pop_reads(old(cpu).regs.sp, rs@, clk));
    rs
}

/// The address of a memory operand: HL, or IX or IY plus a displacement byte read from the
/// instruction, followed by five cycles to add it; an indexed address goes to MEMPTR. Returns
/// the address and the bytes read.
#[verifier::rlimit(30)]
fn operand_addr<B: Z80Bus>(cpu: &mut Z80, bus: &mut B, prefix: Prefix) -> (res: (
    u16,
    Ghost<Seq<u8>>,
))
    ensures
        ({
            let (r1, addr, k) = memory_operand(old(cpu).regs, prefix, res.1@);
            &&& (*final(cpu) == Z80 { regs: r1, ..*old(cpu) } && final(bus).calls() == old(bus).calls() + (operand_reads(old(cpu).regs, prefix, res.1@)))
            &&& res.0 == addr
            &&& res.1@.len() == k
        }),
{
    match prefix {
        Prefix::DD | Prefix::FD => {
            let d_addr = cpu.regs.get_pc();
            let d = cpu.fetch_byte(bus, 3);
            bus.wait_loop(d_addr, 5);
            let base = cpu.regs.get_reg_16(hl_reg(prefix));
            let addr = displace(base, d);
            cpu.regs.set_mem_ptr(addr);
            assert(bus.calls() =~= old(bus).calls() + seq![
                BusAccess::Read(d_addr, d, 3),
                BusAccess::Wait(d_addr, 5),
            ]);
            (addr, Ghost(Seq::empty().push(d)))
        },
        _ => (cpu.regs.get_hl(), Ghost(Seq::empty())),
    }
}

/// Runs an instruction without a prefix, or after a `DD` or `FD` prefix. The opcode has been
/// fetched, and Q moved to `last_q`. Returns the bytes the instruction read after its opcode.
#[verifier::rlimit(60)]
pub(crate) fn execute_normal<B: Z80Bus>(
    cpu: &mut Z80,
    bus: &mut B,
    opcode: Opcode,
    prefix: Prefix,
) -> (rs: Ghost<Seq<u8>>)
    requires
        opcode.fields_of(opcode.byte),
        opcode.x < 4,
        opcode.y < 8,
        opcode.z < 8,
        opcode.p < 4,
        opcode.q < 2,
    ensures
        final(bus).calls() == old(bus).calls() + normal_transfers(state_of(*old(cpu)), opcode.byte, prefix, rs@),
        state_of(*final(cpu)) == normal_effect(state_of(*old(cpu)), opcode.byte, prefix, rs@),
        same_control(*old(cpu), *final(cpu)),
{
    reveal(normal_transfers);
    reveal(normal_effect);
    match opcode.x {
        0 => execute_x0(cpu, bus, opcode, prefix),
        1 => {
            if opcode.z == 6 && opcode.y == 6 {
                execute_halt(cpu, bus);
                Ghost(Seq::empty())
            } else {
                execute_ld_r_r(cpu, bus, opcode.y, opcode.z, prefix)
            }
        },
        2 => {
            let ghost s0 = state_of(*cpu);
            let (v, rs) = if opcode.z == 6 {
                let (addr, rs) = operand_addr(cpu, bus, prefix);
                let v = bus.read(addr, 3);
                (v, Ghost(rs@.push(v)))
            } else {
                (get_r8(&cpu.regs, opcode.z, prefix), Ghost(Seq::empty()))
            };
            alu_op(&mut cpu.regs, opcode.y, v);
            assert(state_of(*cpu) == effect_alu(s0, opcode.y, opcode.z, prefix, rs@));
            rs
        },
        _ => execute_x3(cpu, bus, opcode, prefix),
    }
}


/// The accumulator and flags after ALU operation `op` (ADD, ADC, SUB, SBC, AND, XOR, OR, CP)
/// with operand `v`
pub open spec fn alu_result(r: Regs, op: u8, v: u8) -> (u8, u8) {
    let c = r.f & FLAG_CARRY != 0;
    if op == 0 {
        (add8(r.a, v, false), add8_flags(r.a, v, false))
    } else if op == 1 {
        (add8(r.a, v, c), add8_flags(r.a, v, c))
    } else if op == 2 {
        (sub8(r.a, v, false), sub8_flags(r.a, v, false))
    } else if op == 3 {
        (sub8(r.a, v, c), sub8_flags(r.a, v, c))
    } else if op == 4 {
        (r.a & v, and_flags(r.a & v))
    } else if op == 5 {
        (r.a ^ v, or_flags(r.a ^ v))
    } else if op == 6 {
        (r.a | v, or_flags(r.a | v))
    } else {
        (r.a, cp_flags(r.a, v))
    }
}

/// ALU operation `op` on the accumulator with operand `v`
pub fn alu_op(regs: &mut Regs, op: u8, v: u8)
    ensures
        *final(regs) == (Regs {
            a: alu_result(*old(regs), op, v).0,
            f: alu_result(*old(regs), op, v).1,
            q: alu_result(*old(regs), op, v).1,
            ..*old(regs)
        }),
{
    let a = regs.a;
    let c = regs.f & FLAG_CARRY != 0;
    let (res, f) = match op {
        0 => add8_exec(a, v, false),
        1 => add8_exec(a, v, c),
        2 => sub8_exec(a, v, false),
        3 => sub8_exec(a, v, c),
        4 => {
            let r = a & v;
            (r, sz53_of(r) | FLAG_HALF | if parity_even(r) {
                FLAG_PV
            } else {
                0
            })
        },
        5 => {
            let r = a ^ v;
            (r, sz53_of(r) | if parity_even(r) {
                FLAG_PV
            } else {
                0
            })
        },
        6 => {
            let r = a | v;
            (r, sz53_of(r) | if parity_even(r) {
                FLAG_PV
            } else {
                0
            })
        },
        _ => (a, cp_exec(a, v)),
    };
    regs.a = res;
    regs.set_flags(f);
}

/// `HALT`: the processor halts, and the program counter goes back to the `HALT` so that it runs
/// again on the next step
#[verifier::rlimit(30)]
fn execute_halt<B: Z80Bus>(cpu: &mut Z80, bus: &mut B)
    ensures
        (*final(cpu) == Z80 { halted: true, regs: Regs { pc: add16(old(cpu).regs.pc, -1), ..old(cpu).regs }, ..*old(cpu) } && final(bus).calls() == old(bus).calls() + (if old(cpu).halted {
                seq![]
            } else {
                seq![BusAccess::Halt(true)]
            })),
{
    if !cpu.halted {
        bus.halt(true);
        cpu.halted = true;
    } else {
        assert(bus.calls() =~= bus.calls() + seq![]);
    }
    cpu.regs.set_pc(wrapping_sub16(cpu.regs.pc, 1));
}

/// `LD r,r'`, `LD r,(HL)` and `LD (HL),r`, and their indexed forms
#[verifier::rlimit(30)]
fn execute_ld_r_r<B: Z80Bus>(cpu: &mut Z80, bus: &mut B, y: u8, z: u8, prefix: Prefix) -> (rs: Ghost<
    Seq<u8>,
>)
    requires
        y < 8,
        z < 8,
        !(y == 6 && z == 6),
    ensures
        final(bus).calls() == old(bus).calls() + ld_transfers(state_of(*old(cpu)), y, z, prefix, rs@),
        state_of(*final(cpu)) == effect_ld(state_of(*old(cpu)), y, z, prefix, rs@),
        same_control(*old(cpu), *final(cpu)),
{
    let ghost s0 = state_of(*cpu);
    if z == 6 {
        // LD r,(HL): the register itself is never an index half
        let (addr, rs) = operand_addr(cpu, bus, prefix);
        let v = bus.read(addr, 3);
        set_r8(&mut cpu.regs, y, Prefix::NoPrefix, v);
        let rs = Ghost(rs@.push(v));
        assert(state_of(*cpu) == effect_ld(s0, y, z, prefix, rs@));
        rs
    } else if y == 6 {
        let (addr, rs) = operand_addr(cpu, bus, prefix);
        let v = get_r8(&cpu.regs, z, Prefix::NoPrefix);
        bus.write(addr, v, 3);
        assert(state_of(*cpu) == effect_ld(s0, y, z, prefix, rs@));
        rs
    } else {
        let v = get_r8(&cpu.regs, z, prefix);
        set_r8(&mut cpu.regs, y, prefix, v);
        Ghost(Seq::empty())
    }
}

/// Relative jump by the displacement byte at PC when `cond` holds; returns the byte read
#[verifier::rlimit(30)]
fn jump_relative<B: Z80Bus>(cpu: &mut Z80, bus: &mut B, cond: bool) -> (d: u8)
    ensures
        (*final(cpu) == Z80 { regs: relative_jump(old(cpu).regs, cond, d), ..*old(cpu) } && final(bus).calls() == old(bus).calls() + (relative_transfers(old(cpu).regs.pc, d, cond))),
{
    let d = cpu.fetch_byte(bus, 3);
    if cond {
        bus.wait_loop(wrapping_sub16(cpu.regs.pc, 1), 5);
        let target = displace(cpu.regs.pc, d);
        cpu.regs.set_pc(target);
        cpu.regs.set_mem_ptr(target);
    }
    assert(bus.calls() =~= old(bus).calls() + relative_transfers(old(cpu).regs.pc, d, cond));
    d
}

/// `NOP`, `EX AF,AF'`, `DJNZ`, `JR`, `JR cc`
#[verifier::rlimit(30)]
fn execute_x0_z0<B: Z80Bus>(cpu: &mut Z80, bus: &mut B, y: u8) -> (rs: Ghost<Seq<u8>>)
    requires
        y < 8,
    ensures
        final(bus).calls() == old(bus).calls() + x0_z0_transfers(state_of(*old(cpu)), y, rs@),
        state_of(*final(cpu)) == x0_z0(state_of(*old(cpu)), y, rs@),
        same_control(*old(cpu), *final(cpu)),
{
    match y {
        // NOP
        0 => Ghost(Seq::empty()),
        // EX AF,AF'
        1 => {
            cpu.regs.swap_af_alt();
            Ghost(Seq::empty())
        },
        // DJNZ d
        2 => djnz(cpu, bus),
        // JR d
        3 => {
            let d = jump_relative(cpu, bus, true);
            Ghost(Seq::empty().push(d))
        },
        // JR cc,d
        _ => {
            let cond = check_condition(cpu.regs.f, y - 4);
            let d = jump_relative(cpu, bus, cond);
            Ghost(Seq::empty().push(d))
        },
    }
}

/// `DJNZ d`: B counts down, and the jump is taken unless it reaches zero
#[verifier::rlimit(30)]
fn djnz<B: Z80Bus>(cpu: &mut Z80, bus: &mut B) -> (rs: Ghost<Seq<u8>>)
    ensures
        final(bus).calls() == old(bus).calls() + x0_z0_transfers(state_of(*old(cpu)), 2, rs@),
        state_of(*final(cpu)) == x0_z0(state_of(*old(cpu)), 2, rs@),
        same_control(*old(cpu), *final(cpu)),
{
    let ghost r0 = cpu.regs;
    bus.wait_loop(ir_addr(&cpu.regs), 1);
    let b = ((cpu.regs.b as u16 + 255) % 256) as u8;
    cpu.regs.b = b;
    let d = jump_relative(cpu, bus, b != 0);
    let rs = Ghost(Seq::empty().push(d));
    assert(bus.calls() =~= old(bus).calls() + (seq![BusAccess::Wait(ir(r0), 1)] + relative_transfers(r0.pc, d, b != 0)));
    rs
}

/// `LD rp,nn`, `ADD HL,rp`
#[verifier::rlimit(30)]
fn execute_x0_z1<B: Z80Bus>(cpu: &mut Z80, bus: &mut B, y: u8, prefix: Prefix) -> (rs: Ghost<Seq<u8>>)
    requires
        y < 8,
    ensures
        final(bus).calls() == old(bus).calls() + x0_z1_transfers(state_of(*old(cpu)), y, rs@),
        state_of(*final(cpu)) == x0_z1(state_of(*old(cpu)), y, prefix, rs@),
        same_control(*old(cpu), *final(cpu)),
{
    let p = y / 2;
    let q = y % 2;
    let rp = rp_name(p, prefix);
    if q == 0 {
        // LD rp,nn
        let (v, rs) = fetch_word_bytes(cpu, bus);
        cpu.regs.set_reg_16(rp, v);
        rs
    } else {
        // ADD HL,rp
        bus.wait_loop(ir_addr(&cpu.regs), 7);
        let hl_n = hl_reg(prefix);
        let hl = cpu.regs.get_reg_16(hl_n);
        let v = cpu.regs.get_reg_16(rp);
        let (res, f) = add16_exec(hl, v, cpu.regs.f);
        cpu.regs.set_mem_ptr(wrapping_add16(hl, 1));
        cpu.regs.set_reg_16(hl_n, res);
        cpu.regs.set_flags(f);
        Ghost(Seq::empty())
    }
}

/// The loads between A or HL and memory
#[verifier::rlimit(30)]
fn execute_x0_z2<B: Z80Bus>(cpu: &mut Z80, bus: &mut B, y: u8, prefix: Prefix) -> (rs: Ghost<Seq<u8>>)
    requires
        y < 8,
    ensures
        final(bus).calls() == old(bus).calls() + x0_z2_transfers(state_of(*old(cpu)), y, prefix, rs@),
        state_of(*final(cpu)) == x0_z2(state_of(*old(cpu)), y, prefix, rs@),
        same_control(*old(cpu), *final(cpu)),
{
    if y < 4 {
        load_indirect(cpu, bus, y, prefix)
    } else {
        load_direct(cpu, bus, y, prefix)
    }
}

/// `LD (BC),A`, `LD A,(BC)`, `LD (DE),A`, `LD A,(DE)`
#[verifier::rlimit(30)]
fn load_indirect<B: Z80Bus>(cpu: &mut Z80, bus: &mut B, y: u8, prefix: Prefix) -> (rs: Ghost<Seq<u8>>)
    requires
        y < 4,
    ensures
        final(bus).calls() == old(bus).calls() + x0_z2_transfers(state_of(*old(cpu)), y, prefix, rs@),
        state_of(*final(cpu)) == x0_z2(state_of(*old(cpu)), y, prefix, rs@),
        same_control(*old(cpu), *final(cpu)),
{
    match y {
        // LD (BC),A / LD (DE),A
        0 | 2 => {
            let addr = if y == 0 {
                cpu.regs.get_bc()
            } else {
                cpu.regs.get_de()
            };
            let a = cpu.regs.a;
            bus.write(addr, a, 3);
            cpu.regs.set_mem_ptr(make_word(a, ((split_word(addr).1 as u16 + 1) % 256) as u8));
            Ghost(Seq::empty())
        },
        // LD A,(BC) / LD A,(DE)
        _ => {
            let addr = if y == 1 {
                cpu.regs.get_bc()
            } else {
                cpu.regs.get_de()
            };
            let v = bus.read(addr, 3);
            cpu.regs.a = v;
            cpu.regs.set_mem_ptr(wrapping_add16(addr, 1));
            Ghost(Seq::empty().push(v))
        },
    }
}

/// `LD (nn),HL`, `LD HL,(nn)`, `LD (nn),A`, `LD A,(nn)`
#[verifier::rlimit(30)]
fn load_direct<B: Z80Bus>(cpu: &mut Z80, bus: &mut B, y: u8, prefix: Prefix) -> (rs: Ghost<Seq<u8>>)
    requires
        4 <= y < 8,
    ensures
        final(bus).calls() == old(bus).calls() + x0_z2_transfers(state_of(*old(cpu)), y, prefix, rs@),
        state_of(*final(cpu)) == x0_z2(state_of(*old(cpu)), y, prefix, rs@),
        same_control(*old(cpu), *final(cpu)),
{
    match y {
        // LD (nn),HL
        4 => {
            let (addr, rs) = fetch_word_bytes(cpu, bus);
            let v = cpu.regs.get_reg_16(hl_reg(prefix));
            bus.write_word(addr, v, 3);
            cpu.regs.set_mem_ptr(wrapping_add16(addr, 1));
            rs
        },
        // LD HL,(nn)
        5 => {
            let (addr, rs) = fetch_word_bytes(cpu, bus);
            let v = bus.read_word(addr, 3);
            cpu.regs.set_reg_16(hl_reg(prefix), v);
            cpu.regs.set_mem_ptr(wrapping_add16(addr, 1));
            let rs = Ghost(rs@ + Seq::empty().push(lo_byte(v)).push(hi_byte(v)));
            assert(word_at(rs@, 2) == v);
            rs
        },
        // LD (nn),A
        6 => {
            let (addr, rs) = fetch_word_bytes(cpu, bus);
            let a = cpu.regs.a;
            bus.write(addr, a, 3);
            cpu.regs.set_mem_ptr(make_word(a, ((split_word(addr).1 as u16 + 1) % 256) as u8));
            rs
        },
        // LD A,(nn)
        _ => {
            let (addr, rs) = fetch_word_bytes(cpu, bus);
            let v = bus.read(addr, 3);
            cpu.regs.a = v;
            cpu.regs.set_mem_ptr(wrapping_add16(addr, 1));
            Ghost(rs@.push(v))
        },
    }
}

/// `INC rp`, `DEC rp`
#[verifier::rlimit(30)]
fn execute_x0_z3<B: Z80Bus>(cpu: &mut Z80, bus: &mut B, y: u8, prefix: Prefix) -> (rs: Ghost<Seq<u8>>)
    requires
        y < 8,
    ensures
        final(bus).calls() == old(bus).calls() + seq![BusAccess::Wait(ir(old(cpu).regs), 2)],
        state_of(*final(cpu)) == x0_z3(state_of(*old(cpu)), y, prefix),
        same_control(*old(cpu), *final(cpu)),
{
    let p = y / 2;
    let q = y % 2;
    // INC rp / DEC rp
    bus.wait_loop(ir_addr(&cpu.regs), 2);
    let rp = rp_name(p, prefix);
    let v = cpu.regs.get_reg_16(rp);
    let nv = if q == 0 {
        wrapping_add16(v, 1)
    } else {
        wrapping_sub16(v, 1)
    };
    cpu.regs.set_reg_16(rp, nv);
    Ghost(Seq::empty())
}

/// `INC r`, `DEC r`
#[verifier::rlimit(30)]
fn execute_x0_z45<B: Z80Bus>(cpu: &mut Z80, bus: &mut B, y: u8, z: u8, prefix: Prefix) -> (rs: Ghost<Seq<u8>>)
    requires
        y < 8,
        z == 4 || z == 5,
    ensures
        final(bus).calls() == old(bus).calls() + x0_z45_transfers(state_of(*old(cpu)), y, z, prefix, rs@),
        state_of(*final(cpu)) == x0_z45(state_of(*old(cpu)), y, z, prefix, rs@),
        same_control(*old(cpu), *final(cpu)),
{
    if y == 6 {
        inc_dec_memory(cpu, bus, z, prefix)
    } else {
        let v = get_r8(&cpu.regs, y, prefix);
        let (res, f) = if z == 4 {
            inc8_exec(v, cpu.regs.f)
        } else {
            dec8_exec(v, cpu.regs.f)
        };
        set_r8(&mut cpu.regs, y, prefix, res);
        cpu.regs.set_flags(f);
        Ghost(Seq::empty())
    }
}

/// `INC (HL)`, `DEC (HL)` and their indexed forms
#[verifier::rlimit(30)]
fn inc_dec_memory<B: Z80Bus>(cpu: &mut Z80, bus: &mut B, z: u8, prefix: Prefix) -> (rs: Ghost<Seq<u8>>)
    requires
        z == 4 || z == 5,
    ensures
        final(bus).calls() == old(bus).calls() + x0_z45_transfers(state_of(*old(cpu)), 6, z, prefix, rs@),
        state_of(*final(cpu)) == x0_z45(state_of(*old(cpu)), 6, z, prefix, rs@),
        same_control(*old(cpu), *final(cpu)),
{
    let ghost s0 = state_of(*cpu);
    let (addr, rs) = operand_addr(cpu, bus, prefix);
    let ghost rs_op = rs@;
    let v = bus.read(addr, 3);
    bus.wait_loop(addr, 1);
    let (res, f) = if z == 4 {
        inc8_exec(v, cpu.regs.f)
    } else {
        dec8_exec(v, cpu.regs.f)
    };
    bus.write(addr, res, 3);
    cpu.regs.set_flags(f);
    let rs = Ghost(rs@.push(v));
    assert(state_of(*cpu) == x0_z45(s0, 6, z, prefix, rs@));
    assert(operand_reads(s0.regs, prefix, rs@) == operand_reads(s0.regs, prefix, rs_op));
    assert(rs@[rs_op.len() as int] == v);
    assert(bus.calls() =~= old(bus).calls() + x0_z45_transfers(s0, 6, z, prefix, rs@));
    rs
}

/// `LD r,n`
#[verifier::rlimit(30)]
fn execute_x0_z6<B: Z80Bus>(cpu: &mut Z80, bus: &mut B, y: u8, prefix: Prefix) -> (rs: Ghost<Seq<u8>>)
    requires
        y < 8,
    ensures
        final(bus).calls() == old(bus).calls() + x0_z6_transfers(state_of(*old(cpu)), y, prefix, rs@),
        state_of(*final(cpu)) == x0_z6(state_of(*old(cpu)), y, prefix, rs@),
        same_control(*old(cpu), *final(cpu)),
{
    // LD r,n
    if y == 6 {
        load_memory_immediate(cpu, bus, prefix)
    } else {
        let n = cpu.fetch_byte(bus, 3);
        set_r8(&mut cpu.regs, y, prefix, n);
        Ghost(Seq::empty().push(n))
    }
}

/// `LD (HL),n`, `LD (IX+d),n`, `LD (IY+d),n`
#[verifier::rlimit(30)]
fn load_memory_immediate<B: Z80Bus>(cpu: &mut Z80, bus: &mut B, prefix: Prefix) -> (rs: Ghost<Seq<u8>>)
    ensures
        final(bus).calls() == old(bus).calls() + x0_z6_transfers(state_of(*old(cpu)), 6, prefix, rs@),
        state_of(*final(cpu)) == x0_z6(state_of(*old(cpu)), 6, prefix, rs@),
        same_control(*old(cpu), *final(cpu)),
{
    let ghost s0 = state_of(*cpu);
    let indexed = prefix == Prefix::DD || prefix == Prefix::FD;
    let (addr, rs) = match prefix {
        Prefix::DD | Prefix::FD => {
            let d = cpu.fetch_byte(bus, 3);
            let base = cpu.regs.get_reg_16(hl_reg(prefix));
            let addr = displace(base, d);
            cpu.regs.set_mem_ptr(addr);
            (addr, Ghost(Seq::empty().push(d)))
        },
        _ => (cpu.regs.get_hl(), Ghost(Seq::empty())),
    };
    let n_addr = cpu.regs.get_pc();
    let n = cpu.fetch_byte(bus, 3);
    if indexed {
        bus.wait_loop(n_addr, 2);
    }
    bus.write(addr, n, 3);
    let rs = Ghost(rs@.push(n));
    assert(bus.calls() =~= old(bus).calls() + x0_z6_transfers(s0, 6, prefix, rs@));
    rs
}

/// Instructions with `x = 0`
#[verifier::rlimit(30)]
fn execute_x0<B: Z80Bus>(cpu: &mut Z80, bus: &mut B, opcode: Opcode, prefix: Prefix) -> (rs: Ghost<
    Seq<u8>,
>)
    requires
        opcode.x == 0,
        opcode.y < 8,
        opcode.z < 8,
    ensures
        final(bus).calls() == old(bus).calls() + x0_transfers(state_of(*old(cpu)), opcode.y, opcode.z, prefix, rs@),
        state_of(*final(cpu)) == effect_x0(state_of(*old(cpu)), opcode.y, opcode.z, prefix, rs@),
        same_control(*old(cpu), *final(cpu)),
{
    let y = opcode.y;
    match opcode.z {
        0 => execute_x0_z0(cpu, bus, y),
        1 => execute_x0_z1(cpu, bus, y, prefix),
        2 => execute_x0_z2(cpu, bus, y, prefix),
        3 => execute_x0_z3(cpu, bus, y, prefix),
        4 | 5 => execute_x0_z45(cpu, bus, y, opcode.z, prefix),
        6 => execute_x0_z6(cpu, bus, y, prefix),
        _ => {
            execute_accumulator_op(&mut cpu.regs, y);
            Ghost(Seq::empty())
        },
    }
}

/// Fetches a word operand: returns it and its two bytes, low first
#[verifier::rlimit(30)]
fn fetch_word_bytes<B: Z80Bus>(cpu: &mut Z80, bus: &mut B) -> (res: (u16, Ghost<Seq<u8>>))
    ensures
        (*final(cpu) == Z80 { regs: advanced(old(cpu).regs, 2), ..*old(cpu) } && final(bus).calls() == old(bus).calls() + (word_fetch(old(cpu).regs.pc, res.1@))),
        res.1@.len() == 2,
        res.0 == word_at(res.1@, 0),
{
    let v = cpu.fetch_word(bus, 3);
    (v, Ghost(Seq::empty().push(lo_byte(v)).push(hi_byte(v))))
}


/// Register pair `p` of `LD rp,nn`, `INC rp`, `DEC rp` and `ADD HL,rp`: BC, DE, HL (or IX, IY),
/// SP
pub open spec fn rp_of(p: u8, prefix: Prefix) -> RegName16 {
    if p == 0 {
        RegName16::BC
    } else if p == 1 {
        RegName16::DE
    } else if p == 2 {
        hl_name(prefix)
    } else {
        RegName16::SP
    }
}

/// Register pair `p` of `PUSH` and `POP`: BC, DE, HL (or IX, IY), AF
pub open spec fn rp2_of(p: u8, prefix: Prefix) -> RegName16 {
    if p == 3 {
        RegName16::AF
    } else {
        rp_of(p, prefix)
    }
}

fn rp_name(p: u8, prefix: Prefix) -> (n: RegName16)
    ensures
        n == rp_of(p, prefix),
{
    match p {
        0 => RegName16::BC,
        1 => RegName16::DE,
        2 => hl_reg(prefix),
        _ => RegName16::SP,
    }
}

fn rp2_name(p: u8, prefix: Prefix) -> (n: RegName16)
    requires
        p < 4,
    ensures
        n == rp2_of(p, prefix),
        n != RegName16::SP,
{
    match p {
        0 => RegName16::BC,
        1 => RegName16::DE,
        2 => hl_reg(prefix),
        _ => RegName16::AF,
    }
}

/// Result of a 16-bit addition `a + v`
pub open spec fn add16_result(a: u16, v: u16) -> u16 {
    ((a + v) % 0x10000) as u16
}

/// Flags after `ADD HL,rp`: S, Z and P/V kept from `f`; H on a carry out of bit 11; N reset; C
/// on a carry out of bit 15; bits 3 and 5 from the high byte of the result
pub open spec fn add16_flags(a: u16, v: u16, f: u8) -> u8 {
    (f & (FLAG_SIGN | FLAG_ZERO | FLAG_PV)) | flag_if(a % 0x1000 + v % 0x1000 >= 0x1000, FLAG_HALF)
        | flag_if(a + v >= 0x10000, FLAG_CARRY) | xy_bits(hi_byte(add16_result(a, v)))
}

/// `ADD HL,rp`: the result and the flags
pub fn add16_exec(a: u16, v: u16, f: u8) -> (r: (u16, u8))
    ensures
        r.0 == add16_result(a, v),
        r.1 == add16_flags(a, v, f),
{
    let sum: u32 = a as u32 + v as u32;
    let res: u16 = (sum % 0x10000) as u16;
    let h: u8 = if (a % 0x1000) as u32 + (v % 0x1000) as u32 >= 0x1000 {
        FLAG_HALF
    } else {
        0
    };
    let c: u8 = if sum >= 0x10000 {
        FLAG_CARRY
    } else {
        0
    };
    ((res, (f & (FLAG_SIGN | FLAG_ZERO | FLAG_PV)) | h | c | (split_word(res).0 & (FLAG_F5
        | FLAG_F3))))
}

/// The registers after one of `RLCA`, `RRCA`, `RLA`, `RRA`, `DAA`, `CPL`, `SCF`, `CCF`
/// (`y` = 0 to 7)
pub open spec fn accumulator_op(r: Regs, y: u8) -> Regs {
    let kept = r.f & (FLAG_SIGN | FLAG_ZERO | FLAG_PV);
    let c = r.f & FLAG_CARRY != 0;
    let a = r.a as int;
    if y == 0 {
        let res = ((a * 2) % 256 + a / 128) as u8;
        let f = kept | xy_bits(res) | flag_if(a >= 128, FLAG_CARRY);
        Regs { a: res, f, q: f, ..r }
    } else if y == 1 {
        let res = (a / 2 + (a % 2) * 128) as u8;
        let f = kept | xy_bits(res) | flag_if(a % 2 == 1, FLAG_CARRY);
        Regs { a: res, f, q: f, ..r }
    } else if y == 2 {
        let res = ((a * 2) % 256 + (if c {
            1int
        } else {
            0int
        })) as u8;
        let f = kept | xy_bits(res) | flag_if(a >= 128, FLAG_CARRY);
        Regs { a: res, f, q: f, ..r }
    } else if y == 3 {
        let res = (a / 2 + (if c {
            128int
        } else {
            0int
        })) as u8;
        let f = kept | xy_bits(res) | flag_if(a % 2 == 1, FLAG_CARRY);
        Regs { a: res, f, q: f, ..r }
    } else if y == 4 {
        let (res, f) = daa_result(r.a, r.f);
        Regs { a: res, f, q: f, ..r }
    } else if y == 5 {
        let res = (255 - a) as u8;
        let f = (r.f & (FLAG_SIGN | FLAG_ZERO | FLAG_PV | FLAG_CARRY)) | FLAG_HALF | FLAG_SUB
            | xy_bits(res);
        Regs { a: res, f, q: f, ..r }
    } else if y == 6 {
        let f = kept | FLAG_CARRY | xy_bits((r.last_q ^ r.f) | r.a);
        Regs { f, q: f, ..r }
    } else {
        let f = kept | flag_if(c, FLAG_HALF) | flag_if(!c, FLAG_CARRY) | xy_bits(
            (r.last_q ^ r.f) | r.a,
        );
        Regs { f, q: f, ..r }
    }
}

/// `DAA`: the correction is 6 for the low digit when H is set or it is over 9, and 0x60 for the
/// high digit when C is set or A is over 0x99; it is added after an addition and subtracted
/// after a subtraction. C is set when the high digit was corrected, H reflects the carry or
/// borrow out of the low digit, N is kept, S, Z, P/V and bits 3 and 5 follow the result.
pub open spec fn daa_result(a: u8, f: u8) -> (u8, u8) {
    let lo = a % 16;
    let h = f & FLAG_HALF != 0;
    let c = f & FLAG_CARRY != 0;
    let n = f & FLAG_SUB != 0;
    let high = c || a > 0x99;
    let diff: int = (if h || lo > 9 {
        6int
    } else {
        0int
    }) + (if high {
        0x60int
    } else {
        0int
    });
    let res = (if n {
        (a - diff + 256) % 256
    } else {
        (a + diff) % 256
    }) as u8;
    let half = if n {
        h && lo < 6
    } else {
        lo > 9
    };
    (res, sz53(res) | flag_if(even_parity(res), FLAG_PV) | flag_if(half, FLAG_HALF) | (f & FLAG_SUB)
        | flag_if(high, FLAG_CARRY))
}

/// One of `RLCA`, `RRCA`, `RLA`, `RRA`, `DAA`, `CPL`, `SCF`, `CCF` (`y` = 0 to 7)
pub fn execute_accumulator_op(regs: &mut Regs, y: u8)
    ensures
        *final(regs) == accumulator_op(*old(regs), y),
{
    let kept = regs.f & (FLAG_SIGN | FLAG_ZERO | FLAG_PV);
    let c = regs.f & FLAG_CARRY != 0;
    let a = regs.a;
    match y {
        0 => {
            let res = ((a as u16 * 2) % 256 + a as u16 / 128) as u8;
            regs.a = res;
            regs.set_flags(kept | (res & (FLAG_F5 | FLAG_F3)) | if a >= 128 {
                FLAG_CARRY
            } else {
                0
            });
        },
        1 => {
            let res = (a / 2 + (a % 2) * 128) as u8;
            regs.a = res;
            regs.set_flags(kept | (res & (FLAG_F5 | FLAG_F3)) | if a % 2 == 1 {
                FLAG_CARRY
            } else {
                0
            });
        },
        2 => {
            let res = ((a as u16 * 2) % 256 + if c {
                1
            } else {
                0
            }) as u8;
            regs.a = res;
            regs.set_flags(kept | (res & (FLAG_F5 | FLAG_F3)) | if a >= 128 {
                FLAG_CARRY
            } else {
                0
            });
        },
        3 => {
            let res = (a / 2 + if c {
                128
            } else {
                0
            }) as u8;
            regs.a = res;
            regs.set_flags(kept | (res & (FLAG_F5 | FLAG_F3)) | if a % 2 == 1 {
                FLAG_CARRY
            } else {
                0
            });
        },
        4 => {
            let (res, f) = daa_exec(a, regs.f);
            regs.a = res;
            regs.set_flags(f);
        },
        5 => {
            let res = 255 - a;
            regs.a = res;
            regs.set_flags(
                (regs.f & (FLAG_SIGN | FLAG_ZERO | FLAG_PV | FLAG_CARRY)) | FLAG_HALF | FLAG_SUB | (res
                    & (FLAG_F5 | FLAG_F3)),
            );
        },
        6 => {
            let xy = ((regs.last_q ^ regs.f) | a) & (FLAG_F5 | FLAG_F3);
            regs.set_flags(kept | FLAG_CARRY | xy);
        },
        _ => {
            let xy = ((regs.last_q ^ regs.f) | a) & (FLAG_F5 | FLAG_F3);
            regs.set_flags(kept | (if c {
                FLAG_HALF
            } else {
                0
            }) | (if !c {
                FLAG_CARRY
            } else {
                0
            }) | xy);
        },
    }
}

/// `DAA`: the result and the flags
pub fn daa_exec(a: u8, f: u8) -> (r: (u8, u8))
    ensures
        r == daa_result(a, f),
{
    let lo = a % 16;
    let h = f & FLAG_HALF != 0;
    let c = f & FLAG_CARRY != 0;
    let n = f & FLAG_SUB != 0;
    let high = c || a > 0x99;
    let diff: u16 = (if h || lo > 9 {
        6
    } else {
        0
    }) + (if high {
        0x60
    } else {
        0
    });
    let res: u8 = if n {
        ((a as u16 + 256 - diff) % 256) as u8
    } else {
        ((a as u16 + diff) % 256) as u8
    };
    let half = if n {
        h && lo < 6
    } else {
        lo > 9
    };
    (res, sz53_of(res) | (if parity_even(res) {
        FLAG_PV
    } else {
        0
    }) | (if half {
        FLAG_HALF
    } else {
        0
    }) | (f & FLAG_SUB) | (if high {
        FLAG_CARRY
    } else {
        0
    }))
}

/// Calls `target`: the address after the instruction is pushed
#[verifier::rlimit(30)]
fn call<B: Z80Bus>(cpu: &mut Z80, bus: &mut B, target: u16)
    ensures
        (*final(cpu) == Z80 { regs: Regs { sp: add16(old(cpu).regs.sp, -2), pc: target, ..old(cpu).regs }, ..*old(cpu) } && final(bus).calls() == old(bus).calls() + (call_transfers(old(cpu).regs, old(cpu).regs.pc))),
{
    bus.wait_loop(wrapping_sub16(cpu.regs.pc, 1), 1);
    execute_push_16(cpu, bus, RegName16::PC, 3);
    cpu.regs.set_pc(target);
    assert(bus.calls() =~= old(bus).calls() + call_transfers(old(cpu).regs, old(cpu).regs.pc));
}

/// Returns: pops the program counter, which also goes to MEMPTR; returns the bytes read
#[verifier::rlimit(30)]
fn ret<B: Z80Bus>(cpu: &mut Z80, bus: &mut B) -> (rs: Ghost<Seq<u8>>)
    ensures
        (*final(cpu) == Z80 { regs: returned(old(cpu).regs, rs@), ..*old(cpu) } && final(bus).calls() == old(bus).calls() + (pop_reads(old(cpu).regs.sp, rs@, 3))),
{
    let ghost r0 = cpu.regs;
    let sp = cpu.regs.sp;
    let lo = bus.read(sp, 3);
    let sp1 = wrapping_add16(sp, 1);
    let hi = bus.read(sp1, 3);
    cpu.regs.set_sp(wrapping_add16(sp1, 1));
    let v = make_word(hi, lo);
    cpu.regs.set_pc(v);
    cpu.regs.set_mem_ptr(v);
    let rs = Ghost(Seq::empty().push(lo).push(hi));
    assert(cpu.regs == returned(r0, rs@));
    assert(bus.calls() =~= old(bus).calls() + pop_reads(old(cpu).regs.sp, rs@, 3));
    rs
}

/// `RET cc`, `POP`, `RET`, `EXX`, `JP (HL)`, `LD SP,HL`
#[verifier::rlimit(30)]
fn execute_x3_z01<B: Z80Bus>(cpu: &mut Z80, bus: &mut B, y: u8, z: u8, prefix: Prefix) -> (rs: Ghost<Seq<u8>>)
    requires
        y < 8,
        z <= 1,
    ensures
        final(bus).calls() == old(bus).calls() + x3_z01_transfers(state_of(*old(cpu)), y, z, rs@),
        state_of(*final(cpu)) == x3_z01(state_of(*old(cpu)), y, z, prefix, rs@),
        same_control(*old(cpu), *final(cpu)),
{
    let ghost s0 = state_of(*cpu);
    if z == 0 {
        // RET cc
        bus.wait_loop(ir_addr(&cpu.regs), 1);
        if check_condition(cpu.regs.f, y) {
            let rs = ret(cpu, bus);
            assert(bus.calls() =~= old(bus).calls() + x3_z01_transfers(s0, y, z, rs@));
            rs
        } else {
            Ghost(Seq::empty())
        }
    } else {
        execute_x3_z1(cpu, bus, y, prefix)
    }
}

/// `POP`, `RET`, `EXX`, `JP (HL)`, `LD SP,HL`
#[verifier::rlimit(30)]
fn execute_x3_z1<B: Z80Bus>(cpu: &mut Z80, bus: &mut B, y: u8, prefix: Prefix) -> (rs: Ghost<Seq<u8>>)
    requires
        y < 8,
    ensures
        final(bus).calls() == old(bus).calls() + x3_z01_transfers(state_of(*old(cpu)), y, 1, rs@),
        state_of(*final(cpu)) == x3_z01(state_of(*old(cpu)), y, 1, prefix, rs@),
        same_control(*old(cpu), *final(cpu)),
{
    let ghost s0 = state_of(*cpu);
    let p = y / 2;
    if y % 2 == 0 {
        // POP rp2
        let reg = rp2_name(p, prefix);
        execute_pop_16(cpu, bus, reg, 3)
    } else {
        match p {
            // RET
            0 => {
                let rs = ret(cpu, bus);
                assert(bus.calls() =~= old(bus).calls() + x3_z01_transfers(s0, y, 1, rs@));
                rs
            },
            // EXX
            1 => {
                cpu.regs.exx();
                Ghost(Seq::empty())
            },
            // JP (HL)
            2 => {
                let v = cpu.regs.get_reg_16(hl_reg(prefix));
                cpu.regs.set_pc(v);
                Ghost(Seq::empty())
            },
            // LD SP,HL
            _ => {
                bus.wait_loop(ir_addr(&cpu.regs), 2);
                let v = cpu.regs.get_reg_16(hl_reg(prefix));
                cpu.regs.set_sp(v);
                Ghost(Seq::empty())
            },
        }
    }
}

/// `JP nn`, `OUT (n),A`, `IN A,(n)`, `EX (SP),HL`, `EX DE,HL`, `DI`, `EI`
#[verifier::rlimit(60)]
fn execute_x3_z3<B: Z80Bus>(cpu: &mut Z80, bus: &mut B, opcode: Opcode, prefix: Prefix) -> (rs: Ghost<Seq<u8>>)
    requires
        opcode.fields_of(opcode.byte),
        opcode.x == 3,
        opcode.z == 3,
        opcode.y < 8,
    ensures
        final(bus).calls() == old(bus).calls() + x3_z3_transfers(state_of(*old(cpu)), opcode.y, prefix, rs@),
        state_of(*final(cpu)) == x3_z3(state_of(*old(cpu)), opcode.y, prefix, rs@),
        same_control(*old(cpu), *final(cpu)),
{
    match opcode.y {
        0 => jump_absolute(cpu, bus),
        2 => out_n_a(cpu, bus),
        3 => in_a_n(cpu, bus),
        4 => ex_sp_hl(cpu, bus, prefix),
        5 => {
            // EX DE,HL
            let (d, e, h, l) = (cpu.regs.d, cpu.regs.e, cpu.regs.h, cpu.regs.l);
            cpu.regs.d = h;
            cpu.regs.e = l;
            cpu.regs.h = d;
            cpu.regs.l = e;
            Ghost(Seq::empty())
        },
        6 | 7 => {
            // DI / EI
            let enable = opcode.y == 7;
            cpu.regs.set_iff1(enable);
            cpu.regs.set_iff2(enable);
            cpu.skip_interrupt = true;
            Ghost(Seq::empty())
        },
        _ => {
            // CB prefix: decoded before an instruction gets here
            assert(opcode.byte == 0xCB);
            bus.process_unknown_opcode(prefix, opcode);
            assert(bus.calls() =~= old(bus).calls() + seq![BusAccess::Unknown(prefix, 0xCB)]);
            Ghost(Seq::empty())
        },
    }
}

/// `JP nn`
#[verifier::rlimit(30)]
fn jump_absolute<B: Z80Bus>(cpu: &mut Z80, bus: &mut B) -> (rs: Ghost<Seq<u8>>)
    ensures
        (*final(cpu) == Z80 { regs: Regs { pc: word_at(rs@, 0), mem_ptr: word_at(rs@, 0), ..old(cpu).regs }, ..*old(cpu) } && final(bus).calls() == old(bus).calls() + (word_fetch(old(cpu).regs.pc, rs@))),
{
    let (addr, rs) = fetch_word_bytes(cpu, bus);
    cpu.regs.set_mem_ptr(addr);
    cpu.regs.set_pc(addr);
    rs
}

/// `OUT (n),A`
#[verifier::rlimit(30)]
fn out_n_a<B: Z80Bus>(cpu: &mut Z80, bus: &mut B) -> (rs: Ghost<Seq<u8>>)
    ensures
        (*final(cpu) == Z80 { regs: Regs { pc: add16(old(cpu).regs.pc, 1), mem_ptr: word(old(cpu).regs.a, ((rs@[0] + 1) % 256) as u8), ..old(cpu).regs }, ..*old(cpu) } && final(bus).calls() == old(bus).calls() + (seq![BusAccess::Read(old(cpu).regs.pc, rs@[0], 3), BusAccess::PortWrite(word(old(cpu).regs.a, rs@[0]), old(cpu).regs.a)])),
{
    let n = cpu.fetch_byte(bus, 3);
    let a = cpu.regs.a;
    bus.write_io(make_word(a, n), a);
    cpu.regs.set_mem_ptr(make_word(a, ((n as u16 + 1) % 256) as u8));
    assert(bus.calls() =~= old(bus).calls() + seq![BusAccess::Read(old(cpu).regs.pc, n, 3), BusAccess::PortWrite(word(old(cpu).regs.a, n), old(cpu).regs.a)]);
    Ghost(Seq::empty().push(n))
}

/// `IN A,(n)`
#[verifier::rlimit(30)]
fn in_a_n<B: Z80Bus>(cpu: &mut Z80, bus: &mut B) -> (rs: Ghost<Seq<u8>>)
    ensures
        (*final(cpu) == Z80 { regs: Regs { pc: add16(old(cpu).regs.pc, 1), a: rs@[1], mem_ptr: add16(word(old(cpu).regs.a, rs@[0]), 1), ..old(cpu).regs }, ..*old(cpu) } && final(bus).calls() == old(bus).calls() + (seq![BusAccess::Read(old(cpu).regs.pc, rs@[0], 3), BusAccess::PortRead(word(old(cpu).regs.a, rs@[0]), rs@[1])])),
{
    let n = cpu.fetch_byte(bus, 3);
    let port = make_word(cpu.regs.a, n);
    let v = bus.read_io(port);
    cpu.regs.a = v;
    cpu.regs.set_mem_ptr(wrapping_add16(port, 1));
    assert(bus.calls() =~= old(bus).calls() + seq![BusAccess::Read(old(cpu).regs.pc, n, 3), BusAccess::PortRead(word(old(cpu).regs.a, n), v)]);
    Ghost(Seq::empty().push(n).push(v))
}

/// `EX (SP),HL`
#[verifier::rlimit(30)]
fn ex_sp_hl<B: Z80Bus>(cpu: &mut Z80, bus: &mut B, prefix: Prefix) -> (rs: Ghost<Seq<u8>>)
    ensures
        (*final(cpu) == Z80 { regs: Regs { mem_ptr: word_at(rs@, 0), ..old(cpu).regs.with_reg16(hl_name(prefix), word_at(rs@, 0)) }, ..*old(cpu) } && final(bus).calls() == old(bus).calls() + (seq![
                BusAccess::Read(old(cpu).regs.sp, rs@[0], 3),
                BusAccess::Read(add16(old(cpu).regs.sp, 1), rs@[1], 4),
                BusAccess::Write(add16(old(cpu).regs.sp, 1), hi_byte(old(cpu).regs.reg16(hl_name(prefix))), 3),
                BusAccess::Write(old(cpu).regs.sp, lo_byte(old(cpu).regs.reg16(hl_name(prefix))), 3),
                BusAccess::Wait(old(cpu).regs.sp, 2),
            ])),
{
    let sp = cpu.regs.sp;
    let hl_n = hl_reg(prefix);
    let old_v = cpu.regs.get_reg_16(hl_n);
    let lo = bus.read(sp, 3);
    let sp1 = wrapping_add16(sp, 1);
    let hi = bus.read(sp1, 4);
    let (old_hi, old_lo) = split_word(old_v);
    bus.write(sp1, old_hi, 3);
    bus.write(sp, old_lo, 3);
    bus.wait_loop(sp, 2);
    let v = make_word(hi, lo);
    cpu.regs.set_reg_16(hl_n, v);
    cpu.regs.set_mem_ptr(v);
    let rs: Ghost<Seq<u8>> = Ghost(Seq::empty().push(lo).push(hi));
    assert(word_at(rs@, 0) == v);
    assert(old_v == old(cpu).regs.reg16(hl_name(prefix)));
    assert(bus.calls() =~= old(bus).calls() + seq![
        BusAccess::Read(sp, lo, 3),
        BusAccess::Read(sp1, hi, 4),
        BusAccess::Write(sp1, old_hi, 3),
        BusAccess::Write(sp, old_lo, 3),
        BusAccess::Wait(sp, 2),
    ]);
    rs
}

/// `JP cc,nn`, `CALL cc,nn`, `PUSH`, `CALL nn`, ALU with an immediate operand, `RST`
#[verifier::rlimit(30)]
fn execute_x3_jumps<B: Z80Bus>(cpu: &mut Z80, bus: &mut B, opcode: Opcode, prefix: Prefix) -> (rs: Ghost<Seq<u8>>)
    requires
        opcode.fields_of(opcode.byte),
        opcode.x == 3,
        opcode.y < 8,
        opcode.z == 2 || opcode.z >= 4,
        opcode.z < 8,
    ensures
        final(bus).calls() == old(bus).calls() + x3_jumps_transfers(state_of(*old(cpu)), opcode.y, opcode.z, prefix, rs@),
        state_of(*final(cpu)) == x3_jumps(state_of(*old(cpu)), opcode.y, opcode.z, prefix, rs@),
        same_control(*old(cpu), *final(cpu)),
{
    let y = opcode.y;
    match opcode.z {
        2 | 4 => jump_or_call_cc(cpu, bus, y, opcode.z, prefix),
        5 => push_or_call(cpu, bus, opcode, prefix),
        6 => {
            // ALU n
            let n = cpu.fetch_byte(bus, 3);
            alu_op(&mut cpu.regs, y, n);
            Ghost(Seq::empty().push(n))
        },
        _ => {
            // RST
            bus.wait_loop(ir_addr(&cpu.regs), 1);
            execute_push_16(cpu, bus, RegName16::PC, 3);
            let target = (y as u16) * 8;
            cpu.regs.set_pc(target);
            cpu.regs.set_mem_ptr(target);
            Ghost(Seq::empty())
        },
    }
}

/// `JP cc,nn` (`z` = 2) and `CALL cc,nn` (`z` = 4)
#[verifier::rlimit(30)]
fn jump_or_call_cc<B: Z80Bus>(cpu: &mut Z80, bus: &mut B, y: u8, z: u8, prefix: Prefix) -> (rs: Ghost<Seq<u8>>)
    requires
        y < 8,
        z == 2 || z == 4,
    ensures
        final(bus).calls() == old(bus).calls() + x3_jumps_transfers(state_of(*old(cpu)), y, z, prefix, rs@),
        state_of(*final(cpu)) == x3_jumps(state_of(*old(cpu)), y, z, prefix, rs@),
        same_control(*old(cpu), *final(cpu)),
{
    let ghost s0 = state_of(*cpu);
    let (addr, rs) = fetch_word_bytes(cpu, bus);
    cpu.regs.set_mem_ptr(addr);
    if check_condition(cpu.regs.f, y) {
        if z == 2 {
            cpu.regs.set_pc(addr);
        } else {
            call(cpu, bus, addr);
        }
    }
    assert(bus.calls() =~= old(bus).calls() + x3_jumps_transfers(s0, y, z, prefix, rs@));
    rs
}

/// `PUSH` and `CALL nn` (`x = 3`, `z = 5`); the other opcodes there are prefixes
#[verifier::rlimit(30)]
fn push_or_call<B: Z80Bus>(cpu: &mut Z80, bus: &mut B, opcode: Opcode, prefix: Prefix) -> (rs: Ghost<Seq<u8>>)
    requires
        opcode.fields_of(opcode.byte),
        opcode.x == 3,
        opcode.y < 8,
        opcode.z == 5,
    ensures
        final(bus).calls() == old(bus).calls() + x3_jumps_transfers(state_of(*old(cpu)), opcode.y, 5, prefix, rs@),
        state_of(*final(cpu)) == x3_jumps(state_of(*old(cpu)), opcode.y, 5, prefix, rs@),
        same_control(*old(cpu), *final(cpu)),
{
    let y = opcode.y;
    let p = y / 2;
    if y % 2 == 0 {
        // PUSH rp2
        bus.wait_loop(ir_addr(&cpu.regs), 1);
        execute_push_16(cpu, bus, rp2_name(p, prefix), 3);
        Ghost(Seq::empty())
    } else if p == 0 {
        // CALL nn
        let (addr, rs) = fetch_word_bytes(cpu, bus);
        cpu.regs.set_mem_ptr(addr);
        call(cpu, bus, addr);
        rs
    } else {
        // DD, ED and FD prefixes: decoded before an instruction gets here
        assert(opcode.byte == (192 + y * 8 + 5) as u8);
        bus.process_unknown_opcode(prefix, opcode);
        assert(bus.calls() =~= old(bus).calls() + seq![BusAccess::Unknown(prefix, opcode.byte)]);
        Ghost(Seq::empty())
    }
}

/// Instructions with `x = 3`
#[verifier::rlimit(30)]
fn execute_x3<B: Z80Bus>(cpu: &mut Z80, bus: &mut B, opcode: Opcode, prefix: Prefix) -> (rs: Ghost<
    Seq<u8>,
>)
    requires
        opcode.fields_of(opcode.byte),
        opcode.x == 3,
        opcode.y < 8,
        opcode.z < 8,
    ensures
        final(bus).calls() == old(bus).calls() + x3_transfers(state_of(*old(cpu)), opcode.y, opcode.z, prefix, rs@),
        state_of(*final(cpu)) == effect_x3(state_of(*old(cpu)), opcode.y, opcode.z, prefix, rs@),
        same_control(*old(cpu), *final(cpu)),
{
    match opcode.z {
        0 | 1 => execute_x3_z01(cpu, bus, opcode.y, opcode.z, prefix),
        3 => execute_x3_z3(cpu, bus, opcode, prefix),
        _ => execute_x3_jumps(cpu, bus, opcode, prefix),
    }
}

} // verus!
