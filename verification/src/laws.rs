//! Properties of the processor that hold across its operations

use vstd::prelude::*;

use crate::cpu::{IntMode, NmiLatch, Step, Z80State};
use crate::exec::popped;
use crate::nmi_line::{law_instruction_ignores_nmi_line, with_nmi_line};
use crate::reports::{lemma_check_reports_nothing, lemma_instruction_reports_once, lemma_no_pc_append, no_pc};
use crate::transfers::{cycles, instruction_transfers, pop_reads, push_writes, BusAccess};
use crate::opcode::Prefix;
use crate::regs::{add16, hi_byte, lo_byte, next_r, word, RegName16, Regs, FLAG_PV};
use crate::opcode::{prefix_byte, prefix_of};
use crate::semantics::{
    bits_effect, block_effect, ed_io_arith, ed_misc, effect_alu, effect_ld, effect_x0, effect_x3,
    decoded_effect, extended_effect, instruction_effect, instruction_start, m1_fetched, normal_effect,
    opcode_fetched, x0_z0, x0_z1, x0_z2, x0_z3, x0_z45, x0_z6, x3_jumps, x3_z01, x3_z3,
};

verus! {

/// Right after an interrupt has been taken, the next interrupt check takes none, whatever the INT
/// line says, as long as the NMI input has not risen again (it may stay as it was, or fall, as
/// when the bus stops reporting an NMI once it has been taken): it puts nothing on the bus and
/// changes nothing but the level of the NMI input last seen. So a step that takes an interrupt
/// followed by a step that runs an instruction does what one call of `emulate` does.
pub proof fn law_no_interrupt_right_after_one(
    s: Z80State,
    nmi_line: bool,
    int_line: bool,
    table_word: u16,
    next_nmi_line: bool,
    next_int_line: bool,
    next_vector: u8,
    next_table_word: u16,
)
    requires
        s.interrupt_check(nmi_line, int_line, table_word).0,
        next_nmi_line ==> nmi_line,
    ensures
        ({
            let after = s.interrupt_check(nmi_line, int_line, table_word).1;
            &&& after.interrupt_check(next_nmi_line, next_int_line, next_table_word) == (
                false,
                with_nmi_line(after, next_nmi_line),
            )
            &&& after.check_transfers(next_nmi_line, next_int_line, next_vector, next_table_word)
                == Seq::<BusAccess>::empty()
        }),
{
}

/// `emulate` is an interrupt check followed by an instruction; `step` is the check alone when it
/// takes an interrupt. Two steps, the first taking an interrupt and the second running an
/// instruction, with the NMI input not rising again in between, end where `emulate` can end,
/// but for the level of the NMI input last seen, with the same calls to the bus, the cycles
/// waited included, so with the same timing.
pub proof fn law_two_steps_are_one_emulate(
    s: Z80State,
    nmi_line: bool,
    int_line: bool,
    vector: u8,
    table_word: u16,
    next_nmi_line: bool,
    next_int_line: bool,
    next_vector: u8,
    next_table_word: u16,
    end: Z80State,
    run_log: Seq<BusAccess>,
)
    requires
        s.interrupt_check(nmi_line, int_line, table_word).0,
        next_nmi_line ==> nmi_line,
        s.interrupt_check(nmi_line, int_line, table_word).1.interrupt_check(
            next_nmi_line,
            next_int_line,
            next_table_word,
        ).1.ran_instruction(end, run_log),
    ensures
        ({
            let after = s.interrupt_check(nmi_line, int_line, table_word).1;
            let first = s.check_transfers(nmi_line, int_line, vector, table_word);
            let second = after.check_transfers(next_nmi_line, next_int_line, next_vector, next_table_word);
            s.emulated(nmi_line, int_line, with_nmi_line(end, nmi_line), first + second + run_log)
        }),
{
    let after = s.interrupt_check(nmi_line, int_line, table_word).1;
    let first = s.check_transfers(nmi_line, int_line, vector, table_word);
    let second = after.check_transfers(next_nmi_line, next_int_line, next_vector, next_table_word);
    law_no_interrupt_right_after_one(
        s,
        nmi_line,
        int_line,
        table_word,
        next_nmi_line,
        next_int_line,
        next_vector,
        next_table_word,
    );
    let mid2 = with_nmi_line(after, next_nmi_line);
    let rs = choose|rs: Seq<u8>|
        #![trigger instruction_effect(mid2, rs)]
        instruction_effect(mid2, rs) == end && instruction_transfers(mid2, rs) == run_log;
    law_instruction_ignores_nmi_line(mid2, rs, nmi_line);
    assert(with_nmi_line(mid2, nmi_line) == after);
    assert(instruction_effect(after, rs) == with_nmi_line(end, nmi_line));
    assert(after.ran_instruction(with_nmi_line(end, nmi_line), run_log));
    assert(s.checked(nmi_line, int_line, true, after, first));
    assert(first + second =~= first);
}

/// A step that takes no interrupt is one call of `emulate`: the same state and the same calls
/// to the bus.
pub proof fn law_instruction_step_is_emulate(
    s: Z80State,
    nmi_line: bool,
    int_line: bool,
    next: Z80State,
    log: Seq<BusAccess>,
)
    requires
        s.stepped(Step::Instruction, nmi_line, int_line, next, log),
    ensures
        s.emulated(nmi_line, int_line, next, log),
{
    let (mid, check_log, run_log) = choose|mid: Z80State, check_log: Seq<BusAccess>, run_log: Seq<BusAccess>|
        #![trigger s.checked(nmi_line, int_line, false, mid, check_log), mid.ran_instruction(next, run_log)]
        s.checked(nmi_line, int_line, false, mid, check_log) && mid.ran_instruction(next, run_log) && log == check_log
            + run_log;
    assert(s.checked(nmi_line, int_line, false, mid, check_log) && mid.ran_instruction(next, run_log));
}

/// An instruction ends by reporting the program counter it leaves, and reports it nowhere else
proof fn lemma_run_reports_once(mid: Z80State, next: Z80State, run_log: Seq<BusAccess>)
    requires
        mid.ran_instruction(next, run_log),
    ensures
        run_log.len() > 0,
        run_log.last() == BusAccess::Pc(next.regs.pc),
        no_pc(run_log.drop_last()),
{
    let rs = choose|rs: Seq<u8>|
        #![trigger instruction_effect(mid, rs)]
        instruction_effect(mid, rs) == next && instruction_transfers(mid, rs) == run_log;
    lemma_instruction_reports_once(mid, rs);
}

/// An interrupt check reports nothing
proof fn lemma_checked_reports_nothing(
    s: Z80State,
    nmi_line: bool,
    int_line: bool,
    taken: bool,
    next: Z80State,
    log: Seq<BusAccess>,
)
    requires
        s.checked(nmi_line, int_line, taken, next, log),
    ensures
        no_pc(log),
{
    let (v, tw) = choose|v: u8, tw: u16|
        #![trigger s.check_transfers(nmi_line, int_line, v, tw)]
        s.interrupt_check(nmi_line, int_line, tw) == (taken, next) && s.check_transfers(
            nmi_line,
            int_line,
            v,
            tw,
        ) == log;
    lemma_check_reports_nothing(s, nmi_line, int_line, v, tw);
}

/// A record `a + b`, with `b` ending in `last` and neither `a` nor the rest of `b` reporting the
/// program counter, ends in `last` and reports it nowhere else
proof fn lemma_append_reports_once(a: Seq<BusAccess>, b: Seq<BusAccess>, last: BusAccess)
    requires
        no_pc(a),
        b.len() > 0,
        b.last() == last,
        no_pc(b.drop_last()),
    ensures
        (a + b).len() > 0,
        (a + b).last() == last,
        no_pc((a + b).drop_last()),
{
    broadcast use lemma_no_pc_append;
    assert((a + b).drop_last() =~= a + b.drop_last());
}

/// Every step, and every call of `emulate`, reports to the bus the program counter it leaves
/// exactly once, as its last call: after an interrupt taken by `step`, the handler's address, as
/// after an instruction.
pub proof fn law_steps_report_pc_once(
    s: Z80State,
    r: Step,
    nmi_line: bool,
    int_line: bool,
    next: Z80State,
    log: Seq<BusAccess>,
)
    ensures
        s.stepped(r, nmi_line, int_line, next, log) ==> log.len() > 0 && log.last() == BusAccess::Pc(
            next.regs.pc,
        ) && no_pc(log.drop_last()),
        s.emulated(nmi_line, int_line, next, log) ==> log.len() > 0 && log.last() == BusAccess::Pc(
            next.regs.pc,
        ) && no_pc(log.drop_last()),
{
    if s.stepped(r, nmi_line, int_line, next, log) {
        match r {
            Step::Interrupt => {
                let check_log = choose|check_log: Seq<BusAccess>|
                    #![trigger s.checked(nmi_line, int_line, true, next, check_log)]
                    s.checked(nmi_line, int_line, true, next, check_log) && log == check_log + seq![
                        BusAccess::Pc(next.regs.pc),
                    ];
                lemma_checked_reports_nothing(s, nmi_line, int_line, true, next, check_log);
                let tail = seq![BusAccess::Pc(next.regs.pc)];
                assert(tail.drop_last() =~= Seq::<BusAccess>::empty());
                lemma_append_reports_once(check_log, tail, BusAccess::Pc(next.regs.pc));
            },
            Step::Instruction => {
                let (mid, check_log, run_log) = choose|
                    mid: Z80State,
                    check_log: Seq<BusAccess>,
                    run_log: Seq<BusAccess>,
                |
                    #![trigger s.checked(nmi_line, int_line, false, mid, check_log), mid.ran_instruction(next, run_log)]
                    s.checked(nmi_line, int_line, false, mid, check_log) && mid.ran_instruction(
                        next,
                        run_log,
                    ) && log == check_log + run_log;
                lemma_checked_reports_nothing(s, nmi_line, int_line, false, mid, check_log);
                lemma_run_reports_once(mid, next, run_log);
                lemma_append_reports_once(check_log, run_log, BusAccess::Pc(next.regs.pc));
            },
        }
    }
    if s.emulated(nmi_line, int_line, next, log) {
        let (taken, mid, check_log, run_log) = choose|
            taken: bool,
            mid: Z80State,
            check_log: Seq<BusAccess>,
            run_log: Seq<BusAccess>,
        |
            #![trigger s.checked(nmi_line, int_line, taken, mid, check_log), mid.ran_instruction(next, run_log)]
            s.checked(nmi_line, int_line, taken, mid, check_log) && mid.ran_instruction(next, run_log)
                && log == check_log + run_log;
        lemma_checked_reports_nothing(s, nmi_line, int_line, taken, mid, check_log);
        lemma_run_reports_once(mid, next, run_log);
        lemma_append_reports_once(check_log, run_log, BusAccess::Pc(next.regs.pc));
    }
}

/// The response to an interrupt asks for 11 clock cycles for an NMI (five with the return
/// address on the bus, and the push), 13 for a maskable interrupt in mode 0 or 1 (the push and
/// seven cycles inside the processor), and 19 in mode 2 (the table read besides), beside the
/// time the bus gives the acknowledge.
pub proof fn law_interrupt_cycles(s: Z80State, nmi_line: bool, int_line: bool, vector: u8, table_word: u16)
    requires
        s.interrupt_check(nmi_line, int_line, table_word).0,
    ensures
        cycles(s.check_transfers(nmi_line, int_line, vector, table_word)) == if s.sampled(nmi_line).nmi_due() {
            11int
        } else {
            match s.int_mode {
                IntMode::Im2 => 19int,
                _ => 13int,
            }
        },
{
    let t = s.sampled(nmi_line);
    let u = t.unhalted();
    let log = s.check_transfers(nmi_line, int_line, vector, table_word);
    let push = push_writes(u.regs.sp, u.regs.pc, 3);
    let release = t.release_transfers();
    reveal_with_fuel(cycles, 8);
    if t.nmi_due() {
        let tail = seq![BusAccess::Wait(u.regs.pc, 5)] + push;
        assert(tail =~= seq![
            BusAccess::Wait(u.regs.pc, 5),
            BusAccess::Write(add16(u.regs.sp, -1), hi_byte(u.regs.pc), 3),
            BusAccess::Write(add16(u.regs.sp, -2), lo_byte(u.regs.pc), 3),
        ]);
        if t.halted {
            assert(log =~= seq![BusAccess::Halt(false)] + tail);
            assert(log =~= seq![BusAccess::Halt(false), tail[0], tail[1], tail[2]]);
        } else {
            assert(log =~= tail);
        }
    } else {
        let tail = push + t.vector_transfers(vector, table_word);
        match s.int_mode {
            IntMode::Im2 => {
                let tw = word(t.regs.i, vector);
                assert(tail =~= seq![
                    BusAccess::Write(add16(u.regs.sp, -1), hi_byte(u.regs.pc), 3),
                    BusAccess::Write(add16(u.regs.sp, -2), lo_byte(u.regs.pc), 3),
                    BusAccess::Acknowledge(vector),
                    BusAccess::Read(tw, lo_byte(table_word), 3),
                    BusAccess::Read(add16(tw, 1), hi_byte(table_word), 3),
                    BusAccess::Internal(7),
                ]);
                if t.halted {
                    assert(log =~= seq![BusAccess::Halt(false), tail[0], tail[1], tail[2], tail[3], tail[4], tail[5]]);
                } else {
                    assert(log =~= tail);
                }
            },
            _ => {
                assert(tail =~= seq![
                    BusAccess::Write(add16(u.regs.sp, -1), hi_byte(u.regs.pc), 3),
                    BusAccess::Write(add16(u.regs.sp, -2), lo_byte(u.regs.pc), 3),
                    BusAccess::Internal(7),
                ]);
                if t.halted {
                    assert(log =~= seq![BusAccess::Halt(false), tail[0], tail[1], tail[2]]);
                } else {
                    assert(log =~= tail);
                }
            },
        }
    }
}

/// Sampling the NMI input twice at one level is sampling it once, and an NMI taken from the
/// latch is not due again until a new edge is latched: a second take with no sample between
/// finds nothing.
pub proof fn law_nmi_latch_sample_and_take(l: NmiLatch, line: bool)
    ensures
        l.sampled(line).sampled(line) == l.sampled(line),
        !l.taken().due(),
        !l.taken().sampled(line).due(),
{
}

/// `pop_pc_from_stack` undoes `push_pc_to_stack`: the pop reads the two addresses the push
/// wrote, and when the bus gives back the bytes that were written, the registers are as they
/// were before the push.
pub proof fn law_pop_undoes_push(r: Regs)
    ensures
        ({
            let pushed = Regs { sp: add16(r.sp, -2), ..r };
            let w = push_writes(r.sp, r.pc, 0);
            let reads = pop_reads(pushed.sp, seq![lo_byte(r.pc), hi_byte(r.pc)], 0);
            &&& reads == seq![
                BusAccess::Read(add16(r.sp, -2), lo_byte(r.pc), 0),
                BusAccess::Read(add16(r.sp, -1), hi_byte(r.pc), 0),
            ]
            &&& w == seq![
                BusAccess::Write(add16(r.sp, -1), hi_byte(r.pc), 0),
                BusAccess::Write(add16(r.sp, -2), lo_byte(r.pc), 0),
            ]
            &&& popped(pushed, RegName16::PC, word(hi_byte(r.pc), lo_byte(r.pc))) == r
        }),
{
    let pc = r.pc;
    assert(word(hi_byte(pc), lo_byte(pc)) == pc) by {
        assert(((pc as int / 256) as u8) as int * 256 + ((pc as int % 256) as u8) as int == pc as int);
    }
    assert(add16(add16(r.sp, -2), 1) == add16(r.sp, -1));
    assert(add16(add16(r.sp, -2), 2) == r.sp);
}

/// The NMI input is edge-triggered: while it stays active after an NMI has been latched and
/// taken, no further NMI is taken.
pub proof fn law_held_nmi_not_taken_again(s: Z80State, int_line: bool, table_word: u16)
    requires
        s.nmi_line,
        !s.nmi_pending,
    ensures
        !s.sampled(true).nmi_pending,
        s.interrupt_check(true, int_line, table_word).1.nmi_pending == false,
        s.interrupt_check(true, int_line, table_word).0 ==> s.interrupt_check(
            true,
            int_line,
            table_word,
        ).1.nmi_responded == s.nmi_responded,
{
}

/// Taking an NMI uses up the latched edge: with the input held active, the state after the NMI
/// has nothing pending, so the NMI is not taken a second time.
pub proof fn law_nmi_taken_once(s: Z80State, int_line: bool, table_word: u16)
    requires
        s.prefix == Prefix::NoPrefix,
        !s.skip_interrupt,
        s.sampled(true).nmi_due(),
    ensures
        s.interrupt_check(true, int_line, table_word) == (true, s.sampled(true).nmi_taken()),
        s.sampled(true).nmi_taken().nmi_line,
        !s.sampled(true).nmi_taken().nmi_pending,
{
}

/// A rising edge of the NMI input is latched, and a latched NMI waits until it can be taken:
/// the first check with no prefix pending, no hold-off and no NMI response just made takes it,
/// whatever the input is by then.
pub proof fn law_nmi_edge_is_latched_until_taken(
    s: Z80State,
    later_line: bool,
    int_line: bool,
    table_word: u16,
)
    requires
        !s.nmi_line,
    ensures
        s.sampled(true).nmi_pending,
        ({
            let t = s.sampled(true);
            (!t.nmi_responded && t.prefix == Prefix::NoPrefix && !t.skip_interrupt) ==> t.interrupt_check(
                later_line,
                int_line,
                table_word,
            ) == (true, t.sampled(later_line).nmi_taken())
        }),
{
}

/// An instruction that holds interrupts off (`EI`, `DI`, and `RETN`/`RETI` that change IFF1)
/// keeps the next check from taking any interrupt, NMI included, and that check ends the hold-off.
/// A chain of prefixes waiting for its instruction does the same.
pub proof fn law_hold_off_lasts_one_check(
    s: Z80State,
    nmi_line: bool,
    int_line: bool,
    table_word: u16,
)
    requires
        s.skip_interrupt || s.prefix != Prefix::NoPrefix,
    ensures
        s.interrupt_check(nmi_line, int_line, table_word) == (false, s.sampled(nmi_line)),
        !s.sampled(nmi_line).skip_interrupt,
{
}

/// A maskable interrupt is taken only while IFF1 is set, and leaves both interrupt flip-flops
/// reset, so it cannot nest; an NMI keeps IFF2 for the handler's `RETN` to restore.
pub proof fn law_interrupt_flip_flops(s: Z80State, nmi_line: bool, int_line: bool, table_word: u16)
    requires
        s.interrupt_check(nmi_line, int_line, table_word).0,
    ensures
        ({
            let after = s.interrupt_check(nmi_line, int_line, table_word).1;
            &&& !after.regs.iff1
            &&& s.sampled(nmi_line).nmi_due() ==> after.regs.iff2 == s.regs.iff2
            &&& !s.sampled(nmi_line).nmi_due() ==> s.regs.iff1 && int_line && !after.regs.iff2
        }),
{
}

/// An interrupt taken while halted ends the halt and returns to the instruction after the
/// `HALT`: the address pushed is one past the `HALT` the program counter stayed at. An
/// interrupt taken while running returns to the instruction it interrupted.
pub proof fn law_interrupt_return_address(s: Z80State)
    ensures
        !s.unhalted().halted,
        s.halted ==> s.unhalted().regs.pc == add16(s.regs.pc, 1),
        !s.halted ==> s.unhalted().regs.pc == s.regs.pc,
{
}

/// On an NMOS Z80 a maskable interrupt right after `LD A,I` or `LD A,R` leaves P/V reset,
/// while one taken later, or an NMI, leaves F as it was.
pub proof fn law_ld_a_ir_race(s: Z80State, target: u16)
    ensures
        s.iff2_read ==> s.int_taken(target).regs.f & FLAG_PV == 0,
        !s.iff2_read ==> s.int_taken(target).regs.f == s.regs.f,
        s.nmi_taken().regs.f == s.regs.f,
{
    let f = s.regs.f;
    assert((f & !FLAG_PV) & FLAG_PV == 0) by (bit_vector);
}

/// Each interrupt counts one memory refresh in R, whose bit 7 never changes.
pub proof fn law_refresh_keeps_bit_7(r: u8)
    ensures
        next_r(r) / 128 == r / 128,
        next_r(r) % 128 == (r % 128 + 1) % 128,
{
}

/// `EXX` twice leaves the registers as they were.
pub proof fn law_exx_twice(r: Regs)
    ensures
        r.exchanged().exchanged() == r,
{
}

/// `b` has the NMI latch and the pending prefix of `a`
pub open spec fn same_latch(a: Z80State, b: Z80State) -> bool {
    &&& b.nmi_line == a.nmi_line
    &&& b.nmi_pending == a.nmi_pending
    &&& b.nmi_responded == a.nmi_responded
    &&& b.prefix == a.prefix
}

proof fn lemma_x0_keeps_latch(s: Z80State, y: u8, z: u8, prefix: Prefix, rs: Seq<u8>)
    ensures
        same_latch(s, effect_x0(s, y, z, prefix, rs)),
{
    assert(same_latch(s, x0_z0(s, y, rs)));
    assert(same_latch(s, x0_z1(s, y, prefix, rs)));
    assert(same_latch(s, x0_z2(s, y, prefix, rs)));
    assert(same_latch(s, x0_z3(s, y, prefix)));
    assert(same_latch(s, x0_z45(s, y, z, prefix, rs)));
    assert(same_latch(s, x0_z6(s, y, prefix, rs)));
}

proof fn lemma_x3_keeps_latch(s: Z80State, y: u8, z: u8, prefix: Prefix, rs: Seq<u8>)
    ensures
        same_latch(s, effect_x3(s, y, z, prefix, rs)),
{
    assert(same_latch(s, x3_z01(s, y, z, prefix, rs)));
    assert(same_latch(s, x3_z3(s, y, prefix, rs)));
    assert(same_latch(s, x3_jumps(s, y, z, prefix, rs)));
}

proof fn lemma_normal_keeps_latch(s: Z80State, op: u8, prefix: Prefix, rs: Seq<u8>)
    ensures
        same_latch(s, normal_effect(s, op, prefix, rs)),
{
    reveal(normal_effect);
    let y = (op / 8) % 8;
    let z = op % 8;
    lemma_x0_keeps_latch(s, y, z, prefix, rs);
    lemma_x3_keeps_latch(s, y, z, prefix, rs);
    assert(same_latch(s, effect_ld(s, y, z, prefix, rs)));
    assert(same_latch(s, effect_alu(s, y, z, prefix, rs)));
}

proof fn lemma_bits_keeps_latch(s: Z80State, prefix: Prefix, rs: Seq<u8>)
    ensures
        same_latch(s, bits_effect(s, prefix, rs)),
{
    reveal(bits_effect);
}

proof fn lemma_extended_keeps_latch(s: Z80State, op: u8, rs: Seq<u8>)
    ensures
        same_latch(s, extended_effect(s, op, rs)),
{
    reveal(extended_effect);
    let y = (op / 8) % 8;
    let z = op % 8;
    assert(same_latch(s, ed_io_arith(s, y, z, rs)));
    assert(same_latch(s, ed_misc(s, y, z, rs)));
    if y >= 4 && z <= 3 {
        assert(same_latch(s, block_effect(s, y, z, rs[0])));
    }
}

/// Running an instruction ends an NMI response and leaves the latched NMI and the level last
/// seen on the NMI input alone. A prefix is left pending only by a chain of `DD`/`FD` prefixes
/// ending in another prefix, and interrupts are then held off until its instruction has run.
pub proof fn law_instruction_and_nmi_latch(s: Z80State, rs: Seq<u8>)
    ensures
        instruction_effect(s, rs).nmi_line == s.nmi_line,
        instruction_effect(s, rs).nmi_pending == s.nmi_pending,
        !instruction_effect(s, rs).nmi_responded,
        instruction_effect(s, rs).prefix != Prefix::NoPrefix ==> instruction_effect(s, rs).skip_interrupt,
{
    let s0 = instruction_start(s);
    if s.prefix == Prefix::NoPrefix {
        lemma_decoded_keeps_latch(m1_fetched(s0), rs[0], rs.skip(1));
    } else {
        let b1 = match prefix_byte(s.prefix) {
            Some(b) => b,
            None => 0u8,
        };
        lemma_decoded_keeps_latch(s0, b1, rs);
    }
}

proof fn lemma_decoded_keeps_latch(s: Z80State, byte1: u8, rs: Seq<u8>)
    requires
        s.prefix == Prefix::NoPrefix,
    ensures
        same_latch(s, decoded_effect(s, byte1, rs)) || ({
            let t = decoded_effect(s, byte1, rs);
            &&& t.nmi_line == s.nmi_line
            &&& t.nmi_pending == s.nmi_pending
            &&& t.nmi_responded == s.nmi_responded
            &&& t.skip_interrupt
        }),
{
    let s2 = m1_fetched(s);
    assert(same_latch(s, opcode_fetched(s)));
    assert(same_latch(s, opcode_fetched(s2)));
    assert(same_latch(s, opcode_fetched(m1_fetched(s))));
    lemma_normal_keeps_latch(opcode_fetched(s), byte1, Prefix::NoPrefix, rs);
    lemma_normal_keeps_latch(opcode_fetched(s2), rs[0], prefix_of(byte1), rs.skip(1));
    lemma_bits_keeps_latch(opcode_fetched(s2), prefix_of(byte1), rs.skip(1));
    lemma_bits_keeps_latch(opcode_fetched(s), Prefix::NoPrefix, rs);
    lemma_extended_keeps_latch(opcode_fetched(s2), rs[0], rs.skip(1));
}

/// `HALT` runs again on every step while the processor is halted: executing the `HALT` at the
/// program counter leaves the processor halted with the program counter where it was, R
/// counting one refresh.
pub proof fn law_halt_stays(s: Z80State, rs: Seq<u8>)
    requires
        s.prefix == Prefix::NoPrefix,
        rs[0] == 0x76,
    ensures
        instruction_effect(s, rs).halted,
        instruction_effect(s, rs).regs.pc == s.regs.pc,
        instruction_effect(s, rs).regs.r == next_r(s.regs.r),
{
    let s1 = opcode_fetched(m1_fetched(instruction_start(s)));
    let halt: u8 = 0x76;
    assert(prefix_of(halt) == Prefix::NoPrefix);
    assert(decoded_effect(m1_fetched(instruction_start(s)), halt, rs.skip(1)) == normal_effect(
        s1,
        halt,
        Prefix::NoPrefix,
        rs.skip(1),
    ));
    assert(halt / 64 == 1 && (halt / 8) % 8 == 6 && halt % 8 == 6);
    assert(normal_effect(s1, halt, Prefix::NoPrefix, rs.skip(1)) == (Z80State {
        halted: true,
        regs: Regs { pc: add16(s1.regs.pc, -1), ..s1.regs },
        ..s1
    })) by {
        reveal(normal_effect);
    }
    assert(add16(add16(s.regs.pc, 1), -1) == s.regs.pc);
}

} // verus!
