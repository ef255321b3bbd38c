//! Z80 CPU module

use vstd::prelude::*;

use crate::bus::Z80Bus;
use crate::exec::{execute_normal, execute_pop_16, execute_push_16, popped};
use crate::exec_bits::execute_bits;
use crate::exec_ed::execute_extended;
use crate::opcode::{Opcode, Prefix};
use crate::transfers::{
    decoded_transfers, instruction_transfers, pop_reads, push_writes, BusAccess,
};
use crate::semantics::{
    decoded_effect, instruction_effect, instruction_start, m1_fetched, opcode_fetched, word_at,
};
use crate::regs::{add16, hi_byte, lo_byte, make_word, next_r, word, RegName16, Regs, FLAG_PV};

verus! {

broadcast use crate::transfers::lemma_transfers_associate;

/// Interrupt mode enum
#[derive(Debug, Clone, Copy)]
pub enum IntMode {
    Im0,
    Im1,
    Im2,
}

/// The number of an interrupt mode, as `IM n` writes it
pub open spec fn im_number(mode: IntMode) -> u8 {
    match mode {
        IntMode::Im0 => 0,
        IntMode::Im1 => 1,
        IntMode::Im2 => 2,
    }
}

/// The interrupt mode that `IM n` selects
pub open spec fn im_of(value: u8) -> IntMode {
    if value == 0 {
        IntMode::Im0
    } else if value == 1 {
        IntMode::Im1
    } else {
        IntMode::Im2
    }
}

impl From<IntMode> for u8 {
    fn from(mode: IntMode) -> (r: Self) {
        match mode {
            IntMode::Im0 => 0,
            IntMode::Im1 => 1,
            IntMode::Im2 => 2,
        }
    }
}

impl vstd::std_specs::convert::FromSpecImpl<IntMode> for u8 {
    open spec fn obeys_from_spec() -> bool {
        true
    }

    open spec fn from_spec(v: IntMode) -> u8 {
        im_number(v)
    }
}

/// What one call to [`Z80::step`] did
#[derive(Debug, Clone, Copy, PartialEq, Eq, Structural)]
pub enum Step {
    /// An interrupt (NMI or maskable) was taken. The program counter is at
    /// its handler, whose first instruction has not run yet.
    Interrupt,
    /// One instruction ran.
    Instruction,
}

/// The NMI input, which is edge-triggered: the line going active latches one NMI, however long it
/// then stays active, and the NMI waits in the latch until it can be taken.
///
/// The Z80 does not start a second NMI response straight after one: at least one instruction of
/// the handler runs first. (An edge during the response itself is lost on the chip; here it waits
/// for that instruction instead, since `emulate` cannot tell it from an edge during the
/// instruction, and `step` must run a program as `emulate` does.)
#[derive(Clone, Copy)]
pub struct NmiLatch {
    /// Level of the line when it was last sampled
    pub line: bool,
    /// The line has gone active since the last NMI was taken
    pub pending: bool,
    /// An NMI has just been taken and no instruction has run since
    pub responded: bool,
}

impl NmiLatch {
    /// The latch after the line is sampled at `line`: a rising edge latches an NMI
    pub open spec fn sampled(self, line: bool) -> NmiLatch {
        NmiLatch { line, pending: self.pending || (line && !self.line), responded: self.responded }
    }

    /// An NMI is latched and may be taken now
    pub open spec fn due(self) -> bool {
        self.pending && !self.responded
    }

    /// The latch once its NMI has been taken
    pub open spec fn taken(self) -> NmiLatch {
        NmiLatch { line: self.line, pending: false, responded: true }
    }

    /// The latch once an instruction has run
    pub open spec fn after_instruction(self) -> NmiLatch {
        NmiLatch { line: self.line, pending: self.pending, responded: false }
    }

    fn sample(&mut self, line: bool)
        ensures
            *final(self) == old(self).sampled(line),
    {
        if line && !self.line {
            self.pending = true;
        }
        self.line = line;
    }

    /// Returns whether an NMI is due now, and if so clears it.
    fn take(&mut self) -> (r: bool)
        ensures
            r == old(self).due(),
            *final(self) == if r { old(self).taken() } else { *old(self) },
    {
        if self.responded || !self.pending {
            return false;
        }
        self.pending = false;
        self.responded = true;
        true
    }

    fn instruction_ran(&mut self)
        ensures
            *final(self) == old(self).after_instruction(),
    {
        self.responded = false;
    }
}

/// Z80 Processor struct
#[derive(Clone, Copy)]
pub struct Z80 {
    /// Contains Z80 registers data
    pub regs: Regs,
    /// Set while the processor is halted, waiting for an interrupt. The program counter stays at
    /// the `HALT` instruction, which runs again on every step, and moves past it when an
    /// interrupt is taken; so the handler returns to the instruction after `HALT`.
    pub halted: bool,
    /// Set by an instruction after which no interrupt may be taken yet: `EI`, `DI`, `RETI` or
    /// `RETN` when it changes IFF1 (which only happens after an NMI), or a `DD`/`FD` prefix
    /// followed by another prefix. The next step runs an instruction without taking an
    /// interrupt, and clears it; an NMI that arrives meanwhile stays latched and is taken at the
    /// step after.
    pub skip_interrupt: bool,
    /// type of interrupt
    pub int_mode: IntMode,
    /// A `DD`, `ED` or `FD` prefix read at the end of a chain of prefixes, whose instruction has
    /// not run yet
    pub active_prefix: Prefix,
    /// The latch of the NMI input
    pub nmi: NmiLatch,
    /// The last instruction was `LD A,I` or `LD A,R`, which copy IFF2 into P/V
    pub iff2_read: bool,
}

/// What a [`Z80`] holds, as contracts speak of it
pub struct Z80State {
    /// The registers
    pub regs: Regs,
    /// Halted, waiting for an interrupt
    pub halted: bool,
    /// The last instruction holds off interrupts for one step
    pub skip_interrupt: bool,
    /// The interrupt mode
    pub int_mode: IntMode,
    /// A `DD`, `ED` or `FD` prefix read at the end of a chain of prefixes, whose instruction has
    /// not run yet (`Prefix::NoPrefix` when there is none)
    pub prefix: Prefix,
    /// Level of the NMI input when it was last sampled
    pub nmi_line: bool,
    /// An edge of the NMI input has been latched and not taken yet
    pub nmi_pending: bool,
    /// An NMI has been taken and no instruction has run since
    pub nmi_responded: bool,
    /// The last instruction was `LD A,I` or `LD A,R`
    pub iff2_read: bool,
}

/// The state a processor holds
pub open spec fn state_of(z: Z80) -> Z80State {
    Z80State {
        regs: z.regs,
        halted: z.halted,
        skip_interrupt: z.skip_interrupt,
        int_mode: z.int_mode,
        prefix: z.active_prefix,
        nmi_line: z.nmi.line,
        nmi_pending: z.nmi.pending,
        nmi_responded: z.nmi.responded,
        iff2_read: z.iff2_read,
    }
}

impl View for Z80 {
    type V = Z80State;

    open spec fn view(&self) -> Z80State {
        state_of(*self)
    }
}

impl Z80State {
    /// The state of a processor that was just made: registers zero, interrupt mode 0, not
    /// halted, nothing latched or pending
    pub open spec fn reset() -> Z80State {
        Z80State {
            regs: Regs::zero(),
            halted: false,
            skip_interrupt: false,
            int_mode: IntMode::Im0,
            prefix: Prefix::NoPrefix,
            nmi_line: false,
            nmi_pending: false,
            nmi_responded: false,
            iff2_read: false,
        }
    }

    /// An NMI is latched and may be taken now
    pub open spec fn nmi_due(self) -> bool {
        self.nmi_pending && !self.nmi_responded
    }

    /// The state after the start of an interrupt check: the NMI input sampled at `line` (a
    /// rising edge latches an NMI), and the hold-off of interrupts used up
    pub open spec fn sampled(self, line: bool) -> Z80State {
        Z80State {
            nmi_line: line,
            nmi_pending: self.nmi_pending || (line && !self.nmi_line),
            skip_interrupt: false,
            ..self
        }
    }

    /// The state when an interrupt ends a halt: the program counter moves past the `HALT`
    pub open spec fn unhalted(self) -> Z80State {
        if self.halted {
            Z80State { halted: false, regs: Regs { pc: add16(self.regs.pc, 1), ..self.regs }, ..self }
        } else {
            self
        }
    }

    /// The state after the processor takes an NMI: the return address pushed, IFF1 reset (IFF2
    /// keeps it), the program counter and MEMPTR at `0x0066`, one memory refresh, Q cleared,
    /// the latched NMI used up
    pub open spec fn nmi_taken(self) -> Z80State {
        let s = self.unhalted();
        Z80State {
            regs: Regs {
                q: 0,
                iff1: false,
                sp: add16(s.regs.sp, -2),
                pc: 0x0066,
                mem_ptr: 0x0066,
                r: next_r(s.regs.r),
                ..s.regs
            },
            nmi_pending: false,
            nmi_responded: true,
            ..s
        }
    }

    /// The state after the processor takes a maskable interrupt whose handler is at `target`:
    /// P/V reset if the last instruction was `LD A,I` or `LD A,R`, the return address pushed,
    /// both interrupt flip-flops reset, the program counter and MEMPTR at the handler, one
    /// memory refresh, Q cleared
    pub open spec fn int_taken(self, target: u16) -> Z80State {
        let f = if self.iff2_read {
            self.regs.f & !FLAG_PV
        } else {
            self.regs.f
        };
        let s = self.unhalted();
        Z80State {
            regs: Regs {
                f,
                q: 0,
                iff1: false,
                iff2: false,
                sp: add16(s.regs.sp, -2),
                pc: target,
                mem_ptr: target,
                r: next_r(s.regs.r),
                ..s.regs
            },
            ..s
        }
    }

    /// Where the handler of a maskable interrupt is: `0x0038` in modes 0 and 1 (as on the ZX
    /// Spectrum), and in mode 2 the word read from the vector table
    pub open spec fn int_target(self, table_word: u16) -> u16 {
        match self.int_mode {
            IntMode::Im2 => table_word,
            _ => 0x0038,
        }
    }

    /// Whether an interrupt is taken, and the state after it, once the lines have been sampled:
    /// nothing while interrupts are held off, else an NMI if one is due, else a maskable
    /// interrupt if the INT line is active and IFF1 set. `table_word` is what a mode 2 interrupt
    /// reads from its vector table.
    pub open spec fn accepted(self, held: bool, int_line: bool, table_word: u16) -> (bool, Z80State) {
        if held {
            (false, self)
        } else if self.nmi_due() {
            (true, self.nmi_taken())
        } else if int_line && self.regs.iff1 {
            (true, self.int_taken(self.int_target(table_word)))
        } else {
            (false, self)
        }
    }

    /// Whether an interrupt check takes an interrupt, and the state after it, for the levels of
    /// the NMI and INT inputs it sees: no interrupt while a chain of prefixes waits for its
    /// instruction or while the last instruction holds interrupts off.
    pub open spec fn interrupt_check(self, nmi_line: bool, int_line: bool, table_word: u16) -> (
        bool,
        Z80State,
    ) {
        let s = self.sampled(nmi_line);
        if self.prefix != Prefix::NoPrefix {
            (false, s)
        } else {
            s.accepted(self.skip_interrupt, int_line, table_word)
        }
    }

    /// What taking an interrupt from `self` (the lines sampled) does on the bus: the halt output
    /// released if the processor was halted; for an NMI five cycles with the return address on
    /// the bus and the push of it; for a maskable interrupt the push, and in mode 2 then the
    /// acknowledge, which returns `vector`, and the two byte reads of `table_word` from the
    /// vector table at `I * 256 + vector`, and seven cycles inside the processor
    pub open spec fn accepted_transfers(self, held: bool, int_line: bool, vector: u8, table_word: u16) -> Seq<
        BusAccess,
    > {
        let u = self.unhalted();
        if held {
            seq![]
        } else if self.nmi_due() {
            self.release_transfers() + seq![BusAccess::Wait(u.regs.pc, 5)] + push_writes(
                u.regs.sp,
                u.regs.pc,
                3,
            )
        } else if int_line && self.regs.iff1 {
            self.release_transfers() + push_writes(u.regs.sp, u.regs.pc, 3) + self.vector_transfers(
                vector,
                table_word,
            )
        } else {
            seq![]
        }
    }

    /// The halt output released when an interrupt ends a halt
    pub open spec fn release_transfers(self) -> Seq<BusAccess> {
        if self.halted {
            seq![BusAccess::Halt(false)]
        } else {
            seq![]
        }
    }

    /// What a maskable interrupt does after the push: in mode 2 the acknowledge, which returns
    /// `vector`, and the two byte reads of `table_word` from `I * 256 + vector`; then seven
    /// cycles inside the processor
    pub open spec fn vector_transfers(self, vector: u8, table_word: u16) -> Seq<BusAccess> {
        match self.int_mode {
            IntMode::Im2 => {
                let t = word(self.regs.i, vector);
                seq![
                    BusAccess::Acknowledge(vector),
                    BusAccess::Read(t, lo_byte(table_word), 3),
                    BusAccess::Read(add16(t, 1), hi_byte(table_word), 3),
                    BusAccess::Internal(7),
                ]
            },
            _ => seq![BusAccess::Internal(7)],
        }
    }

    /// What an interrupt check puts on the bus, for the levels of the NMI and INT inputs it sees,
    /// the byte a mode 2 acknowledge returns and the word it reads from the vector table
    pub open spec fn check_transfers(self, nmi_line: bool, int_line: bool, vector: u8, table_word: u16) -> Seq<
        BusAccess,
    > {
        if self.prefix != Prefix::NoPrefix {
            seq![]
        } else {
            self.sampled(nmi_line).accepted_transfers(self.skip_interrupt, int_line, vector, table_word)
        }
    }

    /// Whether an interrupt check from `self`, with the NMI and INT inputs at `nmi_line` and
    /// `int_line`, can end with `taken` and `next` and put `log` on the bus, for some bytes the
    /// bus returns
    pub open spec fn checked(self, nmi_line: bool, int_line: bool, taken: bool, next: Z80State, log: Seq<
        BusAccess,
    >) -> bool {
        exists|vector: u8, table_word: u16|
            #![trigger self.check_transfers(nmi_line, int_line, vector, table_word)]
            self.interrupt_check(nmi_line, int_line, table_word) == (taken, next)
                && self.check_transfers(nmi_line, int_line, vector, table_word) == log
    }

    /// Whether running one instruction (or one more prefix of a chain) from `self` can end in
    /// `next` and put `log` on the bus, for some bytes returned by the bus
    pub open spec fn ran_instruction(self, next: Z80State, log: Seq<BusAccess>) -> bool {
        exists|rs: Seq<u8>|
            #![trigger instruction_effect(self, rs)]
            instruction_effect(self, rs) == next && instruction_transfers(self, rs) == log
    }

    /// Whether an interrupt check with the inputs at `nmi_line` and `int_line`, followed by one
    /// instruction, can take `self` to `next` and put `log` on the bus: what [`Z80::emulate`]
    /// does
    pub open spec fn emulated(self, nmi_line: bool, int_line: bool, next: Z80State, log: Seq<BusAccess>) -> bool {
        exists|taken: bool, mid: Z80State, check_log: Seq<BusAccess>, run_log: Seq<BusAccess>|
            #![trigger self.checked(nmi_line, int_line, taken, mid, check_log), mid.ran_instruction(next, run_log)]
            self.checked(nmi_line, int_line, taken, mid, check_log) && mid.ran_instruction(next, run_log)
                && log == check_log + run_log
    }

    /// Whether a step that returned `r`, with the inputs at `nmi_line` and `int_line`, can take
    /// `self` to `next` and put `log` on the bus: an interrupt taken and the handler's address
    /// reported as the program counter, or else, with no interrupt taken, one instruction: what
    /// [`Z80::step`] does
    pub open spec fn stepped(self, r: Step, nmi_line: bool, int_line: bool, next: Z80State, log: Seq<
        BusAccess,
    >) -> bool {
        match r {
            Step::Interrupt => exists|check_log: Seq<BusAccess>|
                #![trigger self.checked(nmi_line, int_line, true, next, check_log)]
                self.checked(nmi_line, int_line, true, next, check_log) && log == check_log + seq![
                    BusAccess::Pc(next.regs.pc),
                ],
            Step::Instruction => exists|mid: Z80State, check_log: Seq<BusAccess>, run_log: Seq<BusAccess>|
                #![trigger self.checked(nmi_line, int_line, false, mid, check_log), mid.ran_instruction(next, run_log)]
                self.checked(nmi_line, int_line, false, mid, check_log) && mid.ran_instruction(
                    next,
                    run_log,
                ) && log == check_log + run_log,
        }
    }
}

/// What was appended to a sequence is what follows its old length
proof fn lemma_skip_appended(a: Seq<BusAccess>, b: Seq<BusAccess>)
    ensures
        (a + b).skip(a.len() as int) == b,
{
    assert((a + b).skip(a.len() as int) =~= b);
}

impl Default for Z80 {
    fn default() -> (z: Self)
        ensures
            z@ == Z80State::reset(),
    {
        Self {
            regs: Regs::default(),
            halted: false,
            skip_interrupt: false,
            int_mode: IntMode::Im0,
            active_prefix: Prefix::NoPrefix,
            nmi: NmiLatch { line: false, pending: false, responded: false },
            iff2_read: false,
        }
    }
}

impl Z80 {
    /// Reads byte from memory and increments PC
    pub(crate) fn fetch_byte<B: Z80Bus>(&mut self, bus: &mut B, clk: usize) -> (v: u8)
        ensures
            (*final(self) == Z80 { regs: Regs { pc: add16(old(self).regs.pc, 1), ..old(self).regs }, ..*old(self) } && final(bus).calls() == old(bus).calls() + (seq![BusAccess::Read(old(self).regs.pc, v, clk)])),
    {
        let addr = self.regs.get_pc();
        self.regs.inc_pc();
        bus.read(addr, clk)
    }

    /// Reads word from memory and increments PC twice
    pub(crate) fn fetch_word<B: Z80Bus>(&mut self, bus: &mut B, clk: usize) -> (v: u16)
        ensures
            (*final(self) == Z80 { regs: Regs { pc: add16(old(self).regs.pc, 2), ..old(self).regs }, ..*old(self) } && final(bus).calls() == old(bus).calls() + (seq![
                    BusAccess::Read(old(self).regs.pc, lo_byte(v), clk),
                    BusAccess::Read(add16(old(self).regs.pc, 1), hi_byte(v), clk),
                ])),
    {
        let lo_addr = self.regs.get_pc();
        let lo = bus.read(lo_addr, clk);
        let hi_addr = self.regs.inc_pc();
        let hi = bus.read(hi_addr, clk);
        self.regs.inc_pc();
        assert(bus.calls() =~= old(bus).calls() + seq![
            BusAccess::Read(old(self).regs.pc, lo, clk),
            BusAccess::Read(add16(old(self).regs.pc, 1), hi, clk),
        ]);
        make_word(hi, lo)
    }

    /// Checks is cpu halted
    pub fn is_halted(&self) -> (r: bool)
        ensures
            r == self@.halted,
    {
        self.halted
    }

    /// Returns current interrupt mode
    pub fn get_im(&self) -> (m: IntMode)
        ensures
            m == self@.int_mode,
    {
        self.int_mode
    }

    /// Changes interrupt mode
    ///
    /// `value` must be 0, 1 or 2.
    pub fn set_im(&mut self, value: u8)
        requires
            value < 3,
        ensures
            final(self)@ == (Z80State { int_mode: im_of(value), ..old(self)@ }),
            im_number(final(self)@.int_mode) == value,
    {
        self.int_mode = match value {
            0 => IntMode::Im0,
            1 => IntMode::Im1,
            _ => IntMode::Im2,
        }
    }

    /// Pops program counter to the stack. Exposed as a public crate interface to support
    /// 48K SNA loading in `rustzx-core` and fast tape loaders (Perform RET)
    pub fn pop_pc_from_stack<B: Z80Bus>(&mut self, bus: &mut B)
        ensures
            exists|lo: u8, hi: u8|
                #![trigger word(hi, lo)]
                final(self)@ == (Z80State {
                    regs: popped(old(self)@.regs, RegName16::PC, word(hi, lo)),
                    ..old(self)@
                }) && final(bus).calls() == old(bus).calls() + pop_reads(
                    old(self)@.regs.sp,
                    seq![lo, hi],
                    0,
                ),
    {
        let rs = execute_pop_16(self, bus, RegName16::PC, 0);
        proof {
            let lo = rs@[0];
            let hi = rs@[1];
            assert(rs@ =~= seq![lo, hi]);
            assert(word_at(rs@, 0) == word(hi, lo));
        }
    }

    /// Pushes program counter from the stack. Exposed as a public crate interface to support
    /// 48K SNA saving in `rustzx-core`
    pub fn push_pc_to_stack<B: Z80Bus>(&mut self, bus: &mut B)
        ensures
            final(self)@ == (Z80State { regs: Regs { sp: add16(old(self)@.regs.sp, -2), ..old(self)@.regs }, ..old(self)@ }),
            final(bus).calls() == old(bus).calls() + push_writes(old(self)@.regs.sp, old(self)@.regs.pc, 0),
    {
        execute_push_16(self, bus, RegName16::PC, 0);
    }

    /// Takes an NMI if one is due, or else a maskable interrupt if one is due; nothing while
    /// `int_held`. Returns whether one was taken, and, as ghost values, what a mode 2 interrupt
    /// read: the vector and the table word.
    #[verifier::rlimit(30)]
    fn handle_interrupt<B: Z80Bus>(&mut self, bus: &mut B, int_held: bool) -> (r: (bool, Ghost<(u8, u16)>))
        ensures
            ({
                let (vector, table_word) = r.1@;
                &&& old(self)@.accepted(int_held, old(bus).int_level(), table_word) == (r.0, final(self)@)
                &&& final(bus).calls() == old(bus).calls() + old(self)@.accepted_transfers(
                    int_held,
                    old(bus).int_level(),
                    vector,
                    table_word,
                )
            }),
    {
        let ghost s0 = self@;
        let ghost level = bus.int_level();
        if int_held {
            assert(bus.calls() =~= old(bus).calls() + s0.accepted_transfers(int_held, level, 0, 0));
            return (false, Ghost((0, 0)));
        }
        if self.nmi.take() {
            self.take_nmi(bus);
            (true, Ghost((0, 0)))
        } else if bus.int_active() && self.regs.get_iff1() {
            let w = self.take_int(bus);
            assert(bus.calls() =~= old(bus).calls() + s0.accepted_transfers(int_held, level, w@.0, w@.1));
            (true, w)
        } else {
            assert(s0.accepted(int_held, level, 0) == (false, self@));
            assert(bus.calls() =~= old(bus).calls() + s0.accepted_transfers(int_held, level, 0, 0));
            (false, Ghost((0, 0)))
        }
    }

    /// The response to an NMI, once the latch has given it up
    #[verifier::rlimit(30)]
    fn take_nmi<B: Z80Bus>(&mut self, bus: &mut B)
        ensures
            final(self)@ == (Z80State { nmi_pending: old(self)@.nmi_pending, nmi_responded: old(self)@.nmi_responded, ..old(self)@.unhalted().nmi_taken() }),
            final(bus).calls() == old(bus).calls() + old(self)@.release_transfers() + seq![
                BusAccess::Wait(old(self)@.unhalted().regs.pc, 5),
            ] + push_writes(old(self)@.unhalted().regs.sp, old(self)@.unhalted().regs.pc, 3),
    {
        let ghost s0 = self@;
        // q resets during interrupt
        self.regs.clear_q();
        // Release halt line on the bus
        if self.halted {
            bus.halt(false);
            self.halted = false;
            self.regs.inc_pc();
        }
        // push pc and set pc to 0x0066
        bus.wait_loop(self.regs.get_pc(), 5);
        self.regs.set_iff1(false);
        // 3 x 2 clocks consumed
        execute_push_16(self, bus, RegName16::PC, 3);
        self.regs.set_pc(0x0066);
        // mem_ptr is set to PC
        self.regs.set_mem_ptr(self.regs.get_pc());
        self.regs.inc_r();
        // 5 + 3 + 3 = 11 clocks
        assert(bus.calls() =~= old(bus).calls() + s0.release_transfers() + seq![
            BusAccess::Wait(s0.unhalted().regs.pc, 5),
        ] + push_writes(s0.unhalted().regs.sp, s0.unhalted().regs.pc, 3));
    }

    /// The response to a maskable interrupt; returns, as ghost values, what a mode 2 interrupt
    /// read: the vector and the table word
    #[verifier::rlimit(30)]
    fn take_int<B: Z80Bus>(&mut self, bus: &mut B) -> (w: Ghost<(u8, u16)>)
        ensures
            final(self)@ == old(self)@.int_taken(old(self)@.int_target(w@.1)),
            final(bus).calls() == old(bus).calls() + old(self)@.release_transfers() + push_writes(
                old(self)@.unhalted().regs.sp,
                old(self)@.unhalted().regs.pc,
                3,
            ) + old(self)@.vector_transfers(w@.0, w@.1),
    {
        let ghost s0 = self@;
        // On an NMOS Z80, accepting the interrupt resets IFF2 while `LD A,I` or `LD A,R`
        // is still copying it into P/V, so P/V reads 0
        if self.iff2_read {
            self.regs.set_flags(self.regs.get_flags() & !FLAG_PV);
        }
        // q resets during interrupt
        self.regs.clear_q();
        // Release halt line on the bus
        if self.halted {
            bus.halt(false);
            self.halted = false;
            self.regs.inc_pc();
        }
        self.regs.inc_r();
        self.regs.set_iff1(false);
        self.regs.set_iff2(false);
        execute_push_16(self, bus, RegName16::PC, 3);
        let ghost log1 = bus.calls();
        assert(log1 =~= old(bus).calls() + s0.release_transfers() + push_writes(
            s0.unhalted().regs.sp,
            s0.unhalted().regs.pc,
            3,
        ));
        let w = self.jump_to_handler(bus);
        // mem_ptr is set to PC
        self.regs.set_mem_ptr(self.regs.get_pc());
        w
    }

    /// The jump of a maskable interrupt to its handler, after the push; returns, as ghost
    /// values, what a mode 2 interrupt read: the vector and the table word
    #[verifier::rlimit(30)]
    fn jump_to_handler<B: Z80Bus>(&mut self, bus: &mut B) -> (w: Ghost<(u8, u16)>)
        ensures
            (*final(self) == Z80 { regs: Regs { pc: old(self)@.int_target(w@.1), ..old(self).regs }, ..*old(self) } && final(bus).calls() == old(bus).calls() + (old(self)@.vector_transfers(w@.0, w@.1))),
    {
        match self.int_mode {
            // For zx spectrum both Im0 and Im1 are same
            IntMode::Im0 | IntMode::Im1 => {
                self.regs.set_pc(0x0038);
                // 3 + 3 + 7 = 13 clocks
                bus.wait_internal(7);
                Ghost((0u8, 0u16))
            },
            // jump using interrupt vector
            IntMode::Im2 => {
                // build interrupt vector
                let vector = bus.read_interrupt();
                let addr = make_word(self.regs.get_i(), vector);
                let addr = bus.read_word(addr, 3);
                self.regs.set_pc(addr);
                bus.wait_internal(7);
                // 3 + 3 + 3 + 3 + 7 = 19 clocks
                assert(bus.calls() =~= old(bus).calls() + old(self)@.vector_transfers(vector, addr));
                Ghost((vector, addr))
            },
        }
    }

    /// Takes an interrupt if one is due and may be taken now, with the inputs at the levels the
    /// bus reports. Returns whether one was taken.
    #[verifier::rlimit(40)]
    fn check_interrupt<B: Z80Bus>(&mut self, bus: &mut B) -> (taken: bool)
        ensures
            old(self)@.checked(
                old(bus).nmi_level(),
                old(bus).int_level(),
                taken,
                final(self)@,
                final(bus).calls().skip(old(bus).calls().len() as int),
            ),
            final(bus).calls() =~= old(bus).calls() + final(bus).calls().skip(old(bus).calls().len() as int),
    {
        let ghost s0 = self@;
        let ghost il = bus.int_level();
        let line = bus.nmi_active();
        self.nmi.sample(line);
        let int_held = self.skip_interrupt;
        self.skip_interrupt = false;
        // No interrupt of either kind is taken until a chain of prefixes has its instruction
        if self.active_prefix != Prefix::NoPrefix {
            assert(s0.interrupt_check(line, il, 0) == (false, self@));
            assert(bus.calls().skip(old(bus).calls().len() as int) =~= s0.check_transfers(line, il, 0, 0));
            assert(s0.checked(line, il, false, self@, s0.check_transfers(line, il, 0, 0)));
            return false;
        }
        assert(self@ == s0.sampled(line));
        let (taken, w) = self.handle_interrupt(bus, int_held);
        proof {
            let (v, tw) = w@;
            let added = s0.check_transfers(line, il, v, tw);
            assert(added == s0.sampled(line).accepted_transfers(int_held, il, v, tw));
            assert(bus.calls() == old(bus).calls() + added);
            lemma_skip_appended(old(bus).calls(), added);
            assert(s0.interrupt_check(line, il, tw) == s0.sampled(line).accepted(int_held, il, tw));
            assert(s0.checked(line, il, taken, self@, added));
        }
        taken
    }

    /// Perform next emulation step
    ///
    /// Takes a pending interrupt first, if one is due, and then runs one instruction. When an
    /// interrupt is taken, the first instruction of its handler therefore runs in the same call.
    /// Use [`Z80::step`] to have the interrupt as a step of its own.
    #[verifier::rlimit(30)]
    pub fn emulate<B: Z80Bus>(&mut self, bus: &mut B)
        ensures
            exists|log: Seq<BusAccess>|
                #[trigger] old(self)@.emulated(old(bus).nmi_level(), old(bus).int_level(), final(self)@, log)
                    && final(bus).calls() == old(bus).calls() + log,
    {
        let ghost nl = bus.nmi_level();
        let ghost il = bus.int_level();
        let taken = self.check_interrupt(bus);
        let ghost mid = self@;
        let ghost log1 = bus.calls();
        let rs = self.execute_instruction(bus);
        proof {
            let check_log = log1.skip(old(bus).calls().len() as int);
            let run_log = instruction_transfers(mid, rs@);
            assert(instruction_effect(mid, rs@) == self@);
            assert(mid.ran_instruction(self@, run_log));
            assert(old(self)@.checked(nl, il, taken, mid, check_log));
            assert(old(self)@.emulated(nl, il, self@, check_log + run_log));
            assert(bus.calls() == old(bus).calls() + (check_log + run_log));
        }
    }

    /// Perform next emulation step, with an interrupt as a step of its own
    ///
    /// Either takes a pending interrupt, if one is due, or runs one instruction; never both.
    /// Calling `step` repeatedly runs a program as calling [`Z80::emulate`] repeatedly does, with
    /// the same timing. The difference is that after an interrupt the program counter is at the handler before any
    /// of it has run. That is where a caller can see that an interrupt happened, keep the state
    /// from just before its handler, or stop at a breakpoint on the handler's first instruction.
    ///
    /// After an interrupt, [`Z80Bus::pc_callback`] is called with the handler's address, as it
    /// is after an instruction.
    #[verifier::rlimit(30)]
    pub fn step<B: Z80Bus>(&mut self, bus: &mut B) -> (r: Step)
        ensures
            exists|log: Seq<BusAccess>|
                #[trigger] old(self)@.stepped(r, old(bus).nmi_level(), old(bus).int_level(), final(self)@, log)
                    && final(bus).calls() == old(bus).calls() + log,
    {
        let ghost nl = bus.nmi_level();
        let ghost il = bus.int_level();
        let taken = self.check_interrupt(bus);
        if taken {
            let ghost check_log = bus.calls().skip(old(bus).calls().len() as int);
            bus.pc_callback(self.regs.get_pc());
            proof {
                let log = check_log + seq![BusAccess::Pc(self.regs.pc)];
                assert(old(self)@.checked(nl, il, true, self@, check_log));
                assert(old(self)@.stepped(Step::Interrupt, nl, il, self@, log));
                assert(bus.calls() == old(bus).calls() + log);
            }
            Step::Interrupt
        } else {
            let ghost mid = self@;
            let ghost log1 = bus.calls();
            let rs = self.execute_instruction(bus);
            proof {
                let check_log = log1.skip(old(bus).calls().len() as int);
                let run_log = instruction_transfers(mid, rs@);
                assert(instruction_effect(mid, rs@) == self@);
                assert(mid.ran_instruction(self@, run_log));
                assert(old(self)@.checked(nl, il, false, mid, check_log));
                assert(old(self)@.stepped(Step::Instruction, nl, il, self@, check_log + run_log));
                assert(bus.calls() == old(bus).calls() + (check_log + run_log));
            }
            Step::Instruction
        }
    }

    /// Runs one instruction, or one more prefix of a chain of them, without looking at
    /// interrupts
    /// Decodes the prefixes of an instruction whose first byte is `byte1` and runs it; returns
    /// the bytes read after `byte1`
    #[verifier::rlimit(40)]
    fn execute_decoded<B: Z80Bus>(&mut self, bus: &mut B, byte1: u8) -> (rs: Ghost<Seq<u8>>)
        requires
            old(self).active_prefix == Prefix::NoPrefix,
        ensures
            final(self)@ == decoded_effect(old(self)@, byte1, rs@),
            final(bus).calls() == old(bus).calls() + decoded_transfers(old(self)@, byte1, rs@),
    {
        let ghost s1 = self@;
        let prefix_hi = Prefix::from_byte(byte1);
        match prefix_hi {
            Prefix::NoPrefix => {
                let opcode = Opcode::from_byte(byte1);
                self.regs.step_q();
                assert(self@ == opcode_fetched(s1));
                execute_normal(self, bus, opcode, Prefix::NoPrefix)
            },
            Prefix::DD | Prefix::FD => {
                let byte2 = self.fetch_byte(bus, 4);
                self.regs.inc_r();
                assert(self@ == m1_fetched(s1));
                let ghost s2 = self@;
                let prefix_lo = Prefix::from_byte(byte2);
                let head2: Ghost<Seq<u8>> = Ghost(Seq::empty().push(byte2));
                match prefix_lo {
                    Prefix::DD | Prefix::ED | Prefix::FD => {
                        self.active_prefix = prefix_lo;
                        self.skip_interrupt = true;
                        head2
                    },
                    Prefix::CB => {
                        self.regs.step_q();
                        assert(self@ == opcode_fetched(s2));
                        let tail = execute_bits(self, bus, prefix_hi);
                        let rs = Ghost(head2@ + tail@);
                        assert(rs@.skip(1) =~= tail@);
                        rs
                    },
                    Prefix::NoPrefix => {
                        let opcode = Opcode::from_byte(byte2);
                        self.regs.step_q();
                        assert(self@ == opcode_fetched(s2));
                        let tail = execute_normal(self, bus, opcode, prefix_hi);
                        let rs = Ghost(head2@ + tail@);
                        assert(rs@.skip(1) =~= tail@);
                        rs
                    },
                }
            },
            Prefix::CB => {
                // opcode will be read in the called
                self.regs.step_q();
                assert(self@ == opcode_fetched(s1));
                execute_bits(self, bus, Prefix::NoPrefix)
            },
            Prefix::ED => {
                let byte2 = self.fetch_byte(bus, 4);
                self.regs.inc_r();
                let opcode = Opcode::from_byte(byte2);
                self.regs.step_q();
                assert(self@ == opcode_fetched(m1_fetched(s1)));
                let tail = execute_extended(self, bus, opcode);
                let rs = Ghost(Seq::empty().push(byte2) + tail@);
                assert(rs@.skip(1) =~= tail@);
                rs
            },
        }
    }

    #[verifier::rlimit(40)]
    fn execute_instruction<B: Z80Bus>(&mut self, bus: &mut B) -> (rs: Ghost<Seq<u8>>)
        ensures
            final(self)@ == instruction_effect(old(self)@, rs@),
            final(bus).calls() == old(bus).calls() + instruction_transfers(old(self)@, rs@),
    {
        let ghost s0 = self@;
        self.iff2_read = false;
        self.nmi.instruction_ran();
        let had_prefix = self.active_prefix != Prefix::NoPrefix;
        let byte1 = if !had_prefix {
            self.regs.inc_r();
            self.fetch_byte(bus, 4)
        } else {
            let tmp = match self.active_prefix.to_byte() {
                Some(b) => b,
                None => 0,
            };
            self.active_prefix = Prefix::NoPrefix;
            tmp
        };
        let ghost head: Seq<u8> = if had_prefix {
            Seq::empty()
        } else {
            Seq::empty().push(byte1)
        };
        let ghost s1 = self@;
        assert(s1 == if had_prefix {
            instruction_start(s0)
        } else {
            m1_fetched(instruction_start(s0))
        });
        let tail = self.execute_decoded(bus, byte1);
        let rs = Ghost(head + tail@);
        assert(rs@.skip(head.len() as int) =~= tail@);
        assert(!had_prefix ==> rs@[0] == byte1);
        // Allow bus implementation to process pc-based events
        bus.pc_callback(self.regs.get_pc());
        rs
    }
}

} // verus!
