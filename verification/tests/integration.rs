//! The processor on a plain 64K memory bus that counts clocks and records what happens on it.

use rustzx_z80::{CodeGenerator, CodegenMemorySpace, Regs, Step, Z80Bus, Z80};

// --- The testing bus ---

#[derive(Debug, Clone, PartialEq)]
pub enum Event {
    Read(u16, u8),
    Write(u16, u8),
    Wait(u16, usize),
    Internal(usize),
    IoRead(u16, u8),
    IoWrite(u16, u8),
    Halt(bool),
    Pc(u16),
    Reti,
}

#[derive(Clone)]
pub struct TestingBus {
    memory: Vec<u8>,
    clocks: usize,
    nmi: bool,
    int: bool,
    recording: bool,
    events: Vec<Event>,
    waits: Vec<(u16, usize)>,
}

impl TestingBus {
    pub fn new(size: usize) -> Self {
        TestingBus {
            memory: vec![0; size],
            clocks: 0,
            nmi: false,
            int: false,
            recording: false,
            events: Vec::new(),
            waits: Vec::new(),
        }
    }

    pub fn load_to_memory(&mut self, data: &[u8], addr: u16) {
        for (i, b) in data.iter().enumerate() {
            let a = (addr as usize + i) % self.memory.len();
            self.memory[a] = *b;
        }
    }

    pub fn record_events(&mut self) {
        self.recording = true;
    }

    pub fn set_nmi(&mut self, active: bool) {
        self.nmi = active;
    }

    pub fn set_interrupt(&mut self, active: bool) {
        self.int = active;
    }

    pub fn take_events(&mut self) -> Vec<Event> {
        std::mem::take(&mut self.events)
    }

    pub fn take_waits(&mut self) -> Vec<(u16, usize)> {
        std::mem::take(&mut self.waits)
    }

    pub fn clocks(&self) -> usize {
        self.clocks
    }

    pub fn memory(&self) -> &[u8] {
        &self.memory
    }

    pub fn read_memory(&self, addr: u16) -> u8 {
        self.memory[addr as usize % self.memory.len()]
    }

    pub fn wait_mreq(&mut self, addr: u16, clk: usize) {
        self.clocks += clk;
        self.waits.push((addr, clk));
        self.record(Event::Wait(addr, clk));
    }

    pub fn wait_no_mreq(&mut self, addr: u16, clk: usize) {
        self.clocks += clk;
        self.waits.push((addr, clk));
        self.record(Event::Wait(addr, clk));
    }

    fn record(&mut self, e: Event) {
        if self.recording {
            self.events.push(e);
        }
    }
}

impl Z80Bus for TestingBus {
    fn read_internal(&mut self, addr: u16) -> u8 {
        let v = self.read_memory(addr);
        self.record(Event::Read(addr, v));
        v
    }

    fn write_internal(&mut self, addr: u16, data: u8) {
        let a = addr as usize % self.memory.len();
        self.memory[a] = data;
        self.record(Event::Write(addr, data));
    }

    fn wait_loop(&mut self, addr: u16, clk: usize) {
        for _ in 0..clk {
            self.wait_no_mreq(addr, 1);
        }
    }

    fn read(&mut self, addr: u16, clk: usize) -> u8 {
        self.wait_mreq(addr, clk);
        self.read_internal(addr)
    }

    fn write(&mut self, addr: u16, value: u8, clk: usize) {
        self.wait_mreq(addr, clk);
        self.write_internal(addr, value);
    }

    fn wait_internal(&mut self, clk: usize) {
        self.clocks += clk;
        self.record(Event::Internal(clk));
    }

    fn read_io(&mut self, port: u16) -> u8 {
        self.clocks += 4;
        self.record(Event::IoRead(port, 0xFF));
        0xFF
    }

    fn write_io(&mut self, port: u16, data: u8) {
        self.clocks += 4;
        self.record(Event::IoWrite(port, data));
    }

    fn read_interrupt(&mut self) -> u8 {
        0xFF
    }

    fn reti(&mut self) {
        self.record(Event::Reti);
    }

    fn halt(&mut self, halted: bool) {
        self.record(Event::Halt(halted));
    }

    fn int_active(&self) -> bool {
        self.int
    }

    fn nmi_active(&self) -> bool {
        self.nmi
    }

    fn pc_callback(&mut self, addr: u16) {
        self.record(Event::Pc(addr));
    }

    fn process_unknown_opcode(&mut self, _prefix: rustzx_z80::Prefix, _opcode: rustzx_z80::Opcode) {}
}

/// Everything a test compares two processors on
#[derive(Debug, Clone, PartialEq)]
pub struct Snapshot {
    pub af: u16,
    pub bc: u16,
    pub de: u16,
    pub hl: u16,
    pub af_alt: u16,
    pub bc_alt: u16,
    pub de_alt: u16,
    pub hl_alt: u16,
    pub ix: u16,
    pub iy: u16,
    pub sp: u16,
    pub pc: u16,
    pub i: u8,
    pub r: u8,
    pub mem_ptr: u16,
    pub iff1: bool,
    pub iff2: bool,
    pub halted: bool,
    pub im: u8,
}

pub fn snapshot(cpu: &Z80) -> Snapshot {
    let r = &cpu.regs;
    Snapshot {
        af: r.get_af(),
        bc: r.get_bc(),
        de: r.get_de(),
        hl: r.get_hl(),
        af_alt: r.get_af_alt(),
        bc_alt: r.get_bc_alt(),
        de_alt: r.get_de_alt(),
        hl_alt: u16::from_le_bytes([r.get_l_alt(), r.get_h_alt()]),
        ix: r.get_ix(),
        iy: r.get_iy(),
        sp: r.get_sp(),
        pc: r.get_pc(),
        i: r.get_i(),
        r: r.get_r(),
        mem_ptr: r.get_mem_ptr(),
        iff1: r.get_iff1(),
        iff2: r.get_iff2(),
        halted: cpu.is_halted(),
        im: u8::from(cpu.get_im()),
    }
}

// --- Corrections ---

const EXX: u8 = 0xD9;
const HALT: u8 = 0x76;
const NOP: u8 = 0x00;
const LD_NN_A: u8 = 0x32;
const OUT_N_A: u8 = 0xD3;
const PREFIX_ED: u8 = 0xED;
const LD_A_I: u8 = 0x57;
const LD_A_R: u8 = 0x5F;
const DI: u8 = 0xF3;

const FLAG_PV: u8 = 0x04;
const IM1_HANDLER: u16 = 0x0038;
const NMI_HANDLER: u16 = 0x0066;
const PROGRAM: u16 = 0x8000;
const STACK: u16 = 0xC000;

fn machine(program: &[u8]) -> (Z80, TestingBus) {
    let mut bus = TestingBus::new(0x10000);
    bus.load_to_memory(program, PROGRAM);
    bus.record_events();
    let mut cpu = Z80::default();
    cpu.set_im(1);
    cpu.regs.set_pc(PROGRAM);
    cpu.regs.set_sp(STACK);
    cpu.regs.set_iff1(true);
    cpu.regs.set_iff2(true);
    (cpu, bus)
}

#[test]
fn alternate_hl_getters_read_hl_alt() {
    let mut regs = Regs::default();
    regs.set_hl(0x1234);
    regs.exx();

    assert_eq!(regs.get_h_alt(), 0x12);
    assert_eq!(regs.get_l_alt(), 0x34);
    assert_eq!(regs.get_hl(), 0);
}

/// The test snapshot reads HL' through those getters, so it has to see EXX.
#[test]
fn snapshot_sees_exx() {
    let (mut cpu, mut bus) = machine(&[EXX]);
    cpu.regs.set_bc(0x1111);
    cpu.regs.set_de(0x2222);
    cpu.regs.set_hl(0x3333);

    cpu.emulate(&mut bus);

    let s = snapshot(&cpu);
    assert_eq!((s.bc, s.de, s.hl), (0, 0, 0));
    assert_eq!((s.bc_alt, s.de_alt, s.hl_alt), (0x1111, 0x2222, 0x3333));
}

// LD (addr),A: MEMPTR_low = (addr + 1) & 0xFF, MEMPTR_hi = A
// OUT (n),A:   MEMPTR_low = (n + 1) & 0xFF,    MEMPTR_hi = A

fn mem_ptr_after(program: &[u8], acc: u8) -> u16 {
    let (mut cpu, mut bus) = machine(program);
    cpu.regs.set_acc(acc);
    cpu.emulate(&mut bus);
    cpu.regs.get_mem_ptr()
}

#[test]
fn ld_nn_a_mem_ptr() {
    assert_eq!(mem_ptr_after(&[LD_NN_A, 0x34, 0x12], 0x56), 0x5635);
    assert_eq!(mem_ptr_after(&[LD_NN_A, 0xFF, 0x12], 0x40), 0x4000);
    assert_eq!(mem_ptr_after(&[LD_NN_A, 0x00, 0xFF], 0x00), 0x0001);
}

#[test]
fn out_n_a_mem_ptr() {
    assert_eq!(mem_ptr_after(&[OUT_N_A, 0xFE], 0x12), 0x12FF);
    assert_eq!(mem_ptr_after(&[OUT_N_A, 0xFF], 0x40), 0x4000);
}

struct Ram(Vec<u8>);

impl CodegenMemorySpace for Ram {
    fn write_byte(&mut self, addr: u16, byte: u8) {
        self.0[addr as usize] = byte;
    }
}

#[test]
fn codegen_write_word_is_little_endian_over_two_addresses() {
    let mut ram = Ram(vec![0; 0x10000]);

    ram.write_word(0x8000, 0x1234);

    assert_eq!(ram.0[0x8000..0x8002], [0x34, 0x12]);
}

#[test]
fn codegen_write_word_wraps_at_top_of_memory() {
    let mut ram = Ram(vec![0; 0x10000]);

    ram.write_word(0xFFFF, 0x1234);

    assert_eq!((ram.0[0xFFFF], ram.0[0x0000]), (0x34, 0x12));
}

/// Code put into memory by the emulator is not a memory access by the processor, so it must not
/// wait (and on a contended machine, be delayed).
#[test]
fn codegen_into_bus_does_not_wait() {
    let mut bus = TestingBus::new(0x10000);
    bus.record_events();

    CodeGenerator::new(&mut bus)
        .codegen_set_addr(0x4000)
        .jump(0x1234);
    CodegenMemorySpace::write_word(&mut bus, 0x5000, 0xBEEF);

    assert_eq!(bus.memory()[0x4000..0x4003], [0xC3, 0x34, 0x12]);
    assert_eq!(bus.memory()[0x5000..0x5002], [0xEF, 0xBE]);
    assert_eq!(bus.take_waits(), []);
    assert_eq!(bus.clocks(), 0);
}

/// The address space wraps instead of overflowing.
#[test]
fn codegen_wraps_at_top_of_memory() {
    let mut ram = Ram(vec![0; 0x10000]);

    CodeGenerator::new(&mut ram)
        .codegen_set_addr(0xFFFE)
        .jump(0x1234);

    assert_eq!(
        (ram.0[0xFFFE], ram.0[0xFFFF], ram.0[0x0000]),
        (0xC3, 0x34, 0x12)
    );
}

// --- NMI is edge-triggered ---

#[test]
fn held_nmi_is_taken_once_by_emulate() {
    let (mut cpu, mut bus) = machine(&[NOP; 8]);
    bus.load_to_memory(&[NOP; 8], NMI_HANDLER);
    bus.set_nmi(true);

    for _ in 0..5 {
        cpu.emulate(&mut bus);
    }

    assert_eq!(cpu.regs.get_sp(), STACK - 2);
    assert_eq!(cpu.regs.get_pc(), NMI_HANDLER + 5);
}

#[test]
fn held_nmi_is_taken_once_by_step() {
    let (mut cpu, mut bus) = machine(&[NOP; 8]);
    bus.load_to_memory(&[NOP; 8], NMI_HANDLER);
    bus.set_nmi(true);

    assert_eq!(cpu.step(&mut bus), Step::Interrupt);
    for _ in 0..4 {
        assert_eq!(cpu.step(&mut bus), Step::Instruction);
    }
    assert_eq!(cpu.regs.get_sp(), STACK - 2);
}

#[test]
fn nmi_raised_again_is_taken_again() {
    let (mut cpu, mut bus) = machine(&[NOP; 8]);
    bus.load_to_memory(&[NOP; 8], NMI_HANDLER);

    bus.set_nmi(true);
    cpu.emulate(&mut bus);
    cpu.emulate(&mut bus);
    bus.set_nmi(false);
    cpu.emulate(&mut bus);
    bus.set_nmi(true);
    cpu.emulate(&mut bus);

    assert_eq!(cpu.regs.get_sp(), STACK - 4);
}

/// An NMI pulse that ends while interrupts are held off (here, after DI) is still taken once
/// they are allowed again.
#[test]
fn nmi_pulse_during_deferral_is_latched() {
    let (mut cpu, mut bus) = machine(&[DI, NOP, NOP]);

    cpu.emulate(&mut bus);
    bus.set_nmi(true);
    cpu.emulate(&mut bus);
    bus.set_nmi(false);
    assert_eq!(cpu.regs.get_pc(), PROGRAM + 2);

    cpu.emulate(&mut bus);

    assert_eq!(cpu.regs.get_pc(), NMI_HANDLER + 1);
    assert_eq!(
        u16::from_le_bytes([
            bus.read_memory(cpu.regs.get_sp()),
            bus.read_memory(cpu.regs.get_sp() + 1)
        ]),
        PROGRAM + 2
    );
}

/// A clone carries a latched NMI with it.
#[test]
fn clone_keeps_latched_nmi() {
    let (mut cpu, mut bus) = machine(&[DI, NOP, NOP]);
    cpu.emulate(&mut bus);
    bus.set_nmi(true);
    cpu.emulate(&mut bus);
    bus.set_nmi(false);

    let mut copy = cpu.clone();
    let mut copy_bus = bus.clone();
    cpu.emulate(&mut bus);
    copy.emulate(&mut copy_bus);

    assert_eq!(copy.regs.get_pc(), NMI_HANDLER + 1);
    assert_eq!(snapshot(&copy), snapshot(&cpu));
}

// --- LD A,I and LD A,R ---

fn pv_after_interrupt(program: &[u8], int_after: usize, nmi: bool) -> bool {
    let (mut cpu, mut bus) = machine(program);
    bus.load_to_memory(&[HALT], IM1_HANDLER);
    bus.load_to_memory(&[HALT], NMI_HANDLER);
    for _ in 0..int_after {
        cpu.emulate(&mut bus);
    }
    assert!(
        cpu.regs.get_flags() & FLAG_PV != 0,
        "P/V is set from IFF2 first"
    );
    if nmi {
        bus.set_nmi(true);
    } else {
        bus.set_interrupt(true);
    }
    assert_eq!(cpu.step(&mut bus), Step::Interrupt);
    cpu.regs.get_flags() & FLAG_PV != 0
}

#[test]
fn interrupt_right_after_ld_a_i_resets_pv() {
    assert!(!pv_after_interrupt(&[PREFIX_ED, LD_A_I, NOP], 1, false));
}

#[test]
fn interrupt_right_after_ld_a_r_resets_pv() {
    assert!(!pv_after_interrupt(&[PREFIX_ED, LD_A_R, NOP], 1, false));
}

#[test]
fn interrupt_an_instruction_later_keeps_pv() {
    assert!(pv_after_interrupt(&[PREFIX_ED, LD_A_I, NOP], 2, false));
}

#[test]
fn nmi_right_after_ld_a_i_keeps_pv() {
    // An NMI leaves IFF2 alone, so there is nothing to race with.
    assert!(pv_after_interrupt(&[PREFIX_ED, LD_A_I, NOP], 1, true));
}

#[test]
fn ld_a_i_then_interrupt_same_both_ways() {
    let (mut cpu, mut bus) = machine(&[PREFIX_ED, LD_A_I, NOP]);
    bus.load_to_memory(&[NOP, NOP], IM1_HANDLER);
    cpu.emulate(&mut bus);
    bus.set_interrupt(true);
    let (mut other, mut other_bus) = (cpu.clone(), bus.clone());

    cpu.emulate(&mut bus);
    assert_eq!(other.step(&mut other_bus), Step::Interrupt);
    assert_eq!(other.step(&mut other_bus), Step::Instruction);

    assert_eq!(snapshot(&cpu), snapshot(&other));
    let events = bus.take_events();
    let mut other_events = other_bus.take_events();
    other_events.retain(|e| *e != Event::Pc(IM1_HANDLER));
    assert_eq!(events, other_events);
}

// --- Bits 3 and 5 of F ---

struct Case {
    code: &'static [u8],
    af: u16,
    bc: u16,
    de: u16,
    hl: u16,
    /// The byte at HL
    at_hl: u8,
    want_af: u16,
    t: usize,
}

fn run(case: &Case) {
    let mut bus = TestingBus::new(0x10000);
    bus.load_to_memory(case.code, 0x0000);
    if case.hl != 0 {
        bus.load_to_memory(&[case.at_hl], case.hl);
    }
    let mut cpu = Z80::default();
    let r = &mut cpu.regs;
    r.set_af(case.af);
    r.set_bc(case.bc);
    r.set_de(case.de);
    r.set_hl(case.hl);
    r.set_mem_ptr(0x0000);
    cpu.emulate(&mut bus);

    assert_eq!(cpu.regs.get_af(), case.want_af, "{:02x?}", case.code);
    assert_eq!(cpu.regs.get_pc(), case.code.len() as u16);
    assert_eq!(bus.clocks(), case.t);
}

/// SCF with A = 0 and F = 0xFF. Q = 0, so bits 3 and 5 come from (Q ^ F) | A = F.
#[test]
fn scf_37_1() {
    run(&Case {
        code: &[0x37],
        af: 0x00FF,
        bc: 0,
        de: 0,
        hl: 0,
        at_hl: 0,
        want_af: 0x00ED,
        t: 4,
    });
}

/// CCF with A = 0 and F = 0x5B.
#[test]
fn ccf_3f() {
    run(&Case {
        code: &[0x3F],
        af: 0x005B,
        bc: 0,
        de: 0,
        hl: 0,
        at_hl: 0,
        want_af: 0x0058,
        t: 4,
    });
}

/// BIT n,(HL). Bits 3 and 5 come from MEMPTR's high byte, which the cases state as 0.
#[test]
fn bit_n_hl_cases() {
    for case in [
        Case {
            code: &[0xCB, 0x4E],
            af: 0x2600,
            bc: 0x9207,
            de: 0x459A,
            hl: 0xADA3,
            at_hl: 0x5B,
            want_af: 0x2610,
            t: 12,
        },
        Case {
            code: &[0xCB, 0x5E],
            af: 0x3000,
            bc: 0xAD43,
            de: 0x16C1,
            hl: 0x349A,
            at_hl: 0x3C,
            want_af: 0x3010,
            t: 12,
        },
        Case {
            code: &[0xCB, 0x6E],
            af: 0x4A00,
            bc: 0x08C9,
            de: 0x8177,
            hl: 0xD8BA,
            at_hl: 0x31,
            want_af: 0x4A10,
            t: 12,
        },
        Case {
            code: &[0xCB, 0x76],
            af: 0xF800,
            bc: 0x3057,
            de: 0x3629,
            hl: 0xBC71,
            at_hl: 0x18,
            want_af: 0xF854,
            t: 12,
        },
    ] {
        run(&case);
    }
}

// --- Keeping, copying and restoring processor state ---

const LD_A_N: u8 = 0x3E;
const INC_A: u8 = 0x3C;

#[test]
fn clone_is_independent_of_original() {
    let mut bus = TestingBus::new(0x10000);
    bus.load_to_memory(&[LD_A_N, 0x42, INC_A], 0x8000);
    let mut cpu = Z80::default();
    cpu.regs.set_pc(0x8000);
    cpu.emulate(&mut bus);

    let copy = cpu.clone();
    cpu.emulate(&mut bus);

    assert_eq!(cpu.regs.get_acc(), 0x43);
    assert_eq!(cpu.regs.get_pc(), 0x8003);
    assert_eq!(copy.regs.get_acc(), 0x42);
    assert_eq!(copy.regs.get_pc(), 0x8002);
}
