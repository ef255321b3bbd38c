//! Instructions, interrupts and the pieces around them, on concrete values.

use rustzx_z80::{
    CodeGenerator, CodegenMemorySpace, IntMode, Opcode, Prefix, Regs, Step, Z80Bus, Z80,
};

/// A 64K memory bus counting T-states; the interrupting device puts 0xFF on the data bus and
/// I/O reads return 0xFF.
#[derive(Clone)]
struct Bus {
    memory: Vec<u8>,
    clocks: usize,
    nmi: bool,
    int: bool,
    halts: Vec<bool>,
    io_writes: Vec<(u16, u8)>,
    unknown: Vec<(Prefix, u8)>,
    retis: usize,
    pcs: Vec<u16>,
}

impl Bus {
    fn new() -> Self {
        Bus {
            memory: vec![0; 0x10000],
            clocks: 0,
            nmi: false,
            int: false,
            halts: Vec::new(),
            io_writes: Vec::new(),
            unknown: Vec::new(),
            retis: 0,
            pcs: Vec::new(),
        }
    }

    fn load(&mut self, data: &[u8], addr: u16) {
        for (i, b) in data.iter().enumerate() {
            self.memory[(addr as usize + i) % 0x10000] = *b;
        }
    }

    fn peek(&self, addr: u16) -> u8 {
        self.memory[addr as usize]
    }

    fn peek_word(&self, addr: u16) -> u16 {
        u16::from_le_bytes([self.peek(addr), self.peek(addr.wrapping_add(1))])
    }
}

impl Z80Bus for Bus {
    fn read_internal(&mut self, addr: u16) -> u8 {
        self.memory[addr as usize]
    }

    fn write_internal(&mut self, addr: u16, data: u8) {
        self.memory[addr as usize] = data;
    }

    fn wait_loop(&mut self, _addr: u16, clk: usize) {
        self.clocks += clk;
    }

    fn read(&mut self, addr: u16, clk: usize) -> u8 {
        self.clocks += clk;
        self.memory[addr as usize]
    }

    fn write(&mut self, addr: u16, value: u8, clk: usize) {
        self.clocks += clk;
        self.memory[addr as usize] = value;
    }

    fn wait_internal(&mut self, clk: usize) {
        self.clocks += clk;
    }

    fn read_io(&mut self, _port: u16) -> u8 {
        self.clocks += 4;
        0xFF
    }

    fn write_io(&mut self, port: u16, data: u8) {
        self.clocks += 4;
        self.io_writes.push((port, data));
    }

    fn read_interrupt(&mut self) -> u8 {
        0xFF
    }

    fn reti(&mut self) {
        self.retis += 1;
    }

    fn halt(&mut self, halted: bool) {
        self.halts.push(halted);
    }

    fn int_active(&self) -> bool {
        self.int
    }

    fn nmi_active(&self) -> bool {
        self.nmi
    }

    fn pc_callback(&mut self, addr: u16) {
        self.pcs.push(addr);
    }

    fn process_unknown_opcode(&mut self, prefix: Prefix, opcode: Opcode) {
        self.unknown.push((prefix, opcode.byte));
    }
}

const PROGRAM: u16 = 0x8000;
const STACK: u16 = 0xC000;

fn machine(program: &[u8]) -> (Z80, Bus) {
    let mut bus = Bus::new();
    bus.load(program, PROGRAM);
    let mut cpu = Z80::default();
    cpu.set_im(1);
    cpu.regs.set_pc(PROGRAM);
    cpu.regs.set_sp(STACK);
    (cpu, bus)
}

/// Runs one instruction and returns the T-states it took
fn run_one(cpu: &mut Z80, bus: &mut Bus) -> usize {
    let before = bus.clocks;
    cpu.emulate(bus);
    bus.clocks - before
}

// --- Construction and small pieces ---

#[test]
fn default_processor_is_reset() {
    let cpu = Z80::default();
    assert_eq!(cpu.regs.get_pc(), 0);
    assert_eq!(cpu.regs.get_af(), 0);
    assert_eq!(cpu.regs.get_sp(), 0);
    assert!(!cpu.is_halted());
    assert_eq!(u8::from(cpu.get_im()), 0);
    assert!(!cpu.regs.get_iff1() && !cpu.regs.get_iff2());
}

#[test]
fn interrupt_mode_round_trips() {
    let mut cpu = Z80::default();
    for v in 0..3u8 {
        cpu.set_im(v);
        assert_eq!(u8::from(cpu.get_im()), v);
    }
    assert_eq!(u8::from(IntMode::Im2), 2);
}

#[test]
fn register_pairs_split_into_bytes() {
    let mut regs = Regs::default();
    regs.set_af(0x1234);
    assert_eq!((regs.get_acc(), regs.get_flags()), (0x12, 0x34));
    regs.set_bc(0xBEEF);
    assert_eq!((regs.b, regs.c), (0xBE, 0xEF));
    regs.set_flags(0x55);
    assert_eq!(regs.get_q(), 0x55);
    regs.step_q();
    assert_eq!((regs.get_q(), regs.last_q), (0, 0x55));
}

#[test]
fn refresh_register_keeps_bit_7() {
    let mut regs = Regs::default();
    regs.set_r(0xFF);
    regs.inc_r();
    assert_eq!(regs.get_r(), 0x80);
    regs.set_r(0x7F);
    regs.inc_r();
    assert_eq!(regs.get_r(), 0x00);
    regs.set_r(0x41);
    regs.inc_r();
    assert_eq!(regs.get_r(), 0x42);
}

#[test]
fn exx_twice_restores_registers() {
    let mut regs = Regs::default();
    regs.set_bc(0x0102);
    regs.set_de(0x0304);
    regs.set_hl(0x0506);
    regs.exx();
    assert_eq!((regs.get_bc(), regs.get_bc_alt()), (0, 0x0102));
    regs.exx();
    assert_eq!((regs.get_bc(), regs.get_de(), regs.get_hl()), (0x0102, 0x0304, 0x0506));
}

#[test]
fn opcode_fields_and_prefixes() {
    let op = Opcode::from_byte(0x76);
    assert_eq!((op.x, op.y, op.z, op.p, op.q), (1, 6, 6, 3, 0));
    let op = Opcode::from_byte(0xCB);
    assert_eq!((op.x, op.y, op.z, op.p, op.q), (3, 1, 3, 0, 1));
    assert_eq!(Prefix::from_byte(0xDD), Prefix::DD);
    assert_eq!(Prefix::from_byte(0x00), Prefix::NoPrefix);
    assert_eq!(Prefix::FD.to_byte(), Some(0xFD));
    assert_eq!(Prefix::NoPrefix.to_byte(), None);
}

#[test]
fn push_and_pop_pc() {
    let (mut cpu, mut bus) = machine(&[]);
    cpu.regs.set_pc(0x1234);
    cpu.push_pc_to_stack(&mut bus);
    assert_eq!(cpu.regs.get_sp(), STACK - 2);
    assert_eq!((bus.peek(STACK - 2), bus.peek(STACK - 1)), (0x34, 0x12));
    cpu.regs.set_pc(0);
    cpu.pop_pc_from_stack(&mut bus);
    assert_eq!((cpu.regs.get_pc(), cpu.regs.get_sp()), (0x1234, STACK));
}

// --- Code generation ---

struct Ram(Vec<u8>);

impl CodegenMemorySpace for Ram {
    fn write_byte(&mut self, addr: u16, byte: u8) {
        self.0[addr as usize] = byte;
    }
}

#[test]
fn codegen_jumps_follow_one_another() {
    let mut ram = Ram(vec![0; 0x10000]);
    CodeGenerator::new(&mut ram).jump(0xABCD).jump(0x0102);
    assert_eq!(ram.0[0..6], [0xC3, 0xCD, 0xAB, 0xC3, 0x02, 0x01]);
}

// --- Arithmetic and logic ---

fn acc_flags_after(program: &[u8], a: u8, f: u8) -> (u8, u8) {
    let (mut cpu, mut bus) = machine(program);
    cpu.regs.set_acc(a);
    cpu.regs.f = f;
    cpu.emulate(&mut bus);
    (cpu.regs.get_acc(), cpu.regs.get_flags())
}

#[test]
fn add_overflows_into_sign() {
    assert_eq!(acc_flags_after(&[0xC6, 0x01], 0x7F, 0), (0x80, 0x94));
}

#[test]
fn sub_borrows_from_bit_4() {
    assert_eq!(acc_flags_after(&[0xD6, 0x01], 0x10, 0), (0x0F, 0x1A));
}

#[test]
fn cp_takes_bits_3_and_5_from_operand() {
    assert_eq!(acc_flags_after(&[0xFE, 0x28], 0x10, 0), (0x10, 0xBB));
}

#[test]
fn logic_sets_parity() {
    assert_eq!(acc_flags_after(&[0xE6, 0x0F], 0xF0, 0), (0x00, 0x54));
    assert_eq!(acc_flags_after(&[0xAF], 0x5A, 0xFF), (0x00, 0x44));
    assert_eq!(acc_flags_after(&[0xF6, 0x01], 0x00, 0), (0x01, 0x00));
}

#[test]
fn daa_after_addition() {
    let (mut cpu, mut bus) = machine(&[0x3E, 0x15, 0xC6, 0x27, 0x27]);
    cpu.emulate(&mut bus);
    cpu.emulate(&mut bus);
    assert_eq!(cpu.regs.get_acc(), 0x3C);
    cpu.emulate(&mut bus);
    assert_eq!((cpu.regs.get_acc(), cpu.regs.get_flags()), (0x42, 0x14));
}

#[test]
fn inc_and_dec_keep_carry() {
    assert_eq!(acc_flags_after(&[0x3C], 0x7F, 0), (0x80, 0x94));
    assert_eq!(acc_flags_after(&[0x3D], 0x01, 0x01), (0x00, 0x43));
}

#[test]
fn neg_subtracts_from_zero() {
    assert_eq!(acc_flags_after(&[0xED, 0x44], 0x01, 0), (0xFF, 0xBB));
}

#[test]
fn rotations_and_shifts() {
    assert_eq!(acc_flags_after(&[0x07], 0x81, 0), (0x03, 0x01));
    assert_eq!(acc_flags_after(&[0xCB, 0x2F], 0x81, 0), (0xC0, 0x85));
    let (mut cpu, mut bus) = machine(&[0xCB, 0x11]);
    cpu.regs.c = 0x80;
    cpu.emulate(&mut bus);
    assert_eq!((cpu.regs.c, cpu.regs.get_flags()), (0x00, 0x45));
}

#[test]
fn bit_set_and_res() {
    let (mut cpu, mut bus) = machine(&[0xCB, 0x7C, 0xCB, 0xC0, 0xCB, 0xBE]);
    cpu.regs.set_hl(0x8080);
    bus.load(&[0xFF], 0x8080);
    cpu.emulate(&mut bus);
    assert_eq!(cpu.regs.get_flags(), 0x90);
    cpu.emulate(&mut bus);
    assert_eq!(cpu.regs.b, 0x01);
    let t = run_one(&mut cpu, &mut bus);
    assert_eq!((bus.peek(0x8080), t), (0x7F, 15));
}

#[test]
fn sixteen_bit_arithmetic() {
    let (mut cpu, mut bus) = machine(&[0x19, 0xED, 0x52]);
    cpu.regs.set_hl(0x0FFF);
    cpu.regs.set_de(0x0001);
    let t = run_one(&mut cpu, &mut bus);
    assert_eq!((cpu.regs.get_hl(), cpu.regs.get_flags(), cpu.regs.get_mem_ptr(), t), (0x1000, 0x10, 0x1000, 11));
    let t = run_one(&mut cpu, &mut bus);
    assert_eq!((cpu.regs.get_hl(), cpu.regs.get_flags(), t), (0x0FFF, 0x1A, 15));
}

// --- Loads, jumps and the stack ---

#[test]
fn indexed_loads() {
    let (mut cpu, mut bus) = machine(&[0xDD, 0x7E, 0x05, 0xFD, 0x36, 0xFE, 0x99]);
    cpu.regs.ix = 0x9000;
    cpu.regs.iy = 0x9010;
    bus.load(&[0x77], 0x9005);
    let t = run_one(&mut cpu, &mut bus);
    assert_eq!((cpu.regs.get_acc(), cpu.regs.get_pc(), cpu.regs.get_mem_ptr(), t), (0x77, PROGRAM + 3, 0x9005, 19));
    let t = run_one(&mut cpu, &mut bus);
    assert_eq!((bus.peek(0x900E), cpu.regs.get_pc(), t), (0x99, PROGRAM + 7, 19));
}

#[test]
fn call_and_return() {
    let (mut cpu, mut bus) = machine(&[0xCD, 0x00, 0x90]);
    bus.load(&[0xC9], 0x9000);
    let t = run_one(&mut cpu, &mut bus);
    assert_eq!((cpu.regs.get_pc(), cpu.regs.get_sp(), t), (0x9000, STACK - 2, 17));
    assert_eq!(bus.peek_word(STACK - 2), PROGRAM + 3);
    let t = run_one(&mut cpu, &mut bus);
    assert_eq!((cpu.regs.get_pc(), cpu.regs.get_sp(), cpu.regs.get_mem_ptr(), t), (PROGRAM + 3, STACK, PROGRAM + 3, 10));
}

#[test]
fn restart_pushes_and_jumps() {
    let (mut cpu, mut bus) = machine(&[0xFF]);
    let t = run_one(&mut cpu, &mut bus);
    assert_eq!((cpu.regs.get_pc(), cpu.regs.get_sp(), t), (0x0038, STACK - 2, 11));
    assert_eq!(bus.peek_word(STACK - 2), PROGRAM + 1);
}

#[test]
fn relative_jumps() {
    let (mut cpu, mut bus) = machine(&[0x06, 0x03, 0x10, 0xFE]);
    let mut t = 0;
    for _ in 0..4 {
        t += run_one(&mut cpu, &mut bus);
    }
    assert_eq!((cpu.regs.b, cpu.regs.get_pc(), t), (0, PROGRAM + 4, 7 + 13 + 13 + 8));
    let (mut cpu, mut bus) = machine(&[0x18, 0xFE]);
    let t = run_one(&mut cpu, &mut bus);
    assert_eq!((cpu.regs.get_pc(), cpu.regs.get_mem_ptr(), t), (PROGRAM, PROGRAM, 12));
}

#[test]
fn block_transfer_repeats_until_bc_is_zero() {
    let (mut cpu, mut bus) = machine(&[0xED, 0xB0]);
    bus.load(&[1, 2, 3], 0x9000);
    cpu.regs.set_hl(0x9000);
    cpu.regs.set_de(0xA000);
    cpu.regs.set_bc(3);
    let mut t = 0;
    for _ in 0..3 {
        t += run_one(&mut cpu, &mut bus);
    }
    assert_eq!(bus.memory[0xA000..0xA003], [1, 2, 3]);
    assert_eq!((cpu.regs.get_bc(), cpu.regs.get_hl(), cpu.regs.get_de()), (0, 0x9003, 0xA003));
    assert_eq!((cpu.regs.get_pc(), t), (PROGRAM + 2, 21 + 21 + 16));
    assert_eq!(cpu.regs.get_flags() & 0x04, 0);
}

#[test]
fn block_compare_stops_on_match() {
    let (mut cpu, mut bus) = machine(&[0xED, 0xB1]);
    bus.load(&[1, 2, 3], 0x9000);
    cpu.regs.set_acc(2);
    cpu.regs.set_hl(0x9000);
    cpu.regs.set_bc(3);
    cpu.emulate(&mut bus);
    assert_eq!(cpu.regs.get_pc(), PROGRAM);
    cpu.emulate(&mut bus);
    assert_eq!((cpu.regs.get_hl(), cpu.regs.get_bc(), cpu.regs.get_pc()), (0x9002, 1, PROGRAM + 2));
    assert_eq!(cpu.regs.get_flags(), 0x46);
}

#[test]
fn block_input_repeats_until_b_is_zero() {
    let (mut cpu, mut bus) = machine(&[0xED, 0xB2]);
    cpu.regs.set_hl(0x9000);
    cpu.regs.set_bc(0x02FE);
    let t1 = run_one(&mut cpu, &mut bus);
    assert_eq!((cpu.regs.get_bc(), cpu.regs.get_hl(), cpu.regs.get_pc()), (0x01FE, 0x9001, PROGRAM));
    assert_eq!((cpu.regs.get_flags(), cpu.regs.get_mem_ptr(), t1), (0x13, PROGRAM + 1, 21));
    let t2 = run_one(&mut cpu, &mut bus);
    assert_eq!((cpu.regs.get_bc(), cpu.regs.get_hl(), cpu.regs.get_pc()), (0x00FE, 0x9002, PROGRAM + 2));
    assert_eq!((cpu.regs.get_flags(), cpu.regs.get_mem_ptr(), t2), (0x57, 0x01FF, 16));
    assert_eq!(bus.memory[0x9000..0x9002], [0xFF, 0xFF]);
}

#[test]
fn block_output_counts_b_down_before_the_write() {
    let (mut cpu, mut bus) = machine(&[0xED, 0xB3]);
    bus.load(&[0xAA, 0x55], 0x9000);
    cpu.regs.set_hl(0x9000);
    cpu.regs.set_bc(0x0210);
    cpu.emulate(&mut bus);
    assert_eq!((cpu.regs.get_flags(), cpu.regs.get_pc(), cpu.regs.get_mem_ptr()), (0x02, PROGRAM, PROGRAM + 1));
    cpu.emulate(&mut bus);
    assert_eq!(bus.io_writes, vec![(0x0110, 0xAA), (0x0010, 0x55)]);
    assert_eq!((cpu.regs.get_bc(), cpu.regs.get_hl(), cpu.regs.get_pc()), (0x0010, 0x9002, PROGRAM + 2));
    assert_eq!((cpu.regs.get_flags(), cpu.regs.get_mem_ptr()), (0x40, 0x0011));
}

#[test]
fn io_instructions() {
    let (mut cpu, mut bus) = machine(&[0xDB, 0xFE, 0xD3, 0x10]);
    cpu.regs.set_acc(0x12);
    let t = run_one(&mut cpu, &mut bus);
    assert_eq!((cpu.regs.get_acc(), cpu.regs.get_mem_ptr(), t), (0xFF, 0x12FF, 11));
    cpu.emulate(&mut bus);
    assert_eq!(bus.io_writes, vec![(0xFF10, 0xFF)]);
}

#[test]
fn exchanges() {
    let (mut cpu, mut bus) = machine(&[0x08, 0x08, 0xEB]);
    cpu.regs.set_af(0x1122);
    cpu.regs.set_de(0x3344);
    cpu.regs.set_hl(0x5566);
    cpu.emulate(&mut bus);
    assert_eq!((cpu.regs.get_af(), cpu.regs.get_af_alt()), (0x0000, 0x1122));
    cpu.emulate(&mut bus);
    assert_eq!(cpu.regs.get_af(), 0x1122);
    cpu.emulate(&mut bus);
    assert_eq!((cpu.regs.get_de(), cpu.regs.get_hl()), (0x5566, 0x3344));
}

#[test]
fn ld_r_a_then_refresh_keeps_bit_7() {
    let (mut cpu, mut bus) = machine(&[0xED, 0x4F, 0x00]);
    cpu.regs.set_acc(0x80);
    cpu.emulate(&mut bus);
    assert_eq!(cpu.regs.get_r(), 0x80);
    cpu.emulate(&mut bus);
    assert_eq!(cpu.regs.get_r(), 0x81);
}

#[test]
fn unknown_ed_opcode_does_nothing_but_report() {
    let (mut cpu, mut bus) = machine(&[0xED, 0x00]);
    let t = run_one(&mut cpu, &mut bus);
    assert_eq!((cpu.regs.get_pc(), t), (PROGRAM + 2, 8));
    assert_eq!(bus.unknown, vec![(Prefix::ED, 0x00)]);
}

// --- Halt and interrupts ---

#[test]
fn halt_repeats_until_an_interrupt() {
    let (mut cpu, mut bus) = machine(&[0x76]);
    cpu.regs.set_iff1(true);
    cpu.regs.set_iff2(true);
    for i in 0..3u8 {
        cpu.emulate(&mut bus);
        assert!(cpu.is_halted());
        assert_eq!((cpu.regs.get_pc(), cpu.regs.get_r()), (PROGRAM, i + 1));
    }
    assert_eq!(bus.halts, vec![true]);
    bus.int = true;
    assert_eq!(cpu.step(&mut bus), Step::Interrupt);
    assert!(!cpu.is_halted());
    assert_eq!(bus.halts, vec![true, false]);
    assert_eq!(cpu.regs.get_pc(), 0x0038);
    assert_eq!(bus.peek_word(cpu.regs.get_sp()), PROGRAM + 1);
}

#[test]
fn mode_2_interrupt_reads_vector_table() {
    let (mut cpu, mut bus) = machine(&[0x00]);
    cpu.set_im(2);
    cpu.regs.set_i(0x80);
    cpu.regs.set_iff1(true);
    cpu.regs.set_iff2(true);
    bus.load(&[0x34, 0x12], 0x80FF);
    bus.int = true;
    let before = bus.clocks;
    assert_eq!(cpu.step(&mut bus), Step::Interrupt);
    assert_eq!((cpu.regs.get_pc(), cpu.regs.get_mem_ptr(), bus.clocks - before), (0x1234, 0x1234, 19));
    assert!(!cpu.regs.get_iff1() && !cpu.regs.get_iff2());
    assert_eq!(bus.peek_word(cpu.regs.get_sp()), PROGRAM);
}

#[test]
fn maskable_interrupt_needs_iff1() {
    let (mut cpu, mut bus) = machine(&[0x00, 0x00]);
    bus.int = true;
    assert_eq!(cpu.step(&mut bus), Step::Instruction);
    cpu.regs.set_iff1(true);
    let before = bus.clocks;
    assert_eq!(cpu.step(&mut bus), Step::Interrupt);
    assert_eq!(bus.clocks - before, 13);
    assert_eq!(cpu.step(&mut bus), Step::Instruction);
}

#[test]
fn ei_holds_off_interrupt_for_one_instruction() {
    let (mut cpu, mut bus) = machine(&[0xFB, 0x00, 0x00]);
    bus.int = true;
    cpu.emulate(&mut bus);
    assert!(cpu.skip_interrupt);
    cpu.emulate(&mut bus);
    assert_eq!(cpu.regs.get_pc(), PROGRAM + 2);
    cpu.emulate(&mut bus);
    assert_eq!(cpu.regs.get_pc(), 0x0039);
    assert_eq!(bus.peek_word(cpu.regs.get_sp()), PROGRAM + 2);
}

#[test]
fn retn_restores_iff1_after_nmi() {
    let (mut cpu, mut bus) = machine(&[0x00, 0x00]);
    bus.load(&[0xED, 0x45], 0x0066);
    cpu.regs.set_iff1(true);
    cpu.regs.set_iff2(true);
    bus.nmi = true;
    let t = run_one(&mut cpu, &mut bus);
    assert_eq!(t, 11 + 14);
    assert_eq!(cpu.regs.get_pc(), PROGRAM);
    assert!(cpu.regs.get_iff1());
    assert!(cpu.skip_interrupt);
    assert_eq!(cpu.regs.get_sp(), STACK);
}

#[test]
fn reti_is_reported_to_the_bus() {
    let (mut cpu, mut bus) = machine(&[0xED, 0x4D]);
    bus.load(&[0x00, 0x90], STACK);
    cpu.emulate(&mut bus);
    assert_eq!((cpu.regs.get_pc(), bus.retis), (0x9000, 1));
}

#[test]
fn prefix_chain_holds_off_interrupts() {
    let (mut cpu, mut bus) = machine(&[0xDD, 0xDD, 0x00, 0x00]);
    cpu.regs.set_iff1(true);
    assert_eq!(cpu.step(&mut bus), Step::Instruction);
    assert_eq!(cpu.regs.get_pc(), PROGRAM + 2);
    bus.nmi = true;
    bus.int = true;
    assert_eq!(cpu.step(&mut bus), Step::Instruction);
    assert_eq!(cpu.regs.get_pc(), PROGRAM + 3);
    assert_eq!(cpu.step(&mut bus), Step::Interrupt);
    assert_eq!(cpu.regs.get_pc(), 0x0066);
}

#[test]
fn step_then_step_matches_emulate() {
    let (mut cpu, mut bus) = machine(&[0x00, 0x3C, 0x3C]);
    bus.load(&[0x3C, 0x3C], 0x0038);
    cpu.regs.set_iff1(true);
    cpu.regs.set_iff2(true);
    bus.int = true;
    let (mut other, mut other_bus) = (cpu.clone(), bus.clone());
    cpu.emulate(&mut bus);
    assert_eq!(other.step(&mut other_bus), Step::Interrupt);
    assert_eq!(other.step(&mut other_bus), Step::Instruction);
    assert_eq!(cpu.regs.get_pc(), other.regs.get_pc());
    assert_eq!(cpu.regs.get_acc(), other.regs.get_acc());
    assert_eq!(cpu.regs.get_r(), other.regs.get_r());
    assert_eq!(bus.clocks, other_bus.clocks);
    assert_eq!(bus.memory, other_bus.memory);
}

#[test]
fn nmi_dropped_after_it_is_taken_steps_as_emulate() {
    let (mut cpu, mut bus) = machine(&[0x00, 0x00]);
    bus.load(&[0x3C, 0x3C], 0x0066);
    bus.nmi = true;
    let (mut other, mut other_bus) = (cpu.clone(), bus.clone());
    cpu.emulate(&mut bus);
    assert_eq!(other.step(&mut other_bus), Step::Interrupt);
    assert_eq!(other.regs.get_pc(), 0x0066);
    other_bus.nmi = false;
    assert_eq!(other.step(&mut other_bus), Step::Instruction);
    assert_eq!((cpu.regs.get_pc(), other.regs.get_pc()), (0x0067, 0x0067));
    assert_eq!((cpu.regs.get_acc(), other.regs.get_acc()), (1, 1));
    assert_eq!(cpu.regs.get_sp(), other.regs.get_sp());
    assert_eq!(cpu.regs.get_r(), other.regs.get_r());
    assert_eq!(bus.clocks, other_bus.clocks);
    assert_eq!(bus.memory, other_bus.memory);
    assert_eq!(other_bus.peek_word(STACK - 2), PROGRAM);
}

#[test]
fn every_step_reports_the_program_counter_it_leaves() {
    let (mut cpu, mut bus) = machine(&[0x00, 0x00]);
    bus.load(&[0x3C], 0x0038);
    cpu.regs.set_iff1(true);
    cpu.regs.set_iff2(true);
    bus.int = true;
    assert_eq!(cpu.step(&mut bus), Step::Interrupt);
    assert_eq!(bus.pcs, vec![0x0038]);
    bus.int = false;
    assert_eq!(cpu.step(&mut bus), Step::Instruction);
    assert_eq!(bus.pcs, vec![0x0038, 0x0039]);
    cpu.emulate(&mut bus);
    assert_eq!(bus.pcs, vec![0x0038, 0x0039, 0x003A]);
}

/// T-states of one instruction run from `PROGRAM`, with HL, IX and IY at 0x9000, SP at `STACK`,
/// B = 2 and BC = 0x0203, flags all clear
fn clocks_of(program: &[u8]) -> usize {
    let (mut cpu, mut bus) = machine(program);
    cpu.regs.set_hl(0x9000);
    cpu.regs.set_reg_16(rustzx_z80::RegName16::IX, 0x9000);
    cpu.regs.set_reg_16(rustzx_z80::RegName16::IY, 0x9000);
    cpu.regs.set_bc(0x0203);
    cpu.regs.set_de(0xA000);
    cpu.regs.set_af(0x0000);
    run_one(&mut cpu, &mut bus)
}

#[test]
fn instruction_timings() {
    let cases: Vec<(&[u8], usize)> = vec![
        (&[0x00], 4),
        (&[0x3E, 0x01], 7),
        (&[0x36, 0x01], 10),
        (&[0xDD, 0x36, 0x01, 0x02], 19),
        (&[0x34], 11),
        (&[0xDD, 0x34, 0x01], 23),
        (&[0x09], 11),
        (&[0xDD, 0x09], 15),
        (&[0x2A, 0x00, 0x90], 16),
        (&[0x22, 0x00, 0x90], 16),
        (&[0x3A, 0x00, 0x90], 13),
        (&[0x18, 0x02], 12),
        (&[0x20, 0x02], 12),
        (&[0x28, 0x02], 7),
        (&[0x10, 0x02], 13),
        (&[0xCD, 0x00, 0x90], 17),
        (&[0xCC, 0x00, 0x90], 10),
        (&[0xC9], 10),
        (&[0xC0], 11),
        (&[0xC8], 5),
        (&[0xFF], 11),
        (&[0xC5], 11),
        (&[0xC1], 10),
        (&[0xE3], 19),
        (&[0xDD, 0xE3], 23),
        (&[0xE9], 4),
        (&[0xF9], 6),
        (&[0x03], 6),
        (&[0x7E], 7),
        (&[0xDD, 0x7E, 0x01], 19),
        (&[0x86], 7),
        (&[0xDD, 0x86, 0x01], 19),
        (&[0xDB, 0xFE], 11),
        (&[0xD3, 0xFE], 11),
        (&[0xCB, 0x46], 12),
        (&[0xDD, 0xCB, 0x01, 0x46], 20),
        (&[0xCB, 0xC6], 15),
        (&[0xDD, 0xCB, 0x01, 0xC6], 23),
        (&[0xCB, 0x00], 8),
        (&[0xED, 0x57], 9),
        (&[0xED, 0x47], 9),
        (&[0xED, 0x67], 18),
        (&[0xED, 0x40], 12),
        (&[0xED, 0x41], 12),
        (&[0xED, 0x42], 15),
        (&[0xED, 0x43, 0x00, 0x90], 20),
        (&[0xED, 0x4B, 0x00, 0x90], 20),
        (&[0xED, 0x44], 8),
        (&[0xED, 0x56], 8),
        (&[0xED, 0x45], 14),
        (&[0xED, 0xA0], 16),
        (&[0xED, 0xB0], 21),
        (&[0xED, 0xA1], 16),
        (&[0xED, 0xA2], 16),
        (&[0xED, 0xA3], 16),
        (&[0xD9], 4),
        (&[0x76], 4),
        (&[0xF3], 4),
    ];
    for (program, expected) in cases {
        assert_eq!((program.to_vec(), clocks_of(program)), (program.to_vec(), expected));
    }
}

#[test]
fn interrupt_responses_take_their_cycles() {
    let (mut cpu, mut bus) = machine(&[0x00]);
    bus.nmi = true;
    assert_eq!(cpu.step(&mut bus), Step::Interrupt);
    assert_eq!(bus.clocks, 11);

    let (mut cpu, mut bus) = machine(&[0x00]);
    cpu.regs.set_iff1(true);
    bus.int = true;
    assert_eq!(cpu.step(&mut bus), Step::Interrupt);
    assert_eq!(bus.clocks, 13);

    let (mut cpu, mut bus) = machine(&[0x00]);
    cpu.set_im(2);
    cpu.regs.set_i(0x80);
    cpu.regs.set_iff1(true);
    bus.load(&[0x34, 0x12], 0x80FF);
    bus.int = true;
    assert_eq!(cpu.step(&mut bus), Step::Interrupt);
    assert_eq!((bus.clocks, cpu.regs.get_pc()), (19, 0x1234));
}

#[test]
fn a_step_without_interrupt_is_one_emulate() {
    let (mut cpu, mut bus) = machine(&[0x3E, 0x42, 0x32, 0x00, 0x90]);
    let (mut other, mut other_bus) = (cpu.clone(), bus.clone());
    for _ in 0..2 {
        cpu.emulate(&mut bus);
        assert_eq!(other.step(&mut other_bus), Step::Instruction);
    }
    assert_eq!((cpu.regs.get_acc(), cpu.regs.get_pc()), (other.regs.get_acc(), other.regs.get_pc()));
    assert_eq!((bus.clocks, bus.peek(0x9000)), (other_bus.clocks, other_bus.peek(0x9000)));
    assert_eq!(bus.peek(0x9000), 0x42);
}
