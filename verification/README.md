# rustzx-z80, verified

A Z80 processor for emulators, written in Verus. The processor runs against a bus that the
embedding machine implements (`Z80Bus`): memory, I/O ports, the interrupt lines and the timing
are the machine's business. The trait states what the processor relies on over views of the
bus: the record of the calls made to it, and the levels of its interrupt inputs. Each method
adds its own call to the record; a bus checked with Verus keeps that record as a ghost value.
What the processor does, as calls on that record and changes to its own state, is proved here
for any bus that keeps to the trait.

## Layout

- `cpu.rs`: the processor (`Z80`), its interrupt handling, `emulate` and `step`, and
  `Z80State`, the state that the contracts speak of.
- `semantics.rs`: what each instruction does to that state, as spec functions of the state and
  of the bytes the bus returns.
- `bus.rs`: the bus trait and its contract.
- `transfers.rs`: the calls an instruction or an interrupt makes to the bus, in order: reads
  and writes with their clock cycles, port accesses, waits, the halt output, `RETI`, the program
  counter after each step.
- `exec.rs`, `exec_bits.rs`, `exec_ed.rs`: the instructions, each proved against its spec
  function and its transfers.
- `alu.rs`, `regs.rs`, `opcode.rs`: flags and arithmetic, the register file, opcode decoding.
- `laws.rs`, `nmi_line.rs`, `reports.rs`: properties across operations: interrupts and their hold-off, the
  edge-triggered NMI, `step` against `emulate`, `HALT`.
- `codegen.rs`: a small code generator for tests.

The tests under `tests/` run the library against concrete programs.
