//! The bus the processor is attached to

use vstd::prelude::*;

use crate::opcode::{Opcode, Prefix};
use crate::regs::{add16, hi_byte, lo_byte, make_word, split_word, wrapping_add16};
use crate::transfers::BusAccess;

verus! {

/// The machine around the processor: memory, I/O ports, interrupt lines and timing.
///
/// What the methods do is the machine's business. What the processor relies on is stated over
/// three views of the bus: `calls`, the record of every call the processor has made, in order;
/// `int_level` and `nmi_level`, what the interrupt inputs read now. Each method the processor
/// calls adds its own entry to the record. An implementation checked with Verus keeps the record
/// as a ghost value and overrides these views; the empty defaults are for implementations that
/// are not checked, of which nothing is proved. Clock counts are in T-states.
pub trait Z80Bus {
    /// Every call the processor has made to this bus, in order
    open spec fn calls(&self) -> Seq<BusAccess> {
        Seq::empty()
    }

    /// Level of the maskable interrupt input now
    open spec fn int_level(&self) -> bool {
        false
    }

    /// Level of the NMI input now
    open spec fn nmi_level(&self) -> bool {
        false
    }

    /// Every untimed write to memory, in order, as (address, byte)
    open spec fn untimed_writes(&self) -> Seq<(u16, u8)> {
        Seq::empty()
    }

    /// Reads a byte from memory, without any timing (the processor does not call it)
    fn read_internal(&mut self, addr: u16) -> u8;

    /// Writes a byte to memory, without any timing (the processor does not call it)
    fn write_internal(&mut self, addr: u16, data: u8)
        ensures
            final(self).untimed_writes() == old(self).untimed_writes().push((addr, data)),
    ;

    /// `clk` cycles with `addr` on the address bus and no memory access
    fn wait_loop(&mut self, addr: u16, clk: usize)
        ensures
            final(self).calls() == old(self).calls().push(BusAccess::Wait(addr, clk)),
    ;

    /// `clk` cycles inside the processor, with nothing on the bus
    fn wait_internal(&mut self, clk: usize)
        ensures
            final(self).calls() == old(self).calls().push(BusAccess::Internal(clk)),
    ;

    /// A memory read taking `clk` cycles
    fn read(&mut self, addr: u16, clk: usize) -> (v: u8)
        ensures
            final(self).calls() == old(self).calls().push(BusAccess::Read(addr, v, clk)),
    ;

    /// A memory write taking `clk` cycles
    fn write(&mut self, addr: u16, value: u8, clk: usize)
        ensures
            final(self).calls() == old(self).calls().push(BusAccess::Write(addr, value, clk)),
    ;

    /// Reads a little-endian word: the low byte from `addr`, the high byte from the next address
    fn read_word(&mut self, addr: u16, clk: usize) -> (v: u16)
        ensures
            final(self).calls() == old(self).calls().push(BusAccess::Read(addr, lo_byte(v), clk)).push(
                BusAccess::Read(add16(addr, 1), hi_byte(v), clk),
            ),
    {
        let lo = self.read(addr, clk);
        let hi = self.read(wrapping_add16(addr, 1), clk);
        make_word(hi, lo)
    }

    /// Writes a little-endian word: the low byte to `addr`, the high byte to the next address
    fn write_word(&mut self, addr: u16, value: u16, clk: usize)
        ensures
            final(self).calls() == old(self).calls().push(BusAccess::Write(addr, lo_byte(value), clk)).push(
                BusAccess::Write(add16(addr, 1), hi_byte(value), clk),
            ),
    {
        let (hi, lo) = split_word(value);
        self.write(addr, lo, clk);
        self.write(wrapping_add16(addr, 1), hi, clk);
    }

    /// Reads an I/O port; the bus accounts for the time the access takes
    fn read_io(&mut self, port: u16) -> (v: u8)
        ensures
            final(self).calls() == old(self).calls().push(BusAccess::PortRead(port, v)),
    ;

    /// Writes an I/O port; the bus accounts for the time the access takes
    fn write_io(&mut self, port: u16, data: u8)
        ensures
            final(self).calls() == old(self).calls().push(BusAccess::PortWrite(port, data)),
    ;

    /// The byte a device puts on the data bus when a maskable interrupt is acknowledged
    fn read_interrupt(&mut self) -> (v: u8)
        ensures
            final(self).calls() == old(self).calls().push(BusAccess::Acknowledge(v)),
    ;

    /// Called when `RETI` runs, for devices that watch for it
    fn reti(&mut self)
        ensures
            final(self).calls() == old(self).calls().push(BusAccess::Reti),
    ;

    /// The HALT output: `true` when the processor halts, `false` when it leaves the halt
    fn halt(&mut self, halted: bool)
        ensures
            final(self).calls() == old(self).calls().push(BusAccess::Halt(halted)),
    ;

    /// Level of the maskable interrupt input
    fn int_active(&self) -> (r: bool)
        ensures
            r == self.int_level(),
    ;

    /// Level of the NMI input
    fn nmi_active(&self) -> (r: bool)
        ensures
            r == self.nmi_level(),
    ;

    /// Called with the program counter after each step
    fn pc_callback(&mut self, addr: u16)
        ensures
            final(self).calls() == old(self).calls().push(BusAccess::Pc(addr)),
    ;

    /// Called when the processor meets an opcode it does not execute; it then goes on as if the
    /// opcode did nothing
    fn process_unknown_opcode(&mut self, prefix: Prefix, opcode: Opcode)
        ensures
            final(self).calls() == old(self).calls().push(BusAccess::Unknown(prefix, opcode.byte)),
    ;
}

} // verus!
