//! Putting Z80 code into memory from the emulator

use vstd::prelude::*;

use crate::bus::Z80Bus;
use crate::regs::{add16, hi_byte, lo_byte, split_word, wrapping_add16};

verus! {

/// Memory that code can be written into. Writing code is not an access by the processor, so it
/// takes no time.
///
/// `code_writes` is the record of the writes made, in order, as (address, byte). An
/// implementation checked with Verus keeps it as a ghost value and overrides it; the empty
/// default is for implementations that are not checked, of which nothing is proved.
pub trait CodegenMemorySpace {
    /// Every write made through this trait, in order, as (address, byte)
    open spec fn code_writes(&self) -> Seq<(u16, u8)> {
        Seq::empty()
    }

    /// Writes one byte
    fn write_byte(&mut self, addr: u16, byte: u8)
        ensures
            final(self).code_writes() == old(self).code_writes().push((addr, byte)),
    ;

    /// Writes a little-endian word: the low byte to `addr`, the high byte to the next address,
    /// which wraps around at the top of memory
    fn write_word(&mut self, addr: u16, word: u16)
        ensures
            final(self).code_writes() == old(self).code_writes().push((addr, lo_byte(word))).push(
                (add16(addr, 1), hi_byte(word)),
            ),
    {
        let (hi, lo) = split_word(word);
        self.write_byte(addr, lo);
        self.write_byte(wrapping_add16(addr, 1), hi);
    }
}

/// A bus takes code through its untimed memory write
impl<T: Z80Bus> CodegenMemorySpace for T {
    open spec fn code_writes(&self) -> Seq<(u16, u8)> {
        self.untimed_writes()
    }

    fn write_byte(&mut self, addr: u16, byte: u8) {
        self.write_internal(addr, byte);
    }
}

/// Writes instructions one after another into a memory space
pub struct CodeGenerator<'a, M: CodegenMemorySpace> {
    memory: &'a mut M,
    addr: u16,
}

impl<'a, M: CodegenMemorySpace> CodeGenerator<'a, M> {
    /// Where the next instruction goes
    pub closed spec fn position(&self) -> u16 {
        self.addr
    }

    /// The writes made so far to the memory space, in order, as (address, byte)
    pub closed spec fn emitted(&self) -> Seq<(u16, u8)> {
        self.memory.code_writes()
    }

    /// A generator writing into `memory`, from address 0
    pub fn new(memory: &'a mut M) -> (g: Self)
        ensures
            g.position() == 0,
            g.emitted() == old(memory).code_writes(),
    {
        CodeGenerator { memory, addr: 0 }
    }

    /// Moves to `addr`
    pub fn codegen_set_addr(&mut self, addr: u16) -> (g: &mut Self)
        ensures
            g.position() == addr,
            g.emitted() == old(self).emitted(),
            *final(self) == *final(g),
    {
        self.addr = addr;
        self
    }

    fn emit(&mut self, byte: u8)
        ensures
            final(self).position() == add16(old(self).position(), 1),
            final(self).emitted() == old(self).emitted().push((old(self).position(), byte)),
    {
        self.memory.write_byte(self.addr, byte);
        self.addr = wrapping_add16(self.addr, 1);
    }

    /// Writes `JP addr` (`C3`, then the address low byte first) and moves past it; addresses
    /// wrap around at the top of memory
    pub fn jump(&mut self, addr: u16) -> (g: &mut Self)
        ensures
            g.position() == add16(old(self).position(), 3),
            g.emitted() == old(self).emitted() + seq![
                (old(self).position(), 0xC3u8),
                (add16(old(self).position(), 1), lo_byte(addr)),
                (add16(old(self).position(), 2), hi_byte(addr)),
            ],
            *final(self) == *final(g),
    {
        let (hi, lo) = split_word(addr);
        self.emit(0xC3);
        self.emit(lo);
        self.emit(hi);
        self
    }
}

} // verus!
