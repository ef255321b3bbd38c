//! Z80 registers

use vstd::prelude::*;

verus! {

/// Carry flag
pub const FLAG_CARRY: u8 = 0x01;
/// Add/subtract flag
pub const FLAG_SUB: u8 = 0x02;
/// Parity/overflow flag
pub const FLAG_PV: u8 = 0x04;
/// Undocumented bit 3 of F
pub const FLAG_F3: u8 = 0x08;
/// Half-carry flag
pub const FLAG_HALF: u8 = 0x10;
/// Undocumented bit 5 of F
pub const FLAG_F5: u8 = 0x20;
/// Zero flag
pub const FLAG_ZERO: u8 = 0x40;
/// Sign flag
pub const FLAG_SIGN: u8 = 0x80;

/// The 16-bit word whose high byte is `hi` and low byte is `lo`
pub open spec fn word(hi: u8, lo: u8) -> u16 {
    (hi as int * 256 + lo as int) as u16
}

/// High byte of a word
pub open spec fn hi_byte(w: u16) -> u8 {
    (w as int / 256) as u8
}

/// Low byte of a word
pub open spec fn lo_byte(w: u16) -> u8 {
    (w as int % 256) as u8
}

/// `w + d` in the 16-bit address space, which wraps around
pub open spec fn add16(w: u16, d: int) -> u16 {
    ((w as int + d) % 0x10000) as u16
}

/// `R` after one memory refresh: the low seven bits count up and wrap, bit 7 stays
pub open spec fn next_r(r: u8) -> u8 {
    ((r as int / 128) * 128 + (r as int % 128 + 1) % 128) as u8
}

/// Builds a word from its two bytes
pub fn make_word(hi: u8, lo: u8) -> (w: u16)
    ensures
        w == word(hi, lo),
        hi_byte(w) == hi,
        lo_byte(w) == lo,
{
    (hi as u16) * 256 + (lo as u16)
}

/// Splits a word into its high and low bytes
pub fn split_word(w: u16) -> (r: (u8, u8))
    ensures
        r.0 == hi_byte(w),
        r.1 == lo_byte(w),
        word(r.0, r.1) == w,
{
    ((w / 256) as u8, (w % 256) as u8)
}

/// `w + d` with wrap-around at the top of the 16-bit address space
pub fn wrapping_add16(w: u16, d: u16) -> (r: u16)
    ensures
        r == add16(w, d as int),
{
    let s: u32 = w as u32 + d as u32;
    (s % 0x10000) as u16
}

/// `w - d` with wrap-around at the bottom of the 16-bit address space
pub fn wrapping_sub16(w: u16, d: u16) -> (r: u16)
    ensures
        r == add16(w, -(d as int)),
{
    let s: u32 = w as u32 + 0x10000 - d as u32;
    (s % 0x10000) as u16
}

/// Names of the 16-bit register pairs
#[derive(Debug, Clone, Copy, PartialEq, Eq, Structural)]
pub enum RegName16 {
    AF,
    BC,
    DE,
    HL,
    IX,
    IY,
    SP,
    PC,
}

/// Z80 registers
///
/// Besides the programmer-visible registers, `q` holds the flags that the current instruction
/// wrote (0 when it wrote none) and `last_q` the value `q` had when the previous instruction
/// ended; `SCF` and `CCF` take bits 3 and 5 of F from it.
#[derive(Debug, Clone, Copy)]
pub struct Regs {
    pub a: u8,
    pub f: u8,
    pub b: u8,
    pub c: u8,
    pub d: u8,
    pub e: u8,
    pub h: u8,
    pub l: u8,
    pub a_alt: u8,
    pub f_alt: u8,
    pub b_alt: u8,
    pub c_alt: u8,
    pub d_alt: u8,
    pub e_alt: u8,
    pub h_alt: u8,
    pub l_alt: u8,
    pub ix: u16,
    pub iy: u16,
    pub sp: u16,
    pub pc: u16,
    pub i: u8,
    pub r: u8,
    pub mem_ptr: u16,
    pub iff1: bool,
    pub iff2: bool,
    pub q: u8,
    pub last_q: u8,
}

impl Default for Regs {
    /// All registers zero, both interrupt flip-flops reset
    fn default() -> (r: Self)
        ensures
            r == Regs::zero(),
    {
        Regs {
            a: 0,
            f: 0,
            b: 0,
            c: 0,
            d: 0,
            e: 0,
            h: 0,
            l: 0,
            a_alt: 0,
            f_alt: 0,
            b_alt: 0,
            c_alt: 0,
            d_alt: 0,
            e_alt: 0,
            h_alt: 0,
            l_alt: 0,
            ix: 0,
            iy: 0,
            sp: 0,
            pc: 0,
            i: 0,
            r: 0,
            mem_ptr: 0,
            iff1: false,
            iff2: false,
            q: 0,
            last_q: 0,
        }
    }
}

impl Regs {
    /// The register file with every register zero and both flip-flops reset
    pub open spec fn zero() -> Regs {
        Regs {
            a: 0,
            f: 0,
            b: 0,
            c: 0,
            d: 0,
            e: 0,
            h: 0,
            l: 0,
            a_alt: 0,
            f_alt: 0,
            b_alt: 0,
            c_alt: 0,
            d_alt: 0,
            e_alt: 0,
            h_alt: 0,
            l_alt: 0,
            ix: 0,
            iy: 0,
            sp: 0,
            pc: 0,
            i: 0,
            r: 0,
            mem_ptr: 0,
            iff1: false,
            iff2: false,
            q: 0,
            last_q: 0,
        }
    }

    /// Value of a register pair
    pub open spec fn reg16(self, name: RegName16) -> u16 {
        match name {
            RegName16::AF => word(self.a, self.f),
            RegName16::BC => word(self.b, self.c),
            RegName16::DE => word(self.d, self.e),
            RegName16::HL => word(self.h, self.l),
            RegName16::IX => self.ix,
            RegName16::IY => self.iy,
            RegName16::SP => self.sp,
            RegName16::PC => self.pc,
        }
    }

    /// The registers with a register pair set to `v`, nothing else changed
    pub open spec fn with_reg16(self, name: RegName16, v: u16) -> Regs {
        match name {
            RegName16::AF => Regs { a: hi_byte(v), f: lo_byte(v), ..self },
            RegName16::BC => Regs { b: hi_byte(v), c: lo_byte(v), ..self },
            RegName16::DE => Regs { d: hi_byte(v), e: lo_byte(v), ..self },
            RegName16::HL => Regs { h: hi_byte(v), l: lo_byte(v), ..self },
            RegName16::IX => Regs { ix: v, ..self },
            RegName16::IY => Regs { iy: v, ..self },
            RegName16::SP => Regs { sp: v, ..self },
            RegName16::PC => Regs { pc: v, ..self },
        }
    }

    /// The registers after `EXX`: BC, DE and HL change places with BC', DE' and HL'
    pub open spec fn exchanged(self) -> Regs {
        Regs {
            b: self.b_alt,
            c: self.c_alt,
            d: self.d_alt,
            e: self.e_alt,
            h: self.h_alt,
            l: self.l_alt,
            b_alt: self.b,
            c_alt: self.c,
            d_alt: self.d,
            e_alt: self.e,
            h_alt: self.h,
            l_alt: self.l,
            ..self
        }
    }

    /// Reads a register pair
    pub fn get_reg_16(&self, name: RegName16) -> (v: u16)
        ensures
            v == self.reg16(name),
    {
        match name {
            RegName16::AF => make_word(self.a, self.f),
            RegName16::BC => make_word(self.b, self.c),
            RegName16::DE => make_word(self.d, self.e),
            RegName16::HL => make_word(self.h, self.l),
            RegName16::IX => self.ix,
            RegName16::IY => self.iy,
            RegName16::SP => self.sp,
            RegName16::PC => self.pc,
        }
    }

    /// Writes a register pair
    pub fn set_reg_16(&mut self, name: RegName16, v: u16)
        ensures
            *final(self) == old(self).with_reg16(name, v),
    {
        let (hi, lo) = split_word(v);
        match name {
            RegName16::AF => {
                self.a = hi;
                self.f = lo;
            },
            RegName16::BC => {
                self.b = hi;
                self.c = lo;
            },
            RegName16::DE => {
                self.d = hi;
                self.e = lo;
            },
            RegName16::HL => {
                self.h = hi;
                self.l = lo;
            },
            RegName16::IX => {
                self.ix = v;
            },
            RegName16::IY => {
                self.iy = v;
            },
            RegName16::SP => {
                self.sp = v;
            },
            RegName16::PC => {
                self.pc = v;
            },
        }
    }

    /// Program counter
    pub fn get_pc(&self) -> (v: u16)
        ensures
            v == self.pc,
    {
        self.pc
    }

    /// Sets the program counter
    pub fn set_pc(&mut self, value: u16)
        ensures
            *final(self) == (Regs { pc: value, ..*old(self) }),
    {
        self.pc = value;
    }

    /// Increments the program counter, wrapping at the top of memory, and returns its new value
    pub fn inc_pc(&mut self) -> (v: u16)
        ensures
            v == add16(old(self).pc, 1),
            *final(self) == (Regs { pc: v, ..*old(self) }),
    {
        self.pc = wrapping_add16(self.pc, 1);
        self.pc
    }

    /// Stack pointer
    pub fn get_sp(&self) -> (v: u16)
        ensures
            v == self.sp,
    {
        self.sp
    }

    /// Sets the stack pointer
    pub fn set_sp(&mut self, value: u16)
        ensures
            *final(self) == (Regs { sp: value, ..*old(self) }),
    {
        self.sp = value;
    }

    /// Accumulator
    pub fn get_acc(&self) -> (v: u8)
        ensures
            v == self.a,
    {
        self.a
    }

    /// Sets the accumulator
    pub fn set_acc(&mut self, value: u8)
        ensures
            *final(self) == (Regs { a: value, ..*old(self) }),
    {
        self.a = value;
    }

    /// Flags register F
    pub fn get_flags(&self) -> (v: u8)
        ensures
            v == self.f,
    {
        self.f
    }

    /// Sets F as an instruction does: the value is also what the instruction wrote to the flags
    /// (Q)
    pub fn set_flags(&mut self, value: u8)
        ensures
            *final(self) == (Regs { f: value, q: value, ..*old(self) }),
    {
        self.f = value;
        self.q = value;
    }

    /// AF
    pub fn get_af(&self) -> (v: u16)
        ensures
            v == word(self.a, self.f),
    {
        make_word(self.a, self.f)
    }

    /// Sets AF
    pub fn set_af(&mut self, value: u16)
        ensures
            *final(self) == old(self).with_reg16(RegName16::AF, value),
    {
        self.set_reg_16(RegName16::AF, value);
    }

    /// BC
    pub fn get_bc(&self) -> (v: u16)
        ensures
            v == word(self.b, self.c),
    {
        make_word(self.b, self.c)
    }

    /// Sets BC
    pub fn set_bc(&mut self, value: u16)
        ensures
            *final(self) == old(self).with_reg16(RegName16::BC, value),
    {
        self.set_reg_16(RegName16::BC, value);
    }

    /// DE
    pub fn get_de(&self) -> (v: u16)
        ensures
            v == word(self.d, self.e),
    {
        make_word(self.d, self.e)
    }

    /// Sets DE
    pub fn set_de(&mut self, value: u16)
        ensures
            *final(self) == old(self).with_reg16(RegName16::DE, value),
    {
        self.set_reg_16(RegName16::DE, value);
    }

    /// HL
    pub fn get_hl(&self) -> (v: u16)
        ensures
            v == word(self.h, self.l),
    {
        make_word(self.h, self.l)
    }

    /// Sets HL
    pub fn set_hl(&mut self, value: u16)
        ensures
            *final(self) == old(self).with_reg16(RegName16::HL, value),
    {
        self.set_reg_16(RegName16::HL, value);
    }

    /// IX
    pub fn get_ix(&self) -> (v: u16)
        ensures
            v == self.ix,
    {
        self.ix
    }

    /// IY
    pub fn get_iy(&self) -> (v: u16)
        ensures
            v == self.iy,
    {
        self.iy
    }

    /// AF'
    pub fn get_af_alt(&self) -> (v: u16)
        ensures
            v == word(self.a_alt, self.f_alt),
    {
        make_word(self.a_alt, self.f_alt)
    }

    /// BC'
    pub fn get_bc_alt(&self) -> (v: u16)
        ensures
            v == word(self.b_alt, self.c_alt),
    {
        make_word(self.b_alt, self.c_alt)
    }

    /// DE'
    pub fn get_de_alt(&self) -> (v: u16)
        ensures
            v == word(self.d_alt, self.e_alt),
    {
        make_word(self.d_alt, self.e_alt)
    }

    /// HL'
    pub fn get_hl_alt(&self) -> (v: u16)
        ensures
            v == word(self.h_alt, self.l_alt),
    {
        make_word(self.h_alt, self.l_alt)
    }

    /// H'
    pub fn get_h_alt(&self) -> (v: u8)
        ensures
            v == self.h_alt,
    {
        self.h_alt
    }

    /// L'
    pub fn get_l_alt(&self) -> (v: u8)
        ensures
            v == self.l_alt,
    {
        self.l_alt
    }

    /// `EXX`: exchanges BC, DE and HL with BC', DE' and HL'
    pub fn exx(&mut self)
        ensures
            *final(self) == old(self).exchanged(),
    {
        let (b, c, d, e, h, l) = (self.b, self.c, self.d, self.e, self.h, self.l);
        self.b = self.b_alt;
        self.c = self.c_alt;
        self.d = self.d_alt;
        self.e = self.e_alt;
        self.h = self.h_alt;
        self.l = self.l_alt;
        self.b_alt = b;
        self.c_alt = c;
        self.d_alt = d;
        self.e_alt = e;
        self.h_alt = h;
        self.l_alt = l;
    }

    /// `EX AF,AF'`
    pub fn swap_af_alt(&mut self)
        ensures
            *final(self) == (Regs {
                a: old(self).a_alt,
                f: old(self).f_alt,
                a_alt: old(self).a,
                f_alt: old(self).f,
                ..*old(self)
            }),
    {
        let (a, f) = (self.a, self.f);
        self.a = self.a_alt;
        self.f = self.f_alt;
        self.a_alt = a;
        self.f_alt = f;
    }

    /// Interrupt vector register I
    pub fn get_i(&self) -> (v: u8)
        ensures
            v == self.i,
    {
        self.i
    }

    /// Sets I
    pub fn set_i(&mut self, value: u8)
        ensures
            *final(self) == (Regs { i: value, ..*old(self) }),
    {
        self.i = value;
    }

    /// Memory refresh register R
    pub fn get_r(&self) -> (v: u8)
        ensures
            v == self.r,
    {
        self.r
    }

    /// Sets R
    pub fn set_r(&mut self, value: u8)
        ensures
            *final(self) == (Regs { r: value, ..*old(self) }),
    {
        self.r = value;
    }

    /// Counts one memory refresh in R: bits 0 to 6 count up and wrap, bit 7 is kept
    pub fn inc_r(&mut self)
        ensures
            *final(self) == (Regs { r: next_r(old(self).r), ..*old(self) }),
    {
        let low: u8 = (self.r % 128 + 1) % 128;
        self.r = self.r - self.r % 128 + low;
    }

    /// MEMPTR, the internal address register
    pub fn get_mem_ptr(&self) -> (v: u16)
        ensures
            v == self.mem_ptr,
    {
        self.mem_ptr
    }

    /// Sets MEMPTR
    pub fn set_mem_ptr(&mut self, value: u16)
        ensures
            *final(self) == (Regs { mem_ptr: value, ..*old(self) }),
    {
        self.mem_ptr = value;
    }

    /// IFF1, which enables maskable interrupts
    pub fn get_iff1(&self) -> (v: bool)
        ensures
            v == self.iff1,
    {
        self.iff1
    }

    /// Sets IFF1
    pub fn set_iff1(&mut self, value: bool)
        ensures
            *final(self) == (Regs { iff1: value, ..*old(self) }),
    {
        self.iff1 = value;
    }

    /// IFF2, where IFF1 is kept during an NMI
    pub fn get_iff2(&self) -> (v: bool)
        ensures
            v == self.iff2,
    {
        self.iff2
    }

    /// Sets IFF2
    pub fn set_iff2(&mut self, value: bool)
        ensures
            *final(self) == (Regs { iff2: value, ..*old(self) }),
    {
        self.iff2 = value;
    }

    /// Q: the flags written by the instruction now running, 0 if it wrote none
    pub fn get_q(&self) -> (v: u8)
        ensures
            v == self.q,
    {
        self.q
    }

    /// Sets Q
    pub fn set_q(&mut self, value: u8)
        ensures
            *final(self) == (Regs { q: value, ..*old(self) }),
    {
        self.q = value;
    }

    /// Forgets what the flags were last written with (Q = 0)
    pub fn clear_q(&mut self)
        ensures
            *final(self) == (Regs { q: 0, ..*old(self) }),
    {
        self.q = 0;
    }

    /// Starts an instruction: Q moves to `last_q` and is cleared
    pub fn step_q(&mut self)
        ensures
            *final(self) == (Regs { last_q: old(self).q, q: 0, ..*old(self) }),
    {
        self.last_q = self.q;
        self.q = 0;
    }
}

} // verus!
