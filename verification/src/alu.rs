//! Results and flags of the arithmetic and logic instructions

use vstd::prelude::*;

use crate::regs::{FLAG_CARRY, FLAG_F3, FLAG_F5, FLAG_HALF, FLAG_PV, FLAG_SIGN, FLAG_SUB, FLAG_ZERO};

verus! {

/// Bits 3 and 5 of F, which most instructions copy from a result
pub open spec fn xy_bits(v: u8) -> u8 {
    v & (FLAG_F5 | FLAG_F3)
}

/// S, Z and the undocumented bits 3 and 5, as an 8-bit result sets them
pub open spec fn sz53(v: u8) -> u8 {
    (v & (FLAG_SIGN | FLAG_F5 | FLAG_F3)) | (if v == 0 {
        FLAG_ZERO
    } else {
        0u8
    })
}

/// `flag` if `cond` holds, else no bit
pub open spec fn flag_if(cond: bool, flag: u8) -> u8 {
    if cond {
        flag
    } else {
        0u8
    }
}

/// A byte read as a two's-complement number
pub open spec fn signed8(v: int) -> int {
    if v >= 128 {
        v - 256
    } else {
        v
    }
}

/// Number of one bits in `v`
pub open spec fn ones(v: nat) -> nat
    decreases v,
{
    if v == 0 {
        0
    } else {
        v % 2 + ones(v / 2)
    }
}

/// `v` has an even number of one bits (P/V after a logic operation)
pub open spec fn even_parity(v: u8) -> bool {
    ones(v as nat) % 2 == 0
}

/// Result of `a + v + carry` in 8 bits
pub open spec fn add8(a: u8, v: u8, carry: bool) -> u8 {
    ((a + v + (if carry {
        1int
    } else {
        0int
    })) % 256) as u8
}

/// Flags after `ADD`/`ADC`: S, Z, bits 3 and 5 from the result; H on a carry out of bit 3; P/V
/// on signed overflow; N reset; C on a carry out of bit 7
pub open spec fn add8_flags(a: u8, v: u8, carry: bool) -> u8 {
    let c: int = if carry {
        1
    } else {
        0
    };
    let s = signed8(a as int) + signed8(v as int) + c;
    sz53(add8(a, v, carry)) | flag_if(a % 16 + v % 16 + c >= 16, FLAG_HALF) | flag_if(
        s < -128 || s > 127,
        FLAG_PV,
    ) | flag_if(a + v + c >= 256, FLAG_CARRY)
}

/// Result of `a - v - carry` in 8 bits
pub open spec fn sub8(a: u8, v: u8, carry: bool) -> u8 {
    ((a - v - (if carry {
        1int
    } else {
        0int
    }) + 512) % 256) as u8
}

/// Flags after `SUB`/`SBC`: as for addition, with borrows for carries, and N set
pub open spec fn sub8_flags(a: u8, v: u8, carry: bool) -> u8 {
    let c: int = if carry {
        1
    } else {
        0
    };
    let s = signed8(a as int) - signed8(v as int) - c;
    sz53(sub8(a, v, carry)) | flag_if(a % 16 < v % 16 + c, FLAG_HALF) | flag_if(
        s < -128 || s > 127,
        FLAG_PV,
    ) | FLAG_SUB | flag_if(a < v + c, FLAG_CARRY)
}

/// Flags after `CP v`: those of `SUB v`, except that bits 3 and 5 come from `v`
pub open spec fn cp_flags(a: u8, v: u8) -> u8 {
    let r = sub8(a, v, false);
    let s = signed8(a as int) - signed8(v as int);
    (r & FLAG_SIGN) | flag_if(r == 0, FLAG_ZERO) | xy_bits(v) | flag_if(a % 16 < v % 16, FLAG_HALF)
        | flag_if(s < -128 || s > 127, FLAG_PV) | FLAG_SUB | flag_if(a < v, FLAG_CARRY)
}

/// Flags after `AND`: H set, P/V the parity, N and C reset
pub open spec fn and_flags(r: u8) -> u8 {
    sz53(r) | FLAG_HALF | flag_if(even_parity(r), FLAG_PV)
}

/// Flags after `OR` and `XOR`: P/V the parity, H, N and C reset
pub open spec fn or_flags(r: u8) -> u8 {
    sz53(r) | flag_if(even_parity(r), FLAG_PV)
}

/// Flags after `INC` of `v`: C kept from `f`
pub open spec fn inc8_flags(v: u8, f: u8) -> u8 {
    let r = add8(v, 1, false);
    (f & FLAG_CARRY) | sz53(r) | flag_if(v % 16 == 15, FLAG_HALF) | flag_if(v == 0x7F, FLAG_PV)
}

/// Flags after `DEC` of `v`: C kept from `f`
pub open spec fn dec8_flags(v: u8, f: u8) -> u8 {
    let r = sub8(v, 1, false);
    (f & FLAG_CARRY) | sz53(r) | flag_if(v % 16 == 0, FLAG_HALF) | flag_if(v == 0x80, FLAG_PV)
        | FLAG_SUB
}

/// Bit `b` of `v`
pub open spec fn bit_of(v: u8, b: u8) -> bool {
    (v as int / pow2_8(b)) % 2 == 1
}

/// `2` to the power `b`, for the eight bit numbers of a byte
pub open spec fn pow2_8(b: u8) -> int {
    if b == 0 {
        1
    } else if b == 1 {
        2
    } else if b == 2 {
        4
    } else if b == 3 {
        8
    } else if b == 4 {
        16
    } else if b == 5 {
        32
    } else if b == 6 {
        64
    } else {
        128
    }
}

/// Flags after `BIT b` of `v`: Z and P/V set when the bit is clear, S when bit 7 is tested and
/// set, H set, N reset, C kept from `f`; bits 3 and 5 from `xy`, which depends on the operand
pub open spec fn bit_flags(b: u8, v: u8, f: u8, xy: u8) -> u8 {
    (f & FLAG_CARRY) | FLAG_HALF | flag_if(!bit_of(v, b), FLAG_ZERO | FLAG_PV) | flag_if(
        b == 7 && bit_of(v, b),
        FLAG_SIGN,
    ) | xy_bits(xy)
}

/// The one-bit mask of bit `b`
pub fn bit_mask(b: u8) -> (m: u8)
    requires
        b < 8,
    ensures
        m as int == pow2_8(b),
{
    match b {
        0 => 1,
        1 => 2,
        2 => 4,
        3 => 8,
        4 => 16,
        5 => 32,
        6 => 64,
        _ => 128,
    }
}

/// Whether bit `b` of `v` is set
pub fn test_bit(v: u8, b: u8) -> (r: bool)
    requires
        b < 8,
    ensures
        r == bit_of(v, b),
{
    (v / bit_mask(b)) % 2 == 1
}

/// The flags S, Z, 5 and 3 of a result
pub fn sz53_of(v: u8) -> (f: u8)
    ensures
        f == sz53(v),
{
    (v & (FLAG_SIGN | FLAG_F5 | FLAG_F3)) | (if v == 0 {
        FLAG_ZERO
    } else {
        0u8
    })
}

fn flag_when(cond: bool, flag: u8) -> (f: u8)
    ensures
        f == flag_if(cond, flag),
{
    if cond {
        flag
    } else {
        0
    }
}

/// Whether `v` has an even number of one bits
pub fn parity_even(v: u8) -> (r: bool)
    ensures
        r == even_parity(v),
{
    let mut x: u8 = v;
    let mut count: u8 = 0;
    while x > 0
        invariant
            ones(v as nat) == count + ones(x as nat),
            count + x <= v,
        decreases x,
    {
        count = count + x % 2;
        x = x / 2;
    }
    count % 2 == 0
}

/// `ADD`/`ADC`: the result and the flags
pub fn add8_exec(a: u8, v: u8, carry: bool) -> (r: (u8, u8))
    ensures
        r.0 == add8(a, v, carry),
        r.1 == add8_flags(a, v, carry),
{
    let c: u16 = if carry {
        1
    } else {
        0
    };
    let sum: u16 = a as u16 + v as u16 + c;
    let res: u8 = (sum % 256) as u8;
    let sa: i16 = if a >= 128 {
        a as i16 - 256
    } else {
        a as i16
    };
    let sv: i16 = if v >= 128 {
        v as i16 - 256
    } else {
        v as i16
    };
    let s: i16 = sa + sv + c as i16;
    let f = sz53_of(res) | flag_when((a % 16) as u16 + (v % 16) as u16 + c >= 16, FLAG_HALF)
        | flag_when(s < -128 || s > 127, FLAG_PV) | flag_when(sum >= 256, FLAG_CARRY);
    (res, f)
}

/// `SUB`/`SBC`: the result and the flags
pub fn sub8_exec(a: u8, v: u8, carry: bool) -> (r: (u8, u8))
    ensures
        r.0 == sub8(a, v, carry),
        r.1 == sub8_flags(a, v, carry),
{
    let c: u16 = if carry {
        1
    } else {
        0
    };
    let res: u8 = ((a as u16 + 512 - v as u16 - c) % 256) as u8;
    let sa: i16 = if a >= 128 {
        a as i16 - 256
    } else {
        a as i16
    };
    let sv: i16 = if v >= 128 {
        v as i16 - 256
    } else {
        v as i16
    };
    let s: i16 = sa - sv - c as i16;
    let f = sz53_of(res) | flag_when(((a % 16) as u16) < (v % 16) as u16 + c, FLAG_HALF)
        | flag_when(s < -128 || s > 127, FLAG_PV) | FLAG_SUB | flag_when(
        (a as u16) < v as u16 + c,
        FLAG_CARRY,
    );
    (res, f)
}

/// `CP`: the flags
pub fn cp_exec(a: u8, v: u8) -> (f: u8)
    ensures
        f == cp_flags(a, v),
{
    let res: u8 = ((a as u16 + 512 - v as u16) % 256) as u8;
    let sa: i16 = if a >= 128 {
        a as i16 - 256
    } else {
        a as i16
    };
    let sv: i16 = if v >= 128 {
        v as i16 - 256
    } else {
        v as i16
    };
    let s: i16 = sa - sv;
    (res & FLAG_SIGN) | flag_when(res == 0, FLAG_ZERO) | (v & (FLAG_F5 | FLAG_F3)) | flag_when(
        a % 16 < v % 16,
        FLAG_HALF,
    ) | flag_when(s < -128 || s > 127, FLAG_PV) | FLAG_SUB | flag_when(a < v, FLAG_CARRY)
}

/// `INC` of an 8-bit value: the result and the flags
pub fn inc8_exec(v: u8, f: u8) -> (r: (u8, u8))
    ensures
        r.0 == add8(v, 1, false),
        r.1 == inc8_flags(v, f),
{
    let res: u8 = ((v as u16 + 1) % 256) as u8;
    let flags = (f & FLAG_CARRY) | sz53_of(res) | flag_when(v % 16 == 15, FLAG_HALF) | flag_when(
        v == 0x7F,
        FLAG_PV,
    );
    (res, flags)
}

/// `DEC` of an 8-bit value: the result and the flags
pub fn dec8_exec(v: u8, f: u8) -> (r: (u8, u8))
    ensures
        r.0 == sub8(v, 1, false),
        r.1 == dec8_flags(v, f),
{
    let res: u8 = ((v as u16 + 511) % 256) as u8;
    let flags = (f & FLAG_CARRY) | sz53_of(res) | flag_when(v % 16 == 0, FLAG_HALF) | flag_when(
        v == 0x80,
        FLAG_PV,
    ) | FLAG_SUB;
    (res, flags)
}

/// Flags after `BIT b` of `v`
pub fn bit_exec(b: u8, v: u8, f: u8, xy: u8) -> (r: u8)
    requires
        b < 8,
    ensures
        r == bit_flags(b, v, f, xy),
{
    let set = test_bit(v, b);
    (f & FLAG_CARRY) | FLAG_HALF | flag_when(!set, FLAG_ZERO | FLAG_PV) | flag_when(
        b == 7 && set,
        FLAG_SIGN,
    ) | (xy & (FLAG_F5 | FLAG_F3))
}

} // verus!
