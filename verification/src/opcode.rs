//! Opcode prefixes and the fields of an opcode byte

use vstd::prelude::*;

verus! {

/// Instruction prefix
#[derive(Debug, Clone, Copy, PartialEq, Eq, Structural)]
pub enum Prefix {
    NoPrefix,
    CB,
    DD,
    ED,
    FD,
}

/// The prefix that a byte is, `Prefix::NoPrefix` for any other byte
pub open spec fn prefix_of(byte: u8) -> Prefix {
    if byte == 0xCB {
        Prefix::CB
    } else if byte == 0xDD {
        Prefix::DD
    } else if byte == 0xED {
        Prefix::ED
    } else if byte == 0xFD {
        Prefix::FD
    } else {
        Prefix::NoPrefix
    }
}

/// The byte of a prefix
pub open spec fn prefix_byte(p: Prefix) -> Option<u8> {
    match p {
        Prefix::NoPrefix => None,
        Prefix::CB => Some(0xCBu8),
        Prefix::DD => Some(0xDDu8),
        Prefix::ED => Some(0xEDu8),
        Prefix::FD => Some(0xFDu8),
    }
}

impl Prefix {
    /// Which prefix a byte is
    pub fn from_byte(data: u8) -> (p: Prefix)
        ensures
            p == prefix_of(data),
    {
        match data {
            0xCB => Prefix::CB,
            0xDD => Prefix::DD,
            0xED => Prefix::ED,
            0xFD => Prefix::FD,
            _ => Prefix::NoPrefix,
        }
    }

    /// The byte of this prefix, `None` for no prefix
    pub fn to_byte(self) -> (b: Option<u8>)
        ensures
            b == prefix_byte(self),
    {
        match self {
            Prefix::NoPrefix => None,
            Prefix::CB => Some(0xCB),
            Prefix::DD => Some(0xDD),
            Prefix::ED => Some(0xED),
            Prefix::FD => Some(0xFD),
        }
    }
}

/// An opcode byte split into its fields: `x` is bits 7-6, `y` bits 5-3, `z` bits 2-0, and `y` is
/// `p` (its bits 2-1) and `q` (its bit 0)
#[derive(Debug, Clone, Copy, PartialEq, Eq, Structural)]
pub struct Opcode {
    pub byte: u8,
    pub x: u8,
    pub y: u8,
    pub z: u8,
    pub p: u8,
    pub q: u8,
}

impl Opcode {
    /// Whether the fields are those of `byte`
    pub open spec fn fields_of(self, byte: u8) -> bool {
        &&& self.byte == byte
        &&& self.x == byte / 64
        &&& self.y == (byte / 8) % 8
        &&& self.z == byte % 8
        &&& self.p == self.y / 2
        &&& self.q == self.y % 2
    }

    /// Splits an opcode byte into its fields
    pub fn from_byte(byte: u8) -> (op: Opcode)
        ensures
            op.fields_of(byte),
            op.x < 4,
            op.y < 8,
            op.z < 8,
            op.p < 4,
            op.q < 2,
    {
        let y = (byte / 8) % 8;
        Opcode { byte, x: byte / 64, y, z: byte % 8, p: y / 2, q: y % 2 }
    }
}

} // verus!
