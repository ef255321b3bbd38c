//! Z80 processor emulation
use vstd::prelude::*;

pub mod alu;
pub mod bus;
pub mod codegen;
pub mod cpu;
pub mod exec;
pub mod exec_bits;
pub mod exec_ed;
pub mod instruction_laws;
pub mod laws;
pub mod nmi_line;
pub mod opcode;
pub mod regs;
pub mod reports;
pub mod semantics;
pub mod transfers;

pub use bus::Z80Bus;
pub use codegen::{CodeGenerator, CodegenMemorySpace};
pub use cpu::{IntMode, Step, Z80};
pub use opcode::{Opcode, Prefix};
pub use transfers::BusAccess;
pub use regs::{RegName16, Regs, FLAG_CARRY, FLAG_F3, FLAG_F5, FLAG_HALF, FLAG_PV, FLAG_SIGN, FLAG_SUB, FLAG_ZERO};

verus! {

} // verus!
