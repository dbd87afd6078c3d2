//! Entries of the bounded trace log.
//!
//! The log is a FIFO of seven entries; every executed instruction and
//! every notable loader or reset event appends exactly one entry and
//! evicts the oldest. Entries are kept structured so that contracts can
//! speak about them exactly; rendering them for a display is left to
//! the surrounding program.

use vstd::prelude::*;

verus! {

/// One entry of the trace log. Operand fields hold the decoded values
/// after their modular reduction, exactly as the instruction used them.
#[derive(Debug, PartialEq, Eq)]
pub enum TraceEntry {
    /// An empty slot, as left behind by a reset.
    Blank,
    /// A halt instruction was executed.
    Halt,
    Add { d: u8, a: u8, b: u8 },
    Sub { d: u8, a: u8, b: u8 },
    And { d: u8, a: u8, b: u8 },
    Nor { d: u8, a: u8, b: u8 },
    Xor { d: u8, a: u8, b: u8 },
    Rsh { d: u8, a: u8 },
    Cmp { a: u8, b: u8 },
    /// Load immediate: register `d` received the value `v`.
    Ldi { d: u8, v: u8 },
    /// Load from data memory address `addr`.
    Ldm { d: u8, addr: u8 },
    /// Store register `s` to data memory address `addr`.
    Stm { s: u8, addr: u8 },
    /// Load through pointer register `p`.
    Ldp { d: u8, p: u8 },
    /// Store register `s` through pointer register `p`.
    Stp { p: u8, s: u8 },
    /// Conditional branch on flag `c` to address `addr`.
    Brc { c: u8, addr: u8 },
    /// Conditional branch on flag `c` through pointer register `p`.
    Brp { c: u8, p: u8 },
    Jmp { addr: u8 },
    /// Defensive entry for an opcode outside the table; unreachable
    /// with the full 4-bit opcode coverage.
    Unknown,
    /// Logged by a program reset: the number of instructions executed
    /// before the counter was cleared.
    ResetCount(u64),
    /// The instruction-memory source was loaded; holds its identifier.
    Loaded(String),
    /// A 16-character instruction-memory line failed to parse.
    RomCorrupted,
    /// An 8-character data-memory line failed to parse.
    RamCorrupted,
    /// No instruction-memory source was available.
    ProgramNotFound,
    /// The data-memory preset was loaded.
    RamLoaded,
}

} // verus!
