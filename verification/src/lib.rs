//! A cycle-stepping emulator core for a minimal 16-bit instruction set:
//! 64 words of instruction memory addressed by a 6-bit program counter,
//! 32 bytes of data memory, 8 general registers, 8 input and 8 output
//! ports, and 16 one-bit condition flags.

use vstd::prelude::*;

pub mod engine;
pub mod loader;
pub mod model;
pub mod state;
pub mod trace;

verus! {

/// Run state of the engine. `cycle` may only be driven in `ManualStep`
/// or `Automatic`; the payload of `Automatic` is an advisory rate that
/// the caller may use for pacing.
#[derive(Clone, Copy, Debug, PartialEq, Eq)]
pub enum Mode {
    Setup,
    ManualStep,
    Automatic(u16),
}

} // verus!
