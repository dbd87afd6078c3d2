//! The mathematical model of the emulator.
//!
//! Every contract of the library is stated over [`Model`], the ghost
//! image of the machine: plain sequences for the stores, a natural
//! number for the program counter and the instruction counter, and the
//! trace log as a sequence of structured entries.

use vstd::prelude::*;

use crate::Mode;
use crate::trace::TraceEntry;

verus! {

/// Ghost image of the whole machine state.
#[verifier::ext_equal]
pub ghost struct Model {
    /// 64 instruction words of 16 bits.
    pub rom: Seq<u16>,
    /// 32 data cells of 8 bits.
    pub ram: Seq<u8>,
    /// 8 general registers of 8 bits.
    pub reg: Seq<u8>,
    /// 8 input ports of 8 bits.
    pub inp: Seq<u8>,
    /// 8 output ports of 8 bits.
    pub out: Seq<u8>,
    /// 16 one-bit condition flags.
    pub flg: Seq<bool>,
    /// 6-bit program counter, always below 64.
    pub pc: nat,
    /// Run state of the engine.
    pub mode: Mode,
    /// Bounded trace log of 7 entries, newest last.
    pub log: Seq<TraceEntry>,
    /// Instructions executed since the last program reset.
    pub executed: nat,
    /// Instruction-memory index of the last fetch, if any.
    pub rom_read_mark: Option<nat>,
    /// Data-memory index of the last write, if any.
    pub ram_write_mark: Option<nat>,
    /// Register index of the last write, if any.
    pub reg_write_mark: Option<nat>,
}

impl Model {
    /// Well-formedness: the stores have their fixed sizes and the
    /// program counter is within the instruction memory.
    pub open spec fn wf(self) -> bool {
        &&& self.rom.len() == 64
        &&& self.ram.len() == 32
        &&& self.reg.len() == 8
        &&& self.inp.len() == 8
        &&& self.out.len() == 8
        &&& self.flg.len() == 16
        &&& self.log.len() == 7
        &&& self.pc < 64
    }
}

/// A sequence of `n` zero bytes.
pub open spec fn zero_bytes(n: nat) -> Seq<u8> {
    Seq::new(n, |i: int| 0u8)
}

/// A sequence of `n` zero words.
pub open spec fn zero_words(n: nat) -> Seq<u16> {
    Seq::new(n, |i: int| 0u16)
}

/// The flag bank after a reset: all false but the sentinel flag 15,
/// which is always true.
pub open spec fn reset_flags() -> Seq<bool> {
    Seq::new(16, |i: int| i == 15)
}

/// The trace log after it was cleared: seven blank entries.
pub open spec fn blank_log() -> Seq<TraceEntry> {
    Seq::new(7, |i: int| TraceEntry::Blank)
}

/// One push onto the bounded log: the oldest entry is evicted and the
/// new entry appended.
pub open spec fn push_entry(log: Seq<TraceEntry>, e: TraceEntry) -> Seq<TraceEntry> {
    log.remove(0).push(e)
}

/// The state after a program reset: data memory, registers, ports and
/// flags cleared (restoring the sentinel flag), the program counter at
/// zero, the mode back to `Setup`, the prior instruction count logged
/// into a fresh log, and the counter cleared. Instruction memory is
/// kept.
pub open spec fn program_reset_model(m: Model) -> Model {
    Model {
        rom: m.rom,
        ram: zero_bytes(32),
        reg: zero_bytes(8),
        inp: zero_bytes(8),
        out: zero_bytes(8),
        flg: reset_flags(),
        pc: 0,
        mode: Mode::Setup,
        log: push_entry(blank_log(), TraceEntry::ResetCount(m.executed as u64)),
        executed: 0,
        rom_read_mark: None,
        ram_write_mark: None,
        reg_write_mark: None,
    }
}

/// The state after a full reset: a program reset with the instruction
/// memory cleared as well.
pub open spec fn full_reset_model(m: Model) -> Model {
    Model { rom: zero_words(64), ..program_reset_model(m) }
}

/// The state of a machine that was just constructed: everything clear,
/// the sentinel flag set, an all-blank log and `Setup` mode.
pub open spec fn initial_model() -> Model {
    Model {
        rom: zero_words(64),
        ram: zero_bytes(32),
        reg: zero_bytes(8),
        inp: zero_bytes(8),
        out: zero_bytes(8),
        flg: reset_flags(),
        pc: 0,
        mode: Mode::Setup,
        log: blank_log(),
        executed: 0,
        rom_read_mark: None,
        ram_write_mark: None,
        reg_write_mark: None,
    }
}

/// A program reset is idempotent but for the logged instruction count:
/// the second reset finds a cleared counter and logs zero.
pub proof fn lemma_program_reset_twice(m: Model)
    ensures
        program_reset_model(program_reset_model(m)) == (Model {
            log: program_reset_model(m).log.update(6, TraceEntry::ResetCount(0)),
            ..program_reset_model(m)
        }),
{
    let once = program_reset_model(m);
    let twice = program_reset_model(once);
    assert(twice.log =~= once.log.update(6, TraceEntry::ResetCount(0)));
    assert(twice =~= (Model { log: once.log.update(6, TraceEntry::ResetCount(0)), ..once }));
}

/// A full reset clears the instruction memory; a program reset keeps
/// it as it was.
pub proof fn lemma_reset_rom(m: Model)
    ensures
        program_reset_model(m).rom == m.rom,
        full_reset_model(m).rom == zero_words(64),
{
}

} // verus!
