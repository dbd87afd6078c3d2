//! The machine aggregate: fixed-size stores with modular indexing,
//! the trace log, the run mode, and the reset lifecycle.

use vstd::prelude::*;

use crate::Mode;
use crate::model::{
    Model, blank_log, initial_model, full_reset_model, program_reset_model, push_entry,
    reset_flags, zero_bytes, zero_words,
};
use crate::trace::TraceEntry;

verus! {

/// The whole emulator: instruction memory, data memory, registers,
/// ports, flags, program counter, run mode, trace log, instruction
/// counter, and the last-touched indices kept for a highlighting
/// collaborator (pure metadata without semantic effect).
pub struct EmulatorState {
    pub rom: Vec<u16>,
    pub ram: Vec<u8>,
    pub reg: Vec<u8>,
    pub inp: Vec<u8>,
    pub out: Vec<u8>,
    pub flg: Vec<bool>,
    pub pc: u8,
    pub mode: Mode,
    pub log_buffer: Vec<TraceEntry>,
    pub executed_instructions: u64,
    pub current_rom_read: Option<u8>,
    pub current_ram_write: Option<u8>,
    pub current_reg_write: Option<u8>,
}

/// The index a mark holds, as a natural number.
pub open spec fn mark_view(o: Option<u8>) -> Option<nat> {
    match o {
        Some(i) => Some(i as nat),
        None => None,
    }
}

impl View for EmulatorState {
    type V = Model;

    open spec fn view(&self) -> Model {
        Model {
            rom: self.rom@,
            ram: self.ram@,
            reg: self.reg@,
            inp: self.inp@,
            out: self.out@,
            flg: self.flg@,
            pc: self.pc as nat,
            mode: self.mode,
            log: self.log_buffer@,
            executed: self.executed_instructions as nat,
            rom_read_mark: mark_view(self.current_rom_read),
            ram_write_mark: mark_view(self.current_ram_write),
            reg_write_mark: mark_view(self.current_reg_write),
        }
    }
}

/// A vector of `n` zero bytes.
fn make_zero_bytes(n: usize) -> (r: Vec<u8>)
    ensures
        r@ == zero_bytes(n as nat),
{
    let mut r: Vec<u8> = Vec::new();
    let mut i: usize = 0;
    while i < n
        invariant
            i <= n,
            r@.len() == i,
            forall|j: int| 0 <= j < i ==> r@[j] == 0u8,
        decreases n - i,
    {
        r.push(0);
        i = i + 1;
    }
    assert(r@ =~= zero_bytes(n as nat));
    r
}

/// A vector of `n` zero words.
fn make_zero_words(n: usize) -> (r: Vec<u16>)
    ensures
        r@ == zero_words(n as nat),
{
    let mut r: Vec<u16> = Vec::new();
    let mut i: usize = 0;
    while i < n
        invariant
            i <= n,
            r@.len() == i,
            forall|j: int| 0 <= j < i ==> r@[j] == 0u16,
        decreases n - i,
    {
        r.push(0);
        i = i + 1;
    }
    assert(r@ =~= zero_words(n as nat));
    r
}

/// The flag bank after a reset: all false but the sentinel flag 15.
fn make_reset_flags() -> (r: Vec<bool>)
    ensures
        r@ == reset_flags(),
{
    let mut r: Vec<bool> = Vec::new();
    let mut i: usize = 0;
    while i < 16
        invariant
            i <= 16,
            r@.len() == i,
            forall|j: int| 0 <= j < i ==> r@[j] == (j == 15),
        decreases 16 - i,
    {
        r.push(i == 15);
        i = i + 1;
    }
    assert(r@ =~= reset_flags());
    r
}

/// A cleared log: seven blank entries.
fn make_blank_log() -> (r: Vec<TraceEntry>)
    ensures
        r@ == blank_log(),
{
    let mut r: Vec<TraceEntry> = Vec::new();
    let mut i: usize = 0;
    while i < 7
        invariant
            i <= 7,
            r@.len() == i,
            forall|j: int| 0 <= j < i ==> r@[j] == TraceEntry::Blank,
        decreases 7 - i,
    {
        r.push(TraceEntry::Blank);
        i = i + 1;
    }
    assert(r@ =~= blank_log());
    r
}

impl EmulatorState {
    /// Well-formedness of the aggregate: the model image is well
    /// formed, that is, the stores have their fixed sizes and the
    /// program counter stays below 64.
    pub open spec fn wf(&self) -> bool {
        self@.wf()
    }

    /// A fresh machine: everything clear, sentinel flag set, `Setup`
    /// mode, blank log.
    pub fn new() -> (r: EmulatorState)
        ensures
            r.wf(),
            r@ == initial_model(),
    {
        let r = EmulatorState {
            rom: make_zero_words(64),
            ram: make_zero_bytes(32),
            reg: make_zero_bytes(8),
            inp: make_zero_bytes(8),
            out: make_zero_bytes(8),
            flg: make_reset_flags(),
            pc: 0,
            mode: Mode::Setup,
            log_buffer: make_blank_log(),
            executed_instructions: 0,
            current_rom_read: None,
            current_ram_write: None,
            current_reg_write: None,
        };
        assert(r@ =~= initial_model());
        r
    }

    /// Append one entry to the trace log, evicting the oldest.
    pub fn push_log(&mut self, e: TraceEntry)
        requires
            old(self).wf(),
        ensures
            final(self).wf(),
            final(self)@ == (Model { log: push_entry(old(self)@.log, e), ..old(self)@ }),
    {
        self.log_buffer.remove(0);
        self.log_buffer.push(e);
        assert(self@ =~= (Model { log: push_entry(old(self)@.log, e), ..old(self)@ }));
    }

    /// Clear the last-touched metadata of every store.
    pub fn reset_last_mods(&mut self)
        requires
            old(self).wf(),
        ensures
            final(self).wf(),
            final(self)@ == (Model {
                rom_read_mark: None,
                ram_write_mark: None,
                reg_write_mark: None,
                ..old(self)@
            }),
    {
        self.current_rom_read = None;
        self.current_ram_write = None;
        self.current_reg_write = None;
    }

    /// Write a word to instruction memory: the index wraps into the 64
    /// words and the value is truncated to 16 bits.
    pub fn write_to_rom(&mut self, idx: u16, val: u32)
        requires
            old(self).wf(),
        ensures
            final(self).wf(),
            final(self)@ == (Model {
                rom: old(self)@.rom.update((idx % 64) as int, (val % 65536) as u16),
                ..old(self)@
            }),
    {
        let i = (idx % 64) as usize;
        self.rom[i] = (val % 65536) as u16;
    }

    /// Read a word from instruction memory: the index wraps into the
    /// 64 words, and the fetch is remembered as the last read.
    pub fn read_from_rom(&mut self, idx: u16) -> (w: u16)
        requires
            old(self).wf(),
        ensures
            final(self).wf(),
            w == old(self)@.rom[(idx % 64) as int],
            final(self)@ == (Model {
                rom_read_mark: Some((idx % 64) as nat),
                ..old(self)@
            }),
    {
        let i = (idx % 64) as usize;
        self.current_rom_read = Some(i as u8);
        self.rom[i]
    }

    /// Write a byte to data memory: the index wraps into the 32 cells,
    /// the value is truncated to 8 bits, and the write is remembered.
    pub fn write_to_ram(&mut self, idx: u16, val: u16)
        requires
            old(self).wf(),
        ensures
            final(self).wf(),
            final(self)@ == (Model {
                ram: old(self)@.ram.update((idx % 32) as int, (val % 256) as u8),
                ram_write_mark: Some((idx % 32) as nat),
                ..old(self)@
            }),
    {
        let i = (idx % 32) as usize;
        self.ram[i] = (val % 256) as u8;
        self.current_ram_write = Some(i as u8);
    }

    /// Write a byte to a register: the index wraps into the 8
    /// registers, the value is truncated to 8 bits, and the write is
    /// remembered.
    pub fn write_to_regs(&mut self, idx: u16, val: u16)
        requires
            old(self).wf(),
        ensures
            final(self).wf(),
            final(self)@ == (Model {
                reg: old(self)@.reg.update((idx % 8) as int, (val % 256) as u8),
                reg_write_mark: Some((idx % 8) as nat),
                ..old(self)@
            }),
    {
        let i = (idx % 8) as usize;
        self.reg[i] = (val % 256) as u8;
        self.current_reg_write = Some(i as u8);
    }

    /// Program reset: clear data memory, registers, ports and flags
    /// (restoring the sentinel flag), return the program counter to
    /// zero and the mode to `Setup`, log the prior instruction count
    /// into a fresh log, and clear the counter. Instruction memory is
    /// kept.
    pub fn program_reset(&mut self)
        requires
            old(self).wf(),
        ensures
            final(self).wf(),
            final(self)@ == program_reset_model(old(self)@),
    {
        self.ram = make_zero_bytes(32);
        self.reg = make_zero_bytes(8);
        self.inp = make_zero_bytes(8);
        self.out = make_zero_bytes(8);
        self.flg = make_reset_flags();
        self.pc = 0;
        self.mode = Mode::Setup;
        self.log_buffer = make_blank_log();
        let count = self.executed_instructions;
        self.push_log(TraceEntry::ResetCount(count));
        self.executed_instructions = 0;
        self.reset_last_mods();
        assert(self@ =~= program_reset_model(old(self)@));
    }

    /// Full reset: clear the instruction memory as well, then perform
    /// a program reset.
    pub fn full_reset(&mut self)
        requires
            old(self).wf(),
        ensures
            final(self).wf(),
            final(self)@ == full_reset_model(old(self)@),
    {
        self.rom = make_zero_words(64);
        self.program_reset();
        assert(self@ =~= full_reset_model(old(self)@));
    }

    /// Step command: from `Setup` the machine enters single stepping;
    /// in any other state nothing changes. (Stepping itself is the
    /// caller's `cycle` call while in `ManualStep`.)
    pub fn request_step(&mut self)
        requires
            old(self).wf(),
        ensures
            final(self).wf(),
            final(self)@ == (Model {
                mode: if old(self)@.mode is Setup { Mode::ManualStep } else { old(self)@.mode },
                ..old(self)@
            }),
    {
        if let Mode::Setup = self.mode {
            self.mode = Mode::ManualStep;
        }
    }

    /// Demotion command: from `Automatic` the machine drops to
    /// `ManualStep` without executing anything; in any other state
    /// nothing changes.
    pub fn request_manual_mode(&mut self)
        requires
            old(self).wf(),
        ensures
            final(self).wf(),
            final(self)@ == (Model {
                mode: if old(self)@.mode is Automatic {
                    Mode::ManualStep
                } else {
                    old(self)@.mode
                },
                ..old(self)@
            }),
    {
        if let Mode::Automatic(_) = self.mode {
            self.mode = Mode::ManualStep;
        }
    }

    /// Run command: from `Setup` the machine enters free running at
    /// the initial advisory rate zero; in any other state nothing
    /// changes.
    pub fn request_automatic_mode(&mut self)
        requires
            old(self).wf(),
        ensures
            final(self).wf(),
            final(self)@ == (Model {
                mode: if old(self)@.mode is Setup {
                    Mode::Automatic(0)
                } else {
                    old(self)@.mode
                },
                ..old(self)@
            }),
    {
        if let Mode::Setup = self.mode {
            self.mode = Mode::Automatic(0);
        }
    }
}

} // verus!
