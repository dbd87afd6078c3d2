//! The fetch-decode-execute engine.
//!
//! [`step`] is the mathematical transition function of the machine:
//! one fetch at the program counter, the full 16-entry opcode table,
//! the flag-update rules, the trace entry and the instruction count.
//! [`EmulatorState::cycle`] is the executable engine, proved to effect
//! exactly one [`step`].

use vstd::prelude::*;

use crate::Mode;
use crate::model::{Model, push_entry};
use crate::state::EmulatorState;
use crate::trace::TraceEntry;

verus! {

/// Opcode: the top 4 bits of an instruction word.
pub open spec fn op_of(w: u16) -> u16 {
    w / 4096
}

/// Destination field: bits 4 to 8 from the top.
pub open spec fn dest_of(w: u16) -> u16 {
    (w / 256) % 16
}

/// First source field: bits 8 to 12 from the top.
pub open spec fn srca_of(w: u16) -> u16 {
    (w / 16) % 16
}

/// Second source field: the lowest 4 bits.
pub open spec fn srcb_of(w: u16) -> u16 {
    w % 16
}

/// Immediate or address field: the lowest 8 bits.
pub open spec fn imm_of(w: u16) -> u16 {
    w % 256
}

/// Long address field: the lowest 12 bits.
pub open spec fn addr_of(w: u16) -> u16 {
    w % 4096
}

/// Sum of two registers, truncated to 8 bits.
pub open spec fn add_result(a: u8, b: u8) -> u8 {
    ((a + b) % 256) as u8
}

/// Carry out of the 9-bit sum.
pub open spec fn add_carry(a: u8, b: u8) -> bool {
    a + b >= 256
}

/// Signed overflow of the sum: carry out of the low 7 bits differs
/// from the carry out of all 8.
pub open spec fn add_overflow(a: u8, b: u8) -> bool {
    ((a % 128) + (b % 128) >= 128) != add_carry(a, b)
}

/// Difference of two registers, modulo 256.
pub open spec fn sub_result(a: u8, b: u8) -> u8 {
    ((a + 256 - b) % 256) as u8
}

/// Borrow of the 9-bit difference: set exactly when the subtrahend is
/// larger.
pub open spec fn sub_borrow(a: u8, b: u8) -> bool {
    a < b
}

/// Signed overflow of the difference: borrow of the low 7 bits differs
/// from the borrow of all 8.
pub open spec fn sub_overflow(a: u8, b: u8) -> bool {
    ((a % 128) < (b % 128)) != sub_borrow(a, b)
}

/// Flags 0 to 7 after an add or subtract: zero and its negation,
/// carry and its negation, signed overflow and its negation, parity
/// and its negation. Flags 8 to 15 are untouched.
pub open spec fn arith_flags(flg: Seq<bool>, r: u8, carry: bool, ovf: bool) -> Seq<bool> {
    flg.update(0, r == 0).update(1, r != 0).update(2, carry).update(3, !carry).update(
        4,
        ovf,
    ).update(5, !ovf).update(6, r % 2 == 0).update(7, r % 2 != 0)
}

/// Flags 0 to 7 after a bitwise or shift operation: zero check and
/// parity as usual, the four carry- and overflow-related flags forced
/// false (these operations have no carry concept). Flags 8 to 15 are
/// untouched.
pub open spec fn logic_flags(flg: Seq<bool>, r: u8) -> Seq<bool> {
    flg.update(0, r == 0).update(1, r != 0).update(2, false).update(3, false).update(
        4,
        false,
    ).update(5, false).update(6, r % 2 == 0).update(7, r % 2 != 0)
}

/// Flags 8 to 15 after a compare: the six order relations, flag 14
/// false, and the sentinel flag 15 re-asserted true. Flags 0 to 7 are
/// untouched.
pub open spec fn cmp_flags(flg: Seq<bool>, a: u8, b: u8) -> Seq<bool> {
    flg.update(8, a > b).update(9, a <= b).update(10, a < b).update(11, a >= b).update(
        12,
        a == b,
    ).update(13, a != b).update(14, false).update(15, true)
}

/// The fetch bookkeeping of a step: the fetched index is remembered as
/// the last read and the instruction counter advances by one.
pub open spec fn fetched(m: Model) -> Model {
    Model { rom_read_mark: Some(m.pc), executed: m.executed + 1, ..m }
}

/// The effect of executing the already fetched instruction word `w`:
/// the opcode table below is applied, the program counter moves, and
/// one trace entry is appended.
pub open spec fn exec_op(m: Model, w: u16) -> Model {
    let op = op_of(w);
    let d = dest_of(w) % 8;
    let ai = srca_of(w) % 8;
    let bi = srcb_of(w) % 8;
    let a = m.reg[ai as int];
    let b = m.reg[bi as int];
    let pc1 = (m.pc + 1) % 64;
    let base = Model { pc: pc1, ..m };
    if op == 0 {
        Model { mode: Mode::Setup, log: push_entry(m.log, TraceEntry::Halt), ..base }
    } else if op == 1 {
        Model {
            reg: m.reg.update(d as int, add_result(a, b)),
            flg: arith_flags(m.flg, add_result(a, b), add_carry(a, b), add_overflow(a, b)),
            reg_write_mark: Some(d as nat),
            log: push_entry(m.log, TraceEntry::Add { d: d as u8, a: ai as u8, b: bi as u8 }),
            ..base
        }
    } else if op == 2 {
        Model {
            reg: m.reg.update(d as int, sub_result(a, b)),
            flg: arith_flags(m.flg, sub_result(a, b), sub_borrow(a, b), sub_overflow(a, b)),
            reg_write_mark: Some(d as nat),
            log: push_entry(m.log, TraceEntry::Sub { d: d as u8, a: ai as u8, b: bi as u8 }),
            ..base
        }
    } else if op == 3 {
        Model {
            reg: m.reg.update(d as int, a & b),
            flg: logic_flags(m.flg, a & b),
            reg_write_mark: Some(d as nat),
            log: push_entry(m.log, TraceEntry::And { d: d as u8, a: ai as u8, b: bi as u8 }),
            ..base
        }
    } else if op == 4 {
        Model {
            reg: m.reg.update(d as int, !(a | b)),
            flg: logic_flags(m.flg, !(a | b)),
            reg_write_mark: Some(d as nat),
            log: push_entry(m.log, TraceEntry::Nor { d: d as u8, a: ai as u8, b: bi as u8 }),
            ..base
        }
    } else if op == 5 {
        Model {
            reg: m.reg.update(d as int, a ^ b),
            flg: logic_flags(m.flg, a ^ b),
            reg_write_mark: Some(d as nat),
            log: push_entry(m.log, TraceEntry::Xor { d: d as u8, a: ai as u8, b: bi as u8 }),
            ..base
        }
    } else if op == 6 {
        Model {
            reg: m.reg.update(d as int, a / 2),
            flg: logic_flags(m.flg, a / 2),
            reg_write_mark: Some(d as nat),
            log: push_entry(m.log, TraceEntry::Rsh { d: d as u8, a: ai as u8 }),
            ..base
        }
    } else if op == 7 {
        Model {
            flg: cmp_flags(m.flg, a, b),
            log: push_entry(m.log, TraceEntry::Cmp { a: ai as u8, b: bi as u8 }),
            ..base
        }
    } else if op == 8 {
        Model {
            reg: m.reg.update(d as int, imm_of(w) as u8),
            reg_write_mark: Some(d as nat),
            log: push_entry(m.log, TraceEntry::Ldi { d: d as u8, v: imm_of(w) as u8 }),
            ..base
        }
    } else if op == 9 {
        let addr = imm_of(w) % 32;
        Model {
            reg: m.reg.update(d as int, m.ram[addr as int]),
            reg_write_mark: Some(d as nat),
            log: push_entry(m.log, TraceEntry::Ldm { d: d as u8, addr: addr as u8 }),
            ..base
        }
    } else if op == 10 {
        let addr = imm_of(w) % 32;
        Model {
            ram: m.ram.update(addr as int, m.reg[d as int]),
            ram_write_mark: Some(addr as nat),
            log: push_entry(m.log, TraceEntry::Stm { s: d as u8, addr: addr as u8 }),
            ..base
        }
    } else if op == 11 {
        let addr = m.reg[ai as int] % 32;
        Model {
            reg: m.reg.update(d as int, m.ram[addr as int]),
            reg_write_mark: Some(d as nat),
            log: push_entry(m.log, TraceEntry::Ldp { d: d as u8, p: ai as u8 }),
            ..base
        }
    } else if op == 12 {
        let addr = m.reg[ai as int] % 32;
        Model {
            ram: m.ram.update(addr as int, m.reg[bi as int]),
            ram_write_mark: Some(addr as nat),
            log: push_entry(m.log, TraceEntry::Stp { p: ai as u8, s: bi as u8 }),
            ..base
        }
    } else if op == 13 {
        let c = dest_of(w) % 16;
        let t = imm_of(w) % 64;
        Model {
            pc: if m.flg[c as int] {
                t as nat
            } else {
                pc1
            },
            log: push_entry(m.log, TraceEntry::Brc { c: c as u8, addr: t as u8 }),
            ..base
        }
    } else if op == 14 {
        let c = dest_of(w) % 16;
        Model {
            pc: if m.flg[c as int] {
                (m.reg[bi as int] % 64) as nat
            } else {
                pc1
            },
            log: push_entry(m.log, TraceEntry::Brp { c: c as u8, p: bi as u8 }),
            ..base
        }
    } else if op == 15 {
        let t = addr_of(w) % 64;
        Model {
            pc: t as nat,
            log: push_entry(m.log, TraceEntry::Jmp { addr: t as u8 }),
            ..base
        }
    } else {
        Model { log: push_entry(m.log, TraceEntry::Unknown), ..base }
    }
}

/// One fetch-decode-execute step from a well-formed state: the word at
/// the program counter is fetched, the opcode table is applied, one
/// trace entry is appended and the instruction counter advances.
pub open spec fn step(m: Model) -> Model {
    exec_op(fetched(m), m.rom[m.pc as int])
}

/// A step keeps the state well formed.
pub proof fn lemma_step_preserves_wf(m: Model)
    requires
        m.wf(),
    ensures
        step(m).wf(),
{
}

/// The six result-producing operations (add, subtract, and, nor, xor,
/// shift) write only their destination register and the flags 0 to 7:
/// both memories, the ports, the mode, every other register and the
/// compare flags 8 to 15 are untouched.
pub proof fn lemma_alu_frame(m: Model)
    requires
        m.wf(),
        1 <= op_of(m.rom[m.pc as int]) <= 6,
    ensures
        step(m).rom == m.rom,
        step(m).ram == m.ram,
        step(m).inp == m.inp,
        step(m).out == m.out,
        step(m).mode == m.mode,
        forall|i: int|
            0 <= i < 8 && i != dest_of(m.rom[m.pc as int]) % 8 ==> step(m).reg[i] == m.reg[i],
        forall|i: int| 8 <= i < 16 ==> step(m).flg[i] == m.flg[i],
{
}

/// A compare writes only the flags 8 to 15: both memories, the ports,
/// the mode, every register and the flags 0 to 7 are untouched.
pub proof fn lemma_cmp_frame(m: Model)
    requires
        m.wf(),
        op_of(m.rom[m.pc as int]) == 7,
    ensures
        step(m).rom == m.rom,
        step(m).ram == m.ram,
        step(m).reg == m.reg,
        step(m).inp == m.inp,
        step(m).out == m.out,
        step(m).mode == m.mode,
        forall|i: int| 0 <= i < 8 ==> step(m).flg[i] == m.flg[i],
{
}

/// A halt returns the mode to `Setup` while still advancing the
/// program counter and counting the instruction as executed.
pub proof fn lemma_halt(m: Model)
    requires
        m.wf(),
        op_of(m.rom[m.pc as int]) == 0,
    ensures
        step(m).mode == Mode::Setup,
        step(m).pc == (m.pc + 1) % 64,
        step(m).executed == m.executed + 1,
{
}

/// A conditional branch with a false condition flag advances the
/// program counter by one; with a true flag it jumps to the branch
/// address reduced into the instruction memory.
pub proof fn lemma_brc(m: Model)
    requires
        m.wf(),
        op_of(m.rom[m.pc as int]) == 13,
    ensures
        ({
            let w = m.rom[m.pc as int];
            let c = (dest_of(w) % 16) as int;
            &&& (m.flg[c] ==> step(m).pc == (imm_of(w) % 64) as nat)
            &&& (!m.flg[c] ==> step(m).pc == (m.pc + 1) % 64)
        }),
{
}

impl EmulatorState {
    /// One fetch-decode-execute cycle.
    ///
    /// The caller must hold the machine in `ManualStep` or `Automatic`
    /// mode; the engine does not police this precondition. The effect
    /// is exactly one [`step`] of the model.
    pub fn cycle(&mut self)
        requires
            old(self).wf(),
            !(old(self)@.mode is Setup),
            old(self).executed_instructions < u64::MAX,
        ensures
            final(self).wf(),
            final(self)@ == step(old(self)@),
    {
        let p = self.pc;
        let w = self.read_from_rom(p as u16);
        self.executed_instructions = self.executed_instructions + 1;
        proof {
            assert(self@ =~= fetched(old(self)@));
        }
        let ghost mid = self@;
        let op = w / 4096;
        match op {
            0 => self.op_halt(w),
            1 => self.op_add(w),
            2 => self.op_sub(w),
            3 => self.op_and(w),
            4 => self.op_nor(w),
            5 => self.op_xor(w),
            6 => self.op_rsh(w),
            7 => self.op_cmp(w),
            8 => self.op_ldi(w),
            9 => self.op_ldm(w),
            10 => self.op_stm(w),
            11 => self.op_ldp(w),
            12 => self.op_stp(w),
            13 => self.op_brc(w),
            14 => self.op_brp(w),
            15 => self.op_jmp(w),
            _ => self.op_unknown(w),
        }
        proof {
            assert(self@ == exec_op(mid, w));
            assert(final(self)@ == step(old(self)@));
        }
    }

    /// Halt: back to `Setup`, with the program counter still advancing.
    fn op_halt(&mut self, w: u16)
        requires
            old(self).wf(),
            op_of(w) == 0,
        ensures
            final(self).wf(),
            final(self)@ == exec_op(old(self)@, w),
    {
        self.mode = Mode::Setup;
        self.pc = (self.pc + 1) % 64;
        self.push_log(TraceEntry::Halt);
        assert(self@ =~= exec_op(old(self)@, w));
    }

    fn op_add(&mut self, w: u16)
        requires
            old(self).wf(),
            op_of(w) == 1,
        ensures
            final(self).wf(),
            final(self)@ == exec_op(old(self)@, w),
    {
        let d16 = (w / 256) % 16;
        let ai = ((w / 16) % 16 % 8) as usize;
        let bi = (w % 16 % 8) as usize;
        let a = self.reg[ai];
        let b = self.reg[bi];
        let sum: u16 = a as u16 + b as u16;
        let r: u8 = (sum % 256) as u8;
        let carry = sum >= 256;
        let half: u16 = (a % 128) as u16 + (b % 128) as u16;
        let ovf = (half >= 128) != carry;
        self.set_arith_flags(r, carry, ovf);
        self.write_to_regs(d16, r as u16);
        self.pc = (self.pc + 1) % 64;
        self.push_log(TraceEntry::Add { d: (d16 % 8) as u8, a: ai as u8, b: bi as u8 });
        assert(self@ =~= exec_op(old(self)@, w));
    }

    fn op_sub(&mut self, w: u16)
        requires
            old(self).wf(),
            op_of(w) == 2,
        ensures
            final(self).wf(),
            final(self)@ == exec_op(old(self)@, w),
    {
        let d16 = (w / 256) % 16;
        let ai = ((w / 16) % 16 % 8) as usize;
        let bi = (w % 16 % 8) as usize;
        let a = self.reg[ai];
        let b = self.reg[bi];
        let diff: u16 = a as u16 + 256 - b as u16;
        let r: u8 = (diff % 256) as u8;
        let borrow = a < b;
        let ovf = ((a % 128) < (b % 128)) != borrow;
        self.set_arith_flags(r, borrow, ovf);
        self.write_to_regs(d16, r as u16);
        self.pc = (self.pc + 1) % 64;
        self.push_log(TraceEntry::Sub { d: (d16 % 8) as u8, a: ai as u8, b: bi as u8 });
        assert(self@ =~= exec_op(old(self)@, w));
    }

    fn op_and(&mut self, w: u16)
        requires
            old(self).wf(),
            op_of(w) == 3,
        ensures
            final(self).wf(),
            final(self)@ == exec_op(old(self)@, w),
    {
        let d16 = (w / 256) % 16;
        let ai = ((w / 16) % 16 % 8) as usize;
        let bi = (w % 16 % 8) as usize;
        let r = self.reg[ai] & self.reg[bi];
        self.set_logic_flags(r);
        self.write_to_regs(d16, r as u16);
        self.pc = (self.pc + 1) % 64;
        self.push_log(TraceEntry::And { d: (d16 % 8) as u8, a: ai as u8, b: bi as u8 });
        assert(self@ =~= exec_op(old(self)@, w));
    }

    fn op_nor(&mut self, w: u16)
        requires
            old(self).wf(),
            op_of(w) == 4,
        ensures
            final(self).wf(),
            final(self)@ == exec_op(old(self)@, w),
    {
        let d16 = (w / 256) % 16;
        let ai = ((w / 16) % 16 % 8) as usize;
        let bi = (w % 16 % 8) as usize;
        let r = !(self.reg[ai] | self.reg[bi]);
        self.set_logic_flags(r);
        self.write_to_regs(d16, r as u16);
        self.pc = (self.pc + 1) % 64;
        self.push_log(TraceEntry::Nor { d: (d16 % 8) as u8, a: ai as u8, b: bi as u8 });
        assert(self@ =~= exec_op(old(self)@, w));
    }

    fn op_xor(&mut self, w: u16)
        requires
            old(self).wf(),
            op_of(w) == 5,
        ensures
            final(self).wf(),
            final(self)@ == exec_op(old(self)@, w),
    {
        let d16 = (w / 256) % 16;
        let ai = ((w / 16) % 16 % 8) as usize;
        let bi = (w % 16 % 8) as usize;
        let r = self.reg[ai] ^ self.reg[bi];
        self.set_logic_flags(r);
        self.write_to_regs(d16, r as u16);
        self.pc = (self.pc + 1) % 64;
        self.push_log(TraceEntry::Xor { d: (d16 % 8) as u8, a: ai as u8, b: bi as u8 });
        assert(self@ =~= exec_op(old(self)@, w));
    }

    fn op_rsh(&mut self, w: u16)
        requires
            old(self).wf(),
            op_of(w) == 6,
        ensures
            final(self).wf(),
            final(self)@ == exec_op(old(self)@, w),
    {
        let d16 = (w / 256) % 16;
        let ai = ((w / 16) % 16 % 8) as usize;
        let r = self.reg[ai] / 2;
        self.set_logic_flags(r);
        self.write_to_regs(d16, r as u16);
        self.pc = (self.pc + 1) % 64;
        self.push_log(TraceEntry::Rsh { d: (d16 % 8) as u8, a: ai as u8 });
        assert(self@ =~= exec_op(old(self)@, w));
    }

    fn op_cmp(&mut self, w: u16)
        requires
            old(self).wf(),
            op_of(w) == 7,
        ensures
            final(self).wf(),
            final(self)@ == exec_op(old(self)@, w),
    {
        let ai = ((w / 16) % 16 % 8) as usize;
        let bi = (w % 16 % 8) as usize;
        let a = self.reg[ai];
        let b = self.reg[bi];
        self.flg[8] = a > b;
        self.flg[9] = a <= b;
        self.flg[10] = a < b;
        self.flg[11] = a >= b;
        self.flg[12] = a == b;
        self.flg[13] = a != b;
        self.flg[14] = false;
        self.flg[15] = true;
        self.pc = (self.pc + 1) % 64;
        self.push_log(TraceEntry::Cmp { a: ai as u8, b: bi as u8 });
        assert(self@ =~= exec_op(old(self)@, w));
    }

    fn op_ldi(&mut self, w: u16)
        requires
            old(self).wf(),
            op_of(w) == 8,
        ensures
            final(self).wf(),
            final(self)@ == exec_op(old(self)@, w),
    {
        let d16 = (w / 256) % 16;
        let imm = w % 256;
        self.write_to_regs(d16, imm);
        self.pc = (self.pc + 1) % 64;
        self.push_log(TraceEntry::Ldi { d: (d16 % 8) as u8, v: imm as u8 });
        assert(self@ =~= exec_op(old(self)@, w));
    }

    fn op_ldm(&mut self, w: u16)
        requires
            old(self).wf(),
            op_of(w) == 9,
        ensures
            final(self).wf(),
            final(self)@ == exec_op(old(self)@, w),
    {
        let d16 = (w / 256) % 16;
        let addr = (w % 256 % 32) as usize;
        let v = self.ram[addr];
        self.write_to_regs(d16, v as u16);
        self.pc = (self.pc + 1) % 64;
        self.push_log(TraceEntry::Ldm { d: (d16 % 8) as u8, addr: addr as u8 });
        assert(self@ =~= exec_op(old(self)@, w));
    }

    fn op_stm(&mut self, w: u16)
        requires
            old(self).wf(),
            op_of(w) == 10,
        ensures
            final(self).wf(),
            final(self)@ == exec_op(old(self)@, w),
    {
        let d16 = (w / 256) % 16;
        let addr = w % 256;
        let v = self.reg[(d16 % 8) as usize];
        self.write_to_ram(addr, v as u16);
        self.pc = (self.pc + 1) % 64;
        self.push_log(TraceEntry::Stm { s: (d16 % 8) as u8, addr: (addr % 32) as u8 });
        assert(self@ =~= exec_op(old(self)@, w));
    }

    fn op_ldp(&mut self, w: u16)
        requires
            old(self).wf(),
            op_of(w) == 11,
        ensures
            final(self).wf(),
            final(self)@ == exec_op(old(self)@, w),
    {
        let d16 = (w / 256) % 16;
        let ai = ((w / 16) % 16 % 8) as usize;
        let addr = (self.reg[ai] % 32) as usize;
        let v = self.ram[addr];
        self.write_to_regs(d16, v as u16);
        self.pc = (self.pc + 1) % 64;
        self.push_log(TraceEntry::Ldp { d: (d16 % 8) as u8, p: ai as u8 });
        assert(self@ =~= exec_op(old(self)@, w));
    }

    fn op_stp(&mut self, w: u16)
        requires
            old(self).wf(),
            op_of(w) == 12,
        ensures
            final(self).wf(),
            final(self)@ == exec_op(old(self)@, w),
    {
        let ai = ((w / 16) % 16 % 8) as usize;
        let bi = (w % 16 % 8) as usize;
        let addr = self.reg[ai];
        let v = self.reg[bi];
        self.write_to_ram(addr as u16, v as u16);
        self.pc = (self.pc + 1) % 64;
        self.push_log(TraceEntry::Stp { p: ai as u8, s: bi as u8 });
        assert(self@ =~= exec_op(old(self)@, w));
    }

    fn op_brc(&mut self, w: u16)
        requires
            old(self).wf(),
            op_of(w) == 13,
        ensures
            final(self).wf(),
            final(self)@ == exec_op(old(self)@, w),
    {
        let c = ((w / 256) % 16) as usize;
        let t = w % 256 % 64;
        if self.flg[c] {
            self.pc = t as u8;
        } else {
            self.pc = (self.pc + 1) % 64;
        }
        self.push_log(TraceEntry::Brc { c: c as u8, addr: t as u8 });
        assert(self@ =~= exec_op(old(self)@, w));
    }

    fn op_brp(&mut self, w: u16)
        requires
            old(self).wf(),
            op_of(w) == 14,
        ensures
            final(self).wf(),
            final(self)@ == exec_op(old(self)@, w),
    {
        let c = ((w / 256) % 16) as usize;
        let bi = (w % 16 % 8) as usize;
        let t = self.reg[bi] % 64;
        if self.flg[c] {
            self.pc = t;
        } else {
            self.pc = (self.pc + 1) % 64;
        }
        self.push_log(TraceEntry::Brp { c: c as u8, p: bi as u8 });
        assert(self@ =~= exec_op(old(self)@, w));
    }

    fn op_jmp(&mut self, w: u16)
        requires
            old(self).wf(),
            op_of(w) == 15,
        ensures
            final(self).wf(),
            final(self)@ == exec_op(old(self)@, w),
    {
        let t = w % 4096 % 64;
        self.pc = t as u8;
        self.push_log(TraceEntry::Jmp { addr: t as u8 });
        assert(self@ =~= exec_op(old(self)@, w));
    }

    /// Defensive handling of an opcode outside the table, which the
    /// 4-bit decode makes unreachable: advance and log, never fail.
    fn op_unknown(&mut self, w: u16)
        requires
            old(self).wf(),
            op_of(w) > 15,
        ensures
            final(self).wf(),
            final(self)@ == exec_op(old(self)@, w),
    {
        self.pc = (self.pc + 1) % 64;
        self.push_log(TraceEntry::Unknown);
        assert(self@ =~= exec_op(old(self)@, w));
    }

    /// Write the flag pattern of an add or subtract.
    fn set_arith_flags(&mut self, r: u8, carry: bool, ovf: bool)
        requires
            old(self).wf(),
        ensures
            final(self).wf(),
            final(self)@ == (Model {
                flg: arith_flags(old(self)@.flg, r, carry, ovf),
                ..old(self)@
            }),
    {
        self.flg[0] = r == 0;
        self.flg[1] = r != 0;
        self.flg[2] = carry;
        self.flg[3] = !carry;
        self.flg[4] = ovf;
        self.flg[5] = !ovf;
        self.flg[6] = r % 2 == 0;
        self.flg[7] = r % 2 != 0;
        assert(self@ =~= (Model {
            flg: arith_flags(old(self)@.flg, r, carry, ovf),
            ..old(self)@
        }));
    }

    /// Write the flag pattern of the bitwise and shift operations:
    /// zero check and parity, everything carry-related forced false.
    fn set_logic_flags(&mut self, r: u8)
        requires
            old(self).wf(),
        ensures
            final(self).wf(),
            final(self)@ == (Model { flg: logic_flags(old(self)@.flg, r), ..old(self)@ }),
    {
        self.flg[0] = r == 0;
        self.flg[1] = r != 0;
        self.flg[2] = false;
        self.flg[3] = false;
        self.flg[4] = false;
        self.flg[5] = false;
        self.flg[6] = r % 2 == 0;
        self.flg[7] = r % 2 != 0;
        assert(self@ =~= (Model { flg: logic_flags(old(self)@.flg, r), ..old(self)@ }));
    }
}

} // verus!
