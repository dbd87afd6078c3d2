//! The program loader.
//!
//! Sources are newline-separated text, handed over as plain bytes. A
//! trimmed line of exactly 16 binary digits is one instruction word at
//! that line's index (wrapped into the 64 words); 8-digit lines fill
//! data memory the same way. Lines of any other length are silently
//! skipped. The first malformed line of the exact length aborts the
//! rest of that source and is logged as corruption; words already
//! written are kept.

use vstd::prelude::*;

use crate::model::{Model, push_entry};
use crate::state::EmulatorState;
use crate::trace::TraceEntry;

verus! {

/// Whitespace that trimming removes from the ends of a line: space,
/// horizontal tab, vertical tab, form feed and carriage return.
pub open spec fn is_ws(c: u8) -> bool {
    c == 32 || c == 9 || c == 11 || c == 12 || c == 13
}

/// The position of the first newline at or after `i`, or the length of
/// the text when there is none.
pub open spec fn first_nl_from(t: Seq<u8>, i: int) -> int
    decreases t.len() - i,
{
    if i < 0 || i >= t.len() {
        t.len() as int
    } else if t[i] == 10 {
        i
    } else {
        first_nl_from(t, i + 1)
    }
}

/// The first newline position never runs backwards or past the end.
pub proof fn lemma_first_nl_bounds(t: Seq<u8>, i: int)
    requires
        0 <= i <= t.len(),
    ensures
        i <= first_nl_from(t, i) <= t.len(),
    decreases t.len() - i,
{
    if i < t.len() && t[i] != 10 {
        lemma_first_nl_bounds(t, i + 1);
    }
}

/// The lines of the text from position `i` on: the pieces between
/// newlines, as `str::split` would cut them, so `n` newlines make
/// `n + 1` lines and a trailing newline yields a final empty line.
pub open spec fn lines_from(t: Seq<u8>, i: int) -> Seq<Seq<u8>>
    decreases t.len() - i + 1,
    via lines_from_decreases
{
    if i < 0 || i > t.len() {
        Seq::empty()
    } else {
        let j = first_nl_from(t, i);
        seq![t.subrange(i, j)] + lines_from(t, j + 1)
    }
}

#[via_fn]
proof fn lines_from_decreases(t: Seq<u8>, i: int) {
    if 0 <= i <= t.len() {
        lemma_first_nl_bounds(t, i);
    }
}

/// All lines of the text.
pub open spec fn lines_of(t: Seq<u8>) -> Seq<Seq<u8>> {
    lines_from(t, 0)
}

/// The line without its leading whitespace.
pub open spec fn trim_front(s: Seq<u8>) -> Seq<u8>
    decreases s.len(),
{
    if s.len() > 0 && is_ws(s.first()) {
        trim_front(s.drop_first())
    } else {
        s
    }
}

/// The line without its trailing whitespace.
pub open spec fn trim_back(s: Seq<u8>) -> Seq<u8>
    decreases s.len(),
{
    if s.len() > 0 && is_ws(s.last()) {
        trim_back(s.drop_last())
    } else {
        s
    }
}

/// The line without leading and trailing whitespace.
pub open spec fn trim(s: Seq<u8>) -> Seq<u8> {
    trim_back(trim_front(s))
}

/// All lines of the text, each trimmed.
pub open spec fn trimmed_lines(t: Seq<u8>) -> Seq<Seq<u8>> {
    lines_of(t).map_values(|l: Seq<u8>| trim(l))
}

/// A binary digit.
pub open spec fn is_bin_digit(c: u8) -> bool {
    c == 48 || c == 49
}

/// Every character of the line is a binary digit.
pub open spec fn all_bin(s: Seq<u8>) -> bool {
    forall|i: int| 0 <= i < s.len() ==> is_bin_digit(s[i])
}

/// The numeric value of one binary digit.
pub open spec fn bit_val(c: u8) -> nat {
    if c == 49 {
        1
    } else {
        0
    }
}

/// The value of a line of binary digits, most significant first.
pub open spec fn bin_val(s: Seq<u8>) -> nat
    decreases s.len(),
{
    if s.len() == 0 {
        0
    } else {
        2 * bin_val(s.drop_last()) + bit_val(s.last())
    }
}

/// Powers of two.
pub open spec fn pw2(n: nat) -> nat
    decreases n,
{
    if n == 0 {
        1
    } else {
        2 * pw2((n - 1) as nat)
    }
}

/// Powers of two are positive.
pub proof fn lemma_pw2_pos(n: nat)
    ensures
        pw2(n) >= 1,
    decreases n,
{
    if n > 0 {
        lemma_pw2_pos((n - 1) as nat);
    }
}

/// Powers of two do not decrease.
pub proof fn lemma_pw2_le(a: nat, b: nat)
    requires
        a <= b,
    ensures
        pw2(a) <= pw2(b),
    decreases b,
{
    if a < b {
        lemma_pw2_le(a, (b - 1) as nat);
        lemma_pw2_pos((b - 1) as nat);
    }
}

/// The two powers the loader cares about: the bounds of an 8-digit and
/// of a 16-digit line.
pub proof fn lemma_pw2_values()
    ensures
        pw2(8) == 256,
        pw2(16) == 65536,
{
    reveal_with_fuel(pw2, 17);
}

/// A line that aborts loading: it has exactly the expected width yet
/// holds a character that is no binary digit.
pub open spec fn line_bad(l: Seq<u8>, width: nat) -> bool {
    l.len() == width && !all_bin(l)
}

/// The index of the first aborting line at or after `i`, or the number
/// of lines when there is none.
pub open spec fn first_bad_from(ls: Seq<Seq<u8>>, width: nat, i: nat) -> nat
    decreases ls.len() - i,
{
    if i >= ls.len() {
        ls.len()
    } else if line_bad(ls[i as int], width) {
        i
    } else {
        first_bad_from(ls, width, i + 1)
    }
}

/// The index of the first aborting line, or the number of lines.
pub open spec fn first_bad(ls: Seq<Seq<u8>>, width: nat) -> nat {
    first_bad_from(ls, width, 0)
}

/// The first aborting position never lies beyond the end.
pub proof fn lemma_first_bad_le(ls: Seq<Seq<u8>>, width: nat, i: nat)
    requires
        i <= ls.len(),
    ensures
        i <= first_bad_from(ls, width, i) <= ls.len(),
    decreases ls.len() - i,
{
    if i < ls.len() && !line_bad(ls[i as int], width) {
        lemma_first_bad_le(ls, width, i + 1);
    }
}

/// If no line before `k` aborts, and `k` is either an aborting line or
/// the end, then `k` is the first aborting position.
pub proof fn lemma_first_bad_is(ls: Seq<Seq<u8>>, width: nat, i: nat, k: nat)
    requires
        i <= k <= ls.len(),
        forall|j: int| i <= j < k ==> !line_bad(ls[j], width),
        k < ls.len() ==> line_bad(ls[k as int], width),
    ensures
        first_bad_from(ls, width, i) == k,
    decreases k - i,
{
    if i < k {
        lemma_first_bad_is(ls, width, i + 1, k);
    }
}

/// Instruction memory after the first `n` trimmed lines were applied:
/// every line of exactly 16 binary digits writes its value at its line
/// index wrapped into the 64 words; other lines change nothing.
pub open spec fn rom_apply(rom: Seq<u16>, ls: Seq<Seq<u8>>, n: int) -> Seq<u16>
    decreases n,
{
    if n <= 0 {
        rom
    } else {
        let prev = rom_apply(rom, ls, n - 1);
        let l = ls[n - 1];
        if l.len() == 16 && all_bin(l) {
            prev.update((n - 1) % 64, bin_val(l) as u16)
        } else {
            prev
        }
    }
}

/// Data memory and its last-write mark after the first `n` trimmed
/// lines were applied: every line of exactly 8 binary digits writes
/// its value at its line index wrapped into the 32 cells and marks
/// that cell; other lines change nothing.
pub open spec fn ram_apply(ram: Seq<u8>, mark: Option<nat>, ls: Seq<Seq<u8>>, n: int) -> (
    Seq<u8>,
    Option<nat>,
)
    decreases n,
{
    if n <= 0 {
        (ram, mark)
    } else {
        let prev = ram_apply(ram, mark, ls, n - 1);
        let l = ls[n - 1];
        if l.len() == 8 && all_bin(l) {
            (prev.0.update((n - 1) % 32, bin_val(l) as u8), Some(((n - 1) % 32) as nat))
        } else {
            prev
        }
    }
}

/// The state after an instruction-memory source was handed over: the
/// lines up to the first aborting one are applied; corruption is
/// logged and keeps the marks, while success clears the last-touched
/// marks and logs the source identifier.
pub open spec fn rom_loaded_model(m: Model, t: Seq<u8>, name: String) -> Model {
    let ls = trimmed_lines(t);
    let stop = first_bad(ls, 16);
    let m2 = Model { rom: rom_apply(m.rom, ls, stop as int), ..m };
    if stop < ls.len() {
        Model { log: push_entry(m.log, TraceEntry::RomCorrupted), ..m2 }
    } else {
        Model {
            rom_read_mark: None,
            ram_write_mark: None,
            reg_write_mark: None,
            log: push_entry(m.log, TraceEntry::Loaded(name)), ..m2
        }
    }
}

/// The state after a data-memory source was handed over, in the same
/// way as for instruction memory but with 8-digit lines.
pub open spec fn ram_loaded_model(m: Model, t: Seq<u8>) -> Model {
    let ls = trimmed_lines(t);
    let stop = first_bad(ls, 8);
    let applied = ram_apply(m.ram, m.ram_write_mark, ls, stop as int);
    let m2 = Model { ram: applied.0, ram_write_mark: applied.1, ..m };
    if stop < ls.len() {
        Model { log: push_entry(m.log, TraceEntry::RamCorrupted), ..m2 }
    } else {
        Model {
            rom_read_mark: None,
            ram_write_mark: None,
            reg_write_mark: None,
            log: push_entry(m.log, TraceEntry::RamLoaded), ..m2
        }
    }
}

/// The whole effect of a load command. A missing instruction-memory
/// source is logged and leaves the prior contents; a corrupted one
/// also skips the data-memory source entirely. Reporting the
/// instruction-memory outcome never depends on the data-memory source.
pub open spec fn load_model(
    m: Model,
    rom_src: Option<Seq<u8>>,
    name: String,
    ram_src: Option<Seq<u8>>,
) -> Model {
    match rom_src {
        Some(t) => {
            let ls = trimmed_lines(t);
            let m2 = rom_loaded_model(m, t, name);
            if first_bad(ls, 16) < ls.len() {
                m2
            } else {
                match ram_src {
                    Some(r) => ram_loaded_model(m2, r),
                    None => m2,
                }
            }
        },
        None => {
            let m2 = Model { log: push_entry(m.log, TraceEntry::ProgramNotFound), ..m };
            match ram_src {
                Some(r) => ram_loaded_model(m2, r),
                None => m2,
            }
        },
    }
}

/// What `n` applied lines do to instruction memory depends only on
/// those `n` lines: later lines cannot reach memory.
pub proof fn lemma_rom_apply_depends_on_prefix(
    rom: Seq<u16>,
    ls1: Seq<Seq<u8>>,
    ls2: Seq<Seq<u8>>,
    n: int,
)
    requires
        0 <= n <= ls1.len(),
        n <= ls2.len(),
        ls1.take(n) == ls2.take(n),
    ensures
        rom_apply(rom, ls1, n) == rom_apply(rom, ls2, n),
    decreases n,
{
    if n > 0 {
        assert(ls1.take(n - 1) =~= ls2.take(n - 1));
        lemma_rom_apply_depends_on_prefix(rom, ls1, ls2, n - 1);
        assert(ls1[n - 1] == ls1.take(n)[n - 1]);
        assert(ls2[n - 1] == ls2.take(n)[n - 1]);
    }
}

/// An aborting line stops the source: with the first aborting line at
/// `stop`, exactly the lines before it are applied, the corruption is
/// logged, and nothing else of the state changes.
pub proof fn lemma_rom_corrupt_aborts(m: Model, t: Seq<u8>, name: String)
    requires
        first_bad(trimmed_lines(t), 16) < trimmed_lines(t).len(),
    ensures
        ({
            let ls = trimmed_lines(t);
            let stop = first_bad(ls, 16);
            rom_loaded_model(m, t, name) == (Model {
                rom: rom_apply(m.rom, ls, stop as int),
                log: push_entry(m.log, TraceEntry::RomCorrupted),
                ..m
            })
        }),
{
    let ls = trimmed_lines(t);
    let stop = first_bad(ls, 16);
    assert(rom_loaded_model(m, t, name) =~= (Model {
        rom: rom_apply(m.rom, ls, stop as int),
        log: push_entry(m.log, TraceEntry::RomCorrupted),
        ..m
    }));
}

/// The byte sequence of an optional byte vector.
pub open spec fn opt_bytes(o: Option<Vec<u8>>) -> Option<Seq<u8>> {
    match o {
        Some(v) => Some(v@),
        None => None,
    }
}

/// Whether a byte is trimmed whitespace.
fn is_ws_byte(c: u8) -> (b: bool)
    ensures
        b == is_ws(c),
{
    c == 32 || c == 9 || c == 11 || c == 12 || c == 13
}

/// The position of the first newline at or after `pos`, or the end.
#[verifier::loop_isolation(false)]
fn scan_line_end(t: &Vec<u8>, pos: usize) -> (j: usize)
    requires
        pos <= t@.len(),
    ensures
        pos <= j <= t@.len(),
        j as int == first_nl_from(t@, pos as int),
{
    let mut j = pos;
    while j < t.len() && t[j] != 10
        invariant
            pos <= j <= t@.len(),
            first_nl_from(t@, pos as int) == first_nl_from(t@, j as int),
        decreases t@.len() - j,
    {
        j = j + 1;
    }
    j
}

/// The start of the line once leading whitespace is skipped.
#[verifier::loop_isolation(false)]
fn skip_ws_front(t: &Vec<u8>, lo: usize, hi: usize) -> (r: usize)
    requires
        lo <= hi <= t@.len(),
    ensures
        lo <= r <= hi,
        trim_front(t@.subrange(lo as int, hi as int)) == t@.subrange(r as int, hi as int),
{
    let mut r = lo;
    while r < hi && is_ws_byte(t[r])
        invariant
            lo <= r <= hi,
            trim_front(t@.subrange(lo as int, hi as int)) == trim_front(
                t@.subrange(r as int, hi as int),
            ),
        decreases hi - r,
    {
        proof {
            let s = t@.subrange(r as int, hi as int);
            assert(s.drop_first() =~= t@.subrange(r + 1, hi as int));
        }
        r = r + 1;
    }
    r
}

/// The end of the line once trailing whitespace is dropped.
#[verifier::loop_isolation(false)]
fn skip_ws_back(t: &Vec<u8>, lo: usize, hi: usize) -> (r: usize)
    requires
        lo <= hi <= t@.len(),
    ensures
        lo <= r <= hi,
        trim_back(t@.subrange(lo as int, hi as int)) == t@.subrange(lo as int, r as int),
{
    let mut r = hi;
    while r > lo && is_ws_byte(t[r - 1])
        invariant
            lo <= r <= hi,
            trim_back(t@.subrange(lo as int, hi as int)) == trim_back(
                t@.subrange(lo as int, r as int),
            ),
        decreases r,
    {
        proof {
            let s = t@.subrange(lo as int, r as int);
            assert(s.drop_last() =~= t@.subrange(lo as int, r - 1));
        }
        r = r - 1;
    }
    proof {
        assert(trim_back(t@.subrange(lo as int, r as int)) == t@.subrange(lo as int, r as int));
    }
    r
}

/// Parse up to 16 binary digits, most significant first. `None` when
/// some character is no binary digit.
#[verifier::loop_isolation(false)]
fn parse_bits(t: &Vec<u8>, lo: usize, hi: usize) -> (r: Option<u16>)
    requires
        lo <= hi <= t@.len(),
        hi - lo <= 16,
    ensures
        match r {
            Some(v) => {
                &&& all_bin(t@.subrange(lo as int, hi as int))
                &&& v as nat == bin_val(t@.subrange(lo as int, hi as int))
                &&& (v as nat) < pw2((hi - lo) as nat)
            },
            None => !all_bin(t@.subrange(lo as int, hi as int)),
        },
{
    let mut v: u16 = 0;
    let mut q = lo;
    while q < hi
        invariant
            lo <= q <= hi,
            all_bin(t@.subrange(lo as int, q as int)),
            v as nat == bin_val(t@.subrange(lo as int, q as int)),
            (v as nat) < pw2((q - lo) as nat),
        decreases hi - q,
    {
        let c = t[q];
        if c != 48 && c != 49 {
            proof {
                let s = t@.subrange(lo as int, hi as int);
                assert(s[q - lo] == c);
                assert(!all_bin(s));
            }
            return None;
        }
        proof {
            let s1 = t@.subrange(lo as int, q + 1);
            assert(s1.drop_last() =~= t@.subrange(lo as int, q as int));
            assert(s1.last() == c);
            lemma_pw2_le(((q - lo) + 1) as nat, 16);
            lemma_pw2_values();
        }
        if c == 49 {
            v = v * 2 + 1;
        } else {
            v = v * 2;
        }
        q = q + 1;
    }
    Some(v)
}

impl EmulatorState {
    /// Apply an instruction-memory source: write every well-formed
    /// 16-digit line up to the first aborting one. Returns whether the
    /// whole source went through. Logging is the caller's part.
    fn apply_rom_source(&mut self, t: &Vec<u8>) -> (ok: bool)
        requires
            old(self).wf(),
        ensures
            final(self).wf(),
            ({
                let ls = trimmed_lines(t@);
                let stop = first_bad(ls, 16);
                &&& ok == (stop == ls.len())
                &&& final(self)@ == (Model {
                    rom: rom_apply(old(self)@.rom, ls, stop as int),
                    ..old(self)@
                })
            }),
    {
        let ghost ls = trimmed_lines(t@);
        let mut pos: usize = 0;
        let ghost mut k: int = 0;
        let mut km: u16 = 0;
        loop
            invariant_except_break
                lines_from(t@, pos as int) == lines_of(t@).skip(k),
            invariant
                ls == trimmed_lines(t@),
                self.wf(),
                pos <= t@.len(),
                0 <= k <= ls.len(),
                km < 64,
                km as int == k % 64,
                forall|j: int| 0 <= j < k ==> !line_bad(ls[j], 16),
                self@ == (Model { rom: rom_apply(old(self)@.rom, ls, k), ..old(self)@ }),
            ensures
                k == ls.len(),
                forall|j: int| 0 <= j < k ==> !line_bad(ls[j], 16),
                self@ == (Model { rom: rom_apply(old(self)@.rom, ls, k), ..old(self)@ }),
            decreases t@.len() - pos,
        {
            let j = scan_line_end(t, pos);
            proof {
                let tl = lines_of(t@);
                assert(ls.len() == tl.len());
                assert(lines_from(t@, pos as int) == seq![t@.subrange(pos as int, j as int)]
                    + lines_from(t@, j + 1));
                assert(tl.skip(k).len() >= 1);
                assert(k < tl.len());
                assert(tl.skip(k) == tl.subrange(k, tl.len() as int));
                assert(tl.skip(k)[0] == tl[k]);
                assert(tl.skip(k)[0] == t@.subrange(pos as int, j as int));
                assert(ls[k] == trim(tl[k]));
                assert(ls[k] == trim(t@.subrange(pos as int, j as int)));
            }
            let lo = skip_ws_front(t, pos, j);
            let hi = skip_ws_back(t, lo, j);
            proof {
                assert(ls[k] =~= t@.subrange(lo as int, hi as int));
            }
            if hi - lo == 16 {
                match parse_bits(t, lo, hi) {
                    Some(v) => {
                        proof {
                            lemma_pw2_values();
                        }
                        self.write_to_rom(km, v as u32);
                    },
                    None => {
                        proof {
                            assert(line_bad(ls[k], 16));
                            lemma_first_bad_is(ls, 16, 0, k as nat);
                            assert(first_bad(ls, 16) == k);
                        }
                        return false;
                    },
                }
            }
            proof {
                assert(rom_apply(old(self)@.rom, ls, k + 1) =~= self@.rom);
                assert(lines_of(t@).skip(k).drop_first() =~= lines_of(t@).skip(k + 1));
                assert(lines_from(t@, j + 1) == lines_of(t@).skip(k + 1));
                k = k + 1;
            }
            km = if km == 63 {
                0
            } else {
                km + 1
            };
            if j == t.len() {
                proof {
                    assert(lines_from(t@, j + 1) =~= Seq::<Seq<u8>>::empty());
                    assert(ls.len() - k == 0);
                }
                break ;
            }
            pos = j + 1;
        }
        proof {
            lemma_first_bad_is(ls, 16, 0, ls.len());
        }
        true
    }

    /// Apply a data-memory source: write every well-formed 8-digit
    /// line up to the first aborting one. Returns whether the whole
    /// source went through. Logging is the caller's part.
    fn apply_ram_source(&mut self, t: &Vec<u8>) -> (ok: bool)
        requires
            old(self).wf(),
        ensures
            final(self).wf(),
            ({
                let ls = trimmed_lines(t@);
                let stop = first_bad(ls, 8);
                let applied = ram_apply(old(self)@.ram, old(self)@.ram_write_mark, ls, stop as int);
                &&& ok == (stop == ls.len())
                &&& final(self)@ == (Model {
                    ram: applied.0,
                    ram_write_mark: applied.1,
                    ..old(self)@
                })
            }),
    {
        let ghost ls = trimmed_lines(t@);
        let mut pos: usize = 0;
        let ghost mut k: int = 0;
        let mut km: u16 = 0;
        loop
            invariant_except_break
                lines_from(t@, pos as int) == lines_of(t@).skip(k),
            invariant
                ls == trimmed_lines(t@),
                self.wf(),
                pos <= t@.len(),
                0 <= k <= ls.len(),
                km < 32,
                km as int == k % 32,
                forall|j: int| 0 <= j < k ==> !line_bad(ls[j], 8),
                self@ == (Model {
                    ram: ram_apply(old(self)@.ram, old(self)@.ram_write_mark, ls, k).0,
                    ram_write_mark: ram_apply(
                        old(self)@.ram,
                        old(self)@.ram_write_mark,
                        ls,
                        k,
                    ).1,
                    ..old(self)@
                }),
            ensures
                k == ls.len(),
                forall|j: int| 0 <= j < k ==> !line_bad(ls[j], 8),
                self@ == (Model {
                    ram: ram_apply(old(self)@.ram, old(self)@.ram_write_mark, ls, k).0,
                    ram_write_mark: ram_apply(
                        old(self)@.ram,
                        old(self)@.ram_write_mark,
                        ls,
                        k,
                    ).1,
                    ..old(self)@
                }),
            decreases t@.len() - pos,
        {
            let j = scan_line_end(t, pos);
            proof {
                let tl = lines_of(t@);
                assert(ls.len() == tl.len());
                assert(lines_from(t@, pos as int) == seq![t@.subrange(pos as int, j as int)]
                    + lines_from(t@, j + 1));
                assert(tl.skip(k).len() >= 1);
                assert(k < tl.len());
                assert(tl.skip(k) == tl.subrange(k, tl.len() as int));
                assert(tl.skip(k)[0] == tl[k]);
                assert(ls[k] == trim(tl[k]));
                assert(ls[k] == trim(t@.subrange(pos as int, j as int)));
            }
            let lo = skip_ws_front(t, pos, j);
            let hi = skip_ws_back(t, lo, j);
            proof {
                assert(ls[k] =~= t@.subrange(lo as int, hi as int));
            }
            if hi - lo == 8 {
                match parse_bits(t, lo, hi) {
                    Some(v) => {
                        proof {
                            lemma_pw2_values();
                            lemma_pw2_le(8, 16);
                        }
                        self.write_to_ram(km, v);
                    },
                    None => {
                        proof {
                            assert(line_bad(ls[k], 8));
                            lemma_first_bad_is(ls, 8, 0, k as nat);
                        }
                        return false;
                    },
                }
            }
            proof {
                assert(ram_apply(old(self)@.ram, old(self)@.ram_write_mark, ls, k + 1).0
                    =~= self@.ram);
                assert(lines_of(t@).skip(k).drop_first() =~= lines_of(t@).skip(k + 1));
                assert(lines_from(t@, j + 1) == lines_of(t@).skip(k + 1));
                k = k + 1;
            }
            km = if km == 31 {
                0
            } else {
                km + 1
            };
            if j == t.len() {
                proof {
                    assert(lines_from(t@, j + 1) =~= Seq::<Seq<u8>>::empty());
                    assert(ls.len() - k == 0);
                }
                break ;
            }
            pos = j + 1;
        }
        proof {
            lemma_first_bad_is(ls, 8, 0, ls.len());
        }
        true
    }

    /// Load command: hand over an optional instruction-memory source
    /// with its identifier and an optional data-memory source. The
    /// effect is exactly [`load_model`]: valid lines are written with
    /// wrapped indices, the first aborting line of a source stops that
    /// source and is logged as corruption, a missing instruction
    /// source is logged, and each fully loaded source is logged after
    /// the last-touched marks were cleared.
    pub fn load(
        &mut self,
        rom_source: Option<Vec<u8>>,
        rom_name: String,
        ram_source: Option<Vec<u8>>,
    )
        requires
            old(self).wf(),
        ensures
            final(self).wf(),
            final(self)@ == load_model(
                old(self)@,
                opt_bytes(rom_source),
                rom_name,
                opt_bytes(ram_source),
            ),
    {
        match rom_source {
            Some(t) => {
                let ok = self.apply_rom_source(&t);
                if !ok {
                    self.push_log(TraceEntry::RomCorrupted);
                    proof {
                        lemma_first_bad_le(trimmed_lines(t@), 16, 0);
                    }
                    assert(self@ =~= load_model(
                        old(self)@,
                        Some(t@),
                        rom_name,
                        opt_bytes(ram_source),
                    ));
                    return ;
                }
                self.reset_last_mods();
                self.push_log(TraceEntry::Loaded(rom_name));
                assert(self@ =~= rom_loaded_model(old(self)@, t@, rom_name));
                match ram_source {
                    Some(r) => {
                        self.load_ram_part(&r);
                        assert(self@ =~= load_model(old(self)@, Some(t@), rom_name, Some(r@)));
                    },
                    None => {
                        assert(self@ =~= load_model(
                            old(self)@,
                            Some(t@),
                            rom_name,
                            None::<Seq<u8>>,
                        ));
                    },
                }
            },
            None => {
                self.push_log(TraceEntry::ProgramNotFound);
                match ram_source {
                    Some(r) => {
                        self.load_ram_part(&r);
                        assert(self@ =~= load_model(
                            old(self)@,
                            None::<Seq<u8>>,
                            rom_name,
                            Some(r@),
                        ));
                    },
                    None => {
                        assert(self@ =~= load_model(
                            old(self)@,
                            None::<Seq<u8>>,
                            rom_name,
                            None::<Seq<u8>>,
                        ));
                    },
                }
            },
        }
    }

    /// The data-memory half of a load: apply the source and log its
    /// outcome.
    fn load_ram_part(&mut self, t: &Vec<u8>)
        requires
            old(self).wf(),
        ensures
            final(self).wf(),
            final(self)@ == ram_loaded_model(old(self)@, t@),
    {
        let ok = self.apply_ram_source(t);
        if !ok {
            self.push_log(TraceEntry::RamCorrupted);
            proof {
                lemma_first_bad_le(trimmed_lines(t@), 8, 0);
            }
            assert(self@ =~= ram_loaded_model(old(self)@, t@));
            return ;
        }
        self.reset_last_mods();
        self.push_log(TraceEntry::RamLoaded);
        assert(self@ =~= ram_loaded_model(old(self)@, t@));
    }
}

} // verus!
