//! Cue sheets (BIN/CUE images): the first `FILE`, the mode of the first track, its
//! `INDEX 01` and the start of the second track, read line by line.
use vstd::prelude::*;
use crate::text::{
    trim, upper_text, to_upper, str_eq, first_index_of, lemma_first_index_of_bounds, last_index_of, nth_word, spec_parse_u64,
    trim_range, find_char, find_last_char, nth_word_range, parse_u64_range, push_str,
};
use crate::paths::{join_path, parent_of, resolve, parent};
use crate::image::{Analysis, Layout, layout_ok, format_ok};

verus! {

/// The mode of the first track: (sector size, data offset), or the error for an audio
/// track or an unknown mode. The mode word is compared in upper case.
pub open spec fn spec_cue_mode(m: Seq<char>) -> Result<(u32, u32), Seq<char>> {
    let u = upper_text(m);
    if u == "MODE1/2048"@ || u == "MODE2/2048"@ {
        Ok((2048, 0))
    } else if u == "MODE1/2352"@ {
        Ok((2352, 16))
    } else if u == "MODE2/2352"@ || u == "CDI/2352"@ {
        Ok((2352, 24))
    } else if u == "MODE2/2336"@ || u == "CDI/2336"@ {
        Ok((2336, 8))
    } else if u == "AUDIO"@ {
        Err("erste Spur ist eine Audiospur — kein Datenabbild"@)
    } else {
        Err("CUE: Spurmodus „"@ + u + "“ nicht unterstützt"@)
    }
}

/// Sector size and data offset of a cue track mode.
pub fn cue_mode(mode: &str) -> (r: Result<(u32, u32), String>)
    ensures
        match r {
            Ok(x) => spec_cue_mode(mode@) == Ok::<(u32, u32), Seq<char>>(x),
            Err(e) => spec_cue_mode(mode@) == Err::<(u32, u32), Seq<char>>(e@),
        },
{
    let up = to_upper(mode);
    let u = up.as_str();
    if str_eq(u, "MODE1/2048") || str_eq(u, "MODE2/2048") {
        Ok((2048, 0))
    } else if str_eq(u, "MODE1/2352") {
        Ok((2352, 16))
    } else if str_eq(u, "MODE2/2352") || str_eq(u, "CDI/2352") {
        Ok((2352, 24))
    } else if str_eq(u, "MODE2/2336") || str_eq(u, "CDI/2336") {
        Ok((2336, 8))
    } else if str_eq(u, "AUDIO") {
        Err(String::from_str("erste Spur ist eine Audiospur — kein Datenabbild"))
    } else {
        let mut e = String::from_str("CUE: Spurmodus „");
        push_str(&mut e, u);
        e.append("“ nicht unterstützt");
        Err(e)
    }
}

/// `v`, or `u64::MAX` where it does not fit.
pub open spec fn clamp_u64(v: int) -> u64 {
    if v > u64::MAX { u64::MAX } else { v as u64 }
}

/// A cue time `mm:ss:ff` in frames (75 per second): the first three `:`-separated
/// fields, each trimmed and parsed; further fields are ignored.
pub open spec fn spec_msf_frames(s: Seq<char>) -> Option<u64> {
    match first_index_of(s, ':') {
        None => None,
        Some(i) => {
            let r0 = s.subrange(i + 1, s.len() as int);
            match first_index_of(r0, ':') {
                None => None,
                Some(j) => {
                    let r1 = r0.subrange(j + 1, r0.len() as int);
                    let p2 = match first_index_of(r1, ':') {
                        Some(k) => r1.subrange(0, k),
                        None => r1,
                    };
                    match (
                        spec_parse_u64(trim(s.subrange(0, i))),
                        spec_parse_u64(trim(r0.subrange(0, j))),
                        spec_parse_u64(trim(p2)),
                    ) {
                        (Some(m), Some(sec), Some(f)) => Some(clamp_u64(m * 60 * 75 + sec * 75 + f)),
                        _ => None,
                    }
                },
            }
        },
    }
}

/// Parses the trimmed field `s[a..b]`.
fn field(s: &str, a: usize, b: usize) -> (r: Option<u64>)
    requires
        a <= b <= s@.len(),
    ensures
        r == spec_parse_u64(trim(s@.subrange(a as int, b as int))),
{
    let (x, y) = trim_range(s, a, b);
    parse_u64_range(s, x, y)
}

/// Frames of the cue time `s[a..b]`.
fn msf_range(s: &str, a: usize, b: usize) -> (r: Option<u64>)
    requires
        a <= b <= s@.len(),
    ensures
        r == spec_msf_frames(s@.subrange(a as int, b as int)),
{
    let ghost t = s@.subrange(a as int, b as int);
    let i = match find_char(s, a, b, ':') {
        Some(i) => i,
        None => return None,
    };
    let ghost r0 = t.subrange(i - a + 1, t.len() as int);
    assert(r0 =~= s@.subrange(i + 1, b as int));
    let j = match find_char(s, i + 1, b, ':') {
        Some(j) => j,
        None => return None,
    };
    let ghost r1 = r0.subrange(j - i, r0.len() as int);
    assert(r1 =~= s@.subrange(j + 1, b as int));
    let k = match find_char(s, j + 1, b, ':') {
        Some(k) => k,
        None => b,
    };
    assert(t.subrange(0, i - a) =~= s@.subrange(a as int, i as int));
    assert(r0.subrange(0, j - i - 1) =~= s@.subrange(i + 1, j as int));
    assert(s@.subrange(j + 1, k as int) =~= (match first_index_of(r1, ':') {
        Some(x) => r1.subrange(0, x),
        None => r1,
    }));
    let m = field(s, a, i);
    let sec = field(s, i + 1, j);
    let f = field(s, j + 1, k);
    match (m, sec, f) {
        (Some(m), Some(sec), Some(f)) => {
            let total: u128 = m as u128 * 4500 + sec as u128 * 75 + f as u128;
            if total > 0xffff_ffff_ffff_ffff {
                Some(0xffff_ffff_ffff_ffff)
            } else {
                Some(total as u64)
            }
        },
        _ => None,
    }
}

/// Frames of a cue time `mm:ss:ff`.
pub fn msf_frames(s: &str) -> (r: Option<u64>)
    ensures
        r == spec_msf_frames(s@),
{
    let n = s.unicode_len();
    assert(s@.subrange(0, n as int) =~= s@);
    msf_range(s, 0, n)
}

/// `s` without the character `c` at either end (`str::trim_matches` with one character).
pub open spec fn strip_char(s: Seq<char>, c: char) -> Seq<char>
    decreases s.len(),
{
    if s.len() > 0 && s[0] == c {
        strip_char(s.drop_first(), c)
    } else if s.len() > 0 && s.last() == c {
        strip_char(s.drop_last(), c)
    } else {
        s
    }
}

/// Bounds of `strip_char(s[a..b], c)`.
fn strip_char_range(s: &str, a: usize, b: usize, c: char) -> (r: (usize, usize))
    requires
        a <= b <= s@.len(),
    ensures
        a <= r.0 <= r.1 <= b,
        strip_char(s@.subrange(a as int, b as int), c) == s@.subrange(r.0 as int, r.1 as int),
{
    let mut i = a;
    let mut j = b;
    while i < j && (s.get_char(i) == c || s.get_char(j - 1) == c)
        invariant
            a <= i <= j <= b <= s@.len(),
            strip_char(s@.subrange(a as int, b as int), c) == strip_char(s@.subrange(i as int, j as int), c),
        decreases j - i,
    {
        if s.get_char(i) == c {
            assert(s@.subrange(i as int, j as int).drop_first() =~= s@.subrange(i + 1, j as int));
            i = i + 1;
        } else {
            assert(s@.subrange(i as int, j as int).drop_last() =~= s@.subrange(i as int, j - 1));
            j = j - 1;
        }
    }
    (i, j)
}

/// The file named by the argument of a `FILE` line: the argument up to its last space
/// (which precedes the file type), trimmed, without surrounding quotes.
pub open spec fn file_arg(rest: Seq<char>) -> Seq<char> {
    let n = match last_index_of(rest, ' ') {
        Some(k) => rest.subrange(0, k),
        None => rest,
    };
    strip_char(trim(n), '"')
}

/// A line split at its first space into keyword and argument.
pub open spec fn split_key(l: Seq<char>) -> (Seq<char>, Seq<char>) {
    match first_index_of(l, ' ') {
        Some(k) => (l.subrange(0, k), l.subrange(k + 1, l.len() as int)),
        None => (l, Seq::empty()),
    }
}

/// What a cue sheet has told so far.
pub struct CueSheet {
    /// The first data file, taken relative to the sheet's folder.
    pub file: Option<String>,
    /// Sector size and data offset of the first track.
    pub mode: Option<(u32, u32)>,
    /// `INDEX 01` of the first track, in frames.
    pub index1: Option<u64>,
    /// The first index of the second track, in frames.
    pub next_start: Option<u64>,
    /// The lines read belong to the first track.
    pub in_first: bool,
    /// Number of `TRACK` lines read.
    pub tracks: u64,
}

/// A cue sheet as values.
pub struct CueView {
    pub file: Option<Seq<char>>,
    pub mode: Option<(u32, u32)>,
    pub index1: Option<u64>,
    pub next_start: Option<u64>,
    pub in_first: bool,
    pub tracks: u64,
}

impl View for CueSheet {
    type V = CueView;

    open spec fn view(&self) -> CueView {
        CueView {
            file: match self.file {
                Some(f) => Some(f@),
                None => None,
            },
            mode: self.mode,
            index1: self.index1,
            next_start: self.next_start,
            in_first: self.in_first,
            tracks: self.tracks,
        }
    }
}

/// Before the first line.
pub open spec fn cue_start() -> CueView {
    CueView { file: None, mode: None, index1: None, next_start: None, in_first: false, tracks: 0 }
}

/// One line of a cue sheet (trimmed, split into keyword and argument, the keyword
/// compared in upper case): the first `FILE` is kept; the first `TRACK` opens the first
/// track and fixes the mode (an unusable mode ends the reading with its error); a later
/// `TRACK` leaves the first track; `INDEX 01` in the first track sets its start, and the
/// first index of the second track its end. Other lines change nothing.
pub open spec fn cue_step(st: CueView, line: Seq<char>, dir: Seq<char>) -> Result<CueView, Seq<char>> {
    let l = trim(line);
    let key = upper_text(split_key(l).0);
    let rest = trim(split_key(l).1);
    if key == "FILE"@ {
        if st.file is None {
            Ok(CueView { file: Some(join_path(dir, file_arg(rest))), ..st })
        } else {
            Ok(st)
        }
    } else if key == "TRACK"@ {
        let t: u64 = if st.tracks == u64::MAX { u64::MAX } else { (st.tracks + 1) as u64 };
        if t == 1 {
            let m = match nth_word(rest, 1) {
                Some(w) => w,
                None => Seq::empty(),
            };
            match spec_cue_mode(m) {
                Ok(md) => Ok(CueView { tracks: t, in_first: true, mode: Some(md), ..st }),
                Err(e) => Err(e),
            }
        } else {
            Ok(CueView { tracks: t, in_first: false, ..st })
        }
    } else if key == "INDEX"@ {
        let n = match nth_word(rest, 0) {
            Some(w) => w,
            None => Seq::empty(),
        };
        let frames = match nth_word(rest, 1) {
            Some(w) => spec_msf_frames(w),
            None => None,
        };
        if st.in_first && n == "01"@ {
            Ok(CueView { index1: frames, ..st })
        } else if !st.in_first && st.tracks == 2 && st.next_start is None {
            Ok(CueView { next_start: frames, ..st })
        } else {
            Ok(st)
        }
    } else {
        Ok(st)
    }
}

/// The lines of `text` from `pos` on (split at `\n`; a final `\n` ends the last line
/// rather than opening an empty one), each read by `cue_step`.
pub open spec fn cue_from(text: Seq<char>, pos: int, st: CueView, dir: Seq<char>) -> Result<CueView, Seq<char>>
    decreases text.len() + 1 - pos,
{
    if pos < 0 || pos >= text.len() {
        Ok(st)
    } else {
        proof {
            lemma_first_index_of_bounds(text.subrange(pos, text.len() as int), '\n');
        }
        let e = match first_index_of(text.subrange(pos, text.len() as int), '\n') {
            Some(k) => pos + k,
            None => text.len() as int,
        };
        match cue_step(st, text.subrange(pos, e), dir) {
            Ok(next) => cue_from(text, e + 1, next, dir),
            Err(m) => Err(m),
        }
    }
}

/// A sheet whose first-track mode, if any, is one a conversion can copy.
pub open spec fn cue_sheet_ok(sh: CueView) -> bool {
    sh.mode matches Some((s, o)) ==> format_ok(s, o)
}

/// Reading lines keeps a sheet's mode copyable.
pub proof fn lemma_cue_from_ok(text: Seq<char>, pos: int, st: CueView, dir: Seq<char>)
    requires
        cue_sheet_ok(st),
    ensures
        cue_from(text, pos, st, dir) matches Ok(sh) ==> cue_sheet_ok(sh),
    decreases text.len() + 1 - pos,
{
    if !(pos < 0 || pos >= text.len()) {
        lemma_first_index_of_bounds(text.subrange(pos, text.len() as int), '\n');
        let e = match first_index_of(text.subrange(pos, text.len() as int), '\n') {
            Some(k) => pos + k,
            None => text.len() as int,
        };
        if let Ok(next) = cue_step(st, text.subrange(pos, e), dir) {
            lemma_cue_from_ok(text, e + 1, next, dir);
        }
    }
}

/// The folder against which a cue sheet's file names are taken: its parent, or `.`.
pub open spec fn cue_dir(path: Seq<char>) -> Seq<char> {
    match parent_of(path) {
        Some(d) => d,
        None => "."@,
    }
}

/// Reads one line of a cue sheet, `text[a..e]`.
fn step_line(st: CueSheet, text: &str, a: usize, e: usize, dir: &str) -> (r: Result<CueSheet, String>)
    requires
        a <= e <= text@.len(),
    ensures
        match r {
            Ok(n) => cue_step(st@, text@.subrange(a as int, e as int), dir@) == Ok::<CueView, Seq<char>>(n@),
            Err(m) => cue_step(st@, text@.subrange(a as int, e as int), dir@) == Err::<CueView, Seq<char>>(m@),
        },
{
    let ghost line = text@.subrange(a as int, e as int);
    let (la, lb) = trim_range(text, a, e);
    let ghost l = text@.subrange(la as int, lb as int);
    let (kb, ra0) = match find_char(text, la, lb, ' ') {
        Some(k) => (k, k + 1),
        None => (lb, lb),
    };
    assert(split_key(l).0 =~= text@.subrange(la as int, kb as int));
    assert(split_key(l).1 =~= text@.subrange(ra0 as int, lb as int));
    let (ra, rb) = trim_range(text, ra0, lb);
    let ghost rest = text@.subrange(ra as int, rb as int);
    let up = to_upper(text.substring_char(la, kb));
    let key = up.as_str();
    if str_eq(key, "FILE") {
        if st.file.is_none() {
            let (na, nb) = match find_last_char(text, ra, rb, ' ') {
                Some(k) => (ra, k),
                None => (ra, rb),
            };
            assert(text@.subrange(na as int, nb as int) =~= (match last_index_of(rest, ' ') {
                Some(k) => rest.subrange(0, k),
                None => rest,
            }));
            let (ta, tb) = trim_range(text, na, nb);
            let (qa, qb) = strip_char_range(text, ta, tb, '"');
            let f = resolve(dir, text.substring_char(qa, qb));
            Ok(CueSheet { file: Some(f), ..st })
        } else {
            Ok(st)
        }
    } else if str_eq(key, "TRACK") {
        let t: u64 = if st.tracks == 0xffff_ffff_ffff_ffff { st.tracks } else { st.tracks + 1 };
        if t == 1 {
            let m = match nth_word_range(text, ra, rb, 1) {
                Some((x, y)) => text.substring_char(x, y),
                None => "",
            };
            proof {
                reveal_strlit("");
            }
            assert(m@ == (match nth_word(rest, 1) {
                Some(w) => w,
                None => Seq::empty(),
            }));
            match cue_mode(m) {
                Ok(md) => Ok(CueSheet { tracks: t, in_first: true, mode: Some(md), ..st }),
                Err(err) => Err(err),
            }
        } else {
            Ok(CueSheet { tracks: t, in_first: false, ..st })
        }
    } else if str_eq(key, "INDEX") {
        let n = match nth_word_range(text, ra, rb, 0) {
            Some((x, y)) => text.substring_char(x, y),
            None => "",
        };
        proof {
            reveal_strlit("");
        }
        assert(n@ == (match nth_word(rest, 0) {
            Some(w) => w,
            None => Seq::empty(),
        }));
        let frames = match nth_word_range(text, ra, rb, 1) {
            Some((x, y)) => msf_range(text, x, y),
            None => None,
        };
        if st.in_first && str_eq(n, "01") {
            Ok(CueSheet { index1: frames, ..st })
        } else if !st.in_first && st.tracks == 2 && st.next_start.is_none() {
            Ok(CueSheet { next_start: frames, ..st })
        } else {
            Ok(st)
        }
    } else {
        Ok(st)
    }
}

/// Reads a cue sheet (`text`, found at `cue_path`) line by line.
pub fn cue_sheet(text: &str, cue_path: &str) -> (r: Result<CueSheet, String>)
    ensures
        match r {
            Ok(sh) => cue_from(text@, 0, cue_start(), cue_dir(cue_path@)) == Ok::<CueView, Seq<char>>(sh@),
            Err(m) => cue_from(text@, 0, cue_start(), cue_dir(cue_path@)) == Err::<CueView, Seq<char>>(m@),
        },
        r matches Ok(sh) ==> cue_sheet_ok(sh@),
{
    proof {
        lemma_cue_from_ok(text@, 0, cue_start(), cue_dir(cue_path@));
    }
    let dir = match parent(cue_path) {
        Some(d) => d,
        None => String::from_str("."),
    };
    let n = text.unicode_len();
    let mut st = CueSheet { file: None, mode: None, index1: None, next_start: None, in_first: false, tracks: 0 };
    let mut pos: usize = 0;
    while pos < n
        invariant
            n == text@.len(),
            pos <= n,
            dir@ == cue_dir(cue_path@),
            cue_from(text@, pos as int, st@, dir@) == cue_from(text@, 0, cue_start(), cue_dir(cue_path@)),
        decreases n - pos,
    {
        let e = match find_char(text, pos, n, '\n') {
            Some(k) => k,
            None => n,
        };
        let ghost before = st@;
        assert(text@.subrange(pos as int, text@.len() as int) =~= text@.subrange(pos as int, n as int));
        match step_line(st, text, pos, e, dir.as_str()) {
            Ok(next) => {
                st = next;
            },
            Err(m) => {
                return Err(m);
            },
        }
        assert(cue_from(text@, pos as int, before, dir@) == cue_from(text@, e + 1, st@, dir@));
        if e < n {
            pos = e + 1;
        } else {
            pos = n;
        }
    }
    Ok(st)
}

/// Start and end of the data track of a cue sheet whose data file exists and holds
/// `len` bytes: the first track starts at its `INDEX 01` (else at 0) and ends where the
/// second track starts, but no later than the file (offsets past `u64::MAX` are clamped).
pub open spec fn cue_layout(sh: CueView, size: u32, off: u32, len: u64) -> Layout {
    let start = clamp_u64((match sh.index1 { Some(f) => f as int, None => 0int }) * size);
    let e0 = match sh.next_start {
        Some(f) => clamp_u64(f * size),
        None => len,
    };
    Layout { sector_size: size, data_offset: off, start, end: if e0 < len { e0 } else { len } }
}

/// The analysis of a read cue sheet: its data file must be named and exist (`exists`,
/// with `len` bytes) and its first track must have a mode.
pub open spec fn spec_cue_analysis(sh: CueView, exists: bool, len: u64) -> Result<(Seq<char>, Layout), Seq<char>> {
    match sh.file {
        None => Err("CUE: keine FILE-Zeile"@),
        Some(f) => if !exists {
            Err("CUE: Datendatei "@ + f + " fehlt"@)
        } else {
            match sh.mode {
                None => Err("CUE: keine TRACK-Zeile"@),
                Some((size, off)) => Ok((f, cue_layout(sh, size, off, len))),
            }
        },
    }
}

fn mul_clamped(a: u64, b: u32) -> (r: u64)
    ensures
        r == clamp_u64(a * b),
{
    assert((a as u128) * (b as u128) <= 0xffff_ffff_ffff_ffff * 0xffff_ffffu128) by (nonlinear_arith);
    let p: u128 = a as u128 * b as u128;
    if p > 0xffff_ffff_ffff_ffff { 0xffff_ffff_ffff_ffff } else { p as u64 }
}

/// The analysis of a cue sheet, given whether its data file exists and how long it is.
pub fn cue_analysis(sheet: &CueSheet, data_exists: bool, len: u64) -> (r: Result<Analysis, String>)
    ensures
        match spec_cue_analysis(sheet@, data_exists, len) {
            Ok((f, l)) => r matches Ok(a) && a.kind@ == "cue"@ && a.data_file@ == f && a.layout == Some(l),
            Err(m) => r matches Err(e) && e@ == m,
        },
        cue_sheet_ok(sheet@) ==> (r matches Ok(a) ==> (a.layout matches Some(l) ==> layout_ok(l))),
{
    let f = match &sheet.file {
        None => return Err(String::from_str("CUE: keine FILE-Zeile")),
        Some(f) => f,
    };
    if !data_exists {
        let mut e = String::from_str("CUE: Datendatei ");
        push_str(&mut e, f.as_str());
        e.append(" fehlt");
        return Err(e);
    }
    let (size, off) = match sheet.mode {
        None => return Err(String::from_str("CUE: keine TRACK-Zeile")),
        Some(m) => m,
    };
    let start = mul_clamped(match sheet.index1 { Some(x) => x, None => 0 }, size);
    let e0 = match sheet.next_start {
        Some(x) => mul_clamped(x, size),
        None => len,
    };
    let end = if e0 < len { e0 } else { len };
    proof {
        reveal_strlit("cue");
    }
    Ok(Analysis { kind: "cue", data_file: f.clone(), layout: Some(Layout { sector_size: size, data_offset: off, start, end }) })
}

} // verus!
