//! Machines as the app keeps them: folder names, media changes, saved edits and the
//! CD images that must be converted before QEMU can read them.
use vstd::prelude::*;
use crate::model::{Machine, MediaKind, MediaRef, Engine, DiskRef};
use crate::detect::{HostOs, install_hint, spec_install_hint};
use crate::image::{Analysis, lower_ext_of, ext, spec_iso_name_for, iso_name_for};
use crate::paths::{join_path, resolve, file_name_of, file_name};
use crate::profile::Profile;
use crate::text::{str_eq, trim, trim_range, lower_text, to_lower, push_str, push_dec, dec};
use crate::probe::answered;

verus! {

/// `c` is an ASCII letter or digit.
pub open spec fn is_ascii_alnum(c: char) -> bool {
    ('0' <= c && c <= '9') || ('a' <= c && c <= 'z') || ('A' <= c && c <= 'Z')
}

/// `c` with an ASCII capital made small.
pub open spec fn ascii_lower(c: char) -> char {
    if 'A' <= c && c <= 'Z' { ((c as u8) + 32) as char } else { c }
}

/// What a character becomes in a folder name: German umlauts and ß their base letter,
/// ASCII letters and digits themselves (small), anything else a separator.
pub open spec fn slug_char(c: char) -> Option<char> {
    if c == 'ä' {
        Some('a')
    } else if c == 'ö' {
        Some('o')
    } else if c == 'ü' {
        Some('u')
    } else if c == 'ß' {
        Some('s')
    } else if is_ascii_alnum(c) {
        Some(ascii_lower(c))
    } else {
        None
    }
}

/// The characters mapped one by one, each run of separators (and separators at the
/// start) as one `-` at most; with whether the last thing written was a separator.
pub open spec fn slug_raw(s: Seq<char>) -> (Seq<char>, bool)
    decreases s.len(),
{
    if s.len() == 0 {
        (Seq::empty(), true)
    } else {
        let (o, d) = slug_raw(s.drop_last());
        match slug_char(s.last()) {
            Some(ch) => (o.push(ch), false),
            None => if !d { (o.push('-'), true) } else { (o, d) },
        }
    }
}

/// `s` without trailing `c`.
pub open spec fn strip_end(s: Seq<char>, c: char) -> Seq<char>
    decreases s.len(),
{
    if s.len() > 0 && s.last() == c { strip_end(s.drop_last(), c) } else { s }
}

/// The folder name for a machine name: lower case, ASCII, dashes; `maschine` when
/// nothing is left.
pub open spec fn spec_slugify(name: Seq<char>) -> Seq<char> {
    slug_text(lower_text(name))
}

/// The folder name for an already lower-cased text.
pub open spec fn slug_text(s: Seq<char>) -> Seq<char> {
    let t = strip_end(slug_raw(s).0, '-');
    if t.len() == 0 { "maschine"@ } else { t }
}

fn slug_char_of(c: char) -> (r: Option<char>)
    ensures
        r == slug_char(c),
{
    if c == 'ä' {
        Some('a')
    } else if c == 'ö' {
        Some('o')
    } else if c == 'ü' {
        Some('u')
    } else if c == 'ß' {
        Some('s')
    } else if ('0' <= c && c <= '9') || ('a' <= c && c <= 'z') {
        Some(c)
    } else if 'A' <= c && c <= 'Z' {
        let b = c as u8 + 32;
        Some(b as char)
    } else {
        None
    }
}

/// The folder name for a machine name.
pub fn slugify(name: &str) -> (r: String)
    ensures
        r@ == spec_slugify(name@),
{
    let low = to_lower(name);
    let s = low.as_str();
    let n = s.unicode_len();
    let mut out = String::new();
    let mut last_dash = true;
    let mut i: usize = 0;
    while i < n
        invariant
            n == s@.len(),
            s@ == lower_text(name@),
            i <= n,
            (out@, last_dash) == slug_raw(s@.subrange(0, i as int)),
        decreases n - i,
    {
        assert(s@.subrange(0, i + 1).drop_last() =~= s@.subrange(0, i as int));
        let c = s.get_char(i);
        match slug_char_of(c) {
            Some(ch) => {
                out.push(ch);
                last_dash = false;
            },
            None => {
                if !last_dash {
                    out.push('-');
                    last_dash = true;
                }
            },
        }
        i = i + 1;
    }
    assert(s@.subrange(0, n as int) =~= s@);
    let m = out.as_str().unicode_len();
    assert(out@.subrange(0, m as int) =~= out@);
    let mut k = m;
    while k > 0 && out.as_str().get_char(k - 1) == '-'
        invariant
            k <= m,
            m == out@.len(),
            strip_end(out@, '-') == strip_end(out@.subrange(0, k as int), '-'),
        decreases k,
    {
        assert(out@.subrange(0, k as int).drop_last() =~= out@.subrange(0, k - 1));
        k = k - 1;
    }
    assert(strip_end(out@.subrange(0, k as int), '-') == out@.subrange(0, k as int));
    if k == 0 {
        String::from_str("maschine")
    } else {
        String::from_str(out.as_str().substring_char(0, k))
    }
}

/// The folder name for the `n`-th machine of one name: the slug, then `slug-2`, `slug-3`, ….
pub open spec fn spec_machine_dir_name(slug: Seq<char>, n: u32) -> Seq<char> {
    if n <= 1 { slug } else { slug + "-"@ + dec(n as nat) }
}

/// The folder name for the `n`-th machine of one name.
pub fn machine_dir_name(slug: &str, n: u32) -> (r: String)
    ensures
        r@ == spec_machine_dir_name(slug@, n),
{
    let mut s = String::from_str(slug);
    if n > 1 {
        s.push('-');
        push_dec(&mut s, n as u64);
        assert(s@ =~= slug@ + "-"@ + dec(n as nat)) by {
            reveal_strlit("-");
        }
    }
    s
}

/// The folder of the `n`-th machine of one name in the machines folder.
pub open spec fn nth_machine_dir(base: Seq<char>, slug: Seq<char>, n: u32) -> Seq<char> {
    join_path(base, spec_machine_dir_name(slug, n))
}

/// The first folder for a new machine that does not exist yet: `<base>/<slug>`, then
/// `<base>/<slug>-2`, `-3`, …; none when every number up to `u32::MAX` is taken.
pub fn free_machine_dir<F: Fn(&str) -> bool>(base: &str, slug: &str, is_taken: &F) -> (r: Option<String>)
    requires
        forall|x: &str| call_requires(*is_taken, (x,)),
    ensures
        match r {
            Some(d) => exists|n: u32| 1 <= n && d@ == #[trigger] nth_machine_dir(base@, slug@, n) && answered(*is_taken, d@, false)
                && forall|k: u32| 1 <= k < n ==> answered(*is_taken, #[trigger] nth_machine_dir(base@, slug@, k), true),
            None => forall|k: u32| 1 <= k ==> answered(*is_taken, #[trigger] nth_machine_dir(base@, slug@, k), true),
        },
{
    let mut n: u32 = 1;
    loop
        invariant
            1 <= n,
            forall|x: &str| call_requires(*is_taken, (x,)),
            forall|k: u32| 1 <= k < n ==> answered(*is_taken, #[trigger] nth_machine_dir(base@, slug@, k), true),
        decreases u32::MAX - n,
    {
        let name = machine_dir_name(slug, n);
        let candidate = resolve(base, name.as_str());
        let taken = is_taken(candidate.as_str());
        if !taken {
            assert(answered(*is_taken, candidate@, false));
            assert(candidate@ == nth_machine_dir(base@, slug@, n));
            return Some(candidate);
        }
        assert(answered(*is_taken, nth_machine_dir(base@, slug@, n), true));
        if n == 0xffff_ffff {
            assert forall|k: u32| 1 <= k implies answered(*is_taken, #[trigger] nth_machine_dir(base@, slug@, k), true) by {
                if k < n {
                } else {
                    assert(k == n);
                }
            }
            return None;
        }
        n = n + 1;
    }
}

/// The settings file in the configuration folder.
pub fn settings_path(config_dir: &str) -> (r: String)
    ensures
        r@ == join_path(config_dir@, "settings.json"@),
{
    resolve(config_dir, "settings.json")
}

/// The folder holding the machine folders: the setting, trimmed, or, where it is blank,
/// `machines` in the app's data folder.
pub open spec fn spec_machines_folder(setting: Seq<char>, data_dir: Seq<char>) -> Seq<char> {
    if trim(setting).len() == 0 { join_path(data_dir, "machines"@) } else { trim(setting) }
}

pub fn machines_folder(setting: &str, data_dir: &str) -> (r: String)
    ensures
        r@ == spec_machines_folder(setting@, data_dir@),
{
    let n = setting.unicode_len();
    assert(setting@.subrange(0, n as int) =~= setting@);
    let (a, b) = trim_range(setting, 0, n);
    if a == b {
        resolve(data_dir, "machines")
    } else {
        String::from_str(setting.substring_char(a, b))
    }
}

/// The folder with the user's own profiles in the configuration folder.
pub fn profiles_folder(config_dir: &str) -> (r: String)
    ensures
        r@ == join_path(config_dir@, "profiles"@),
{
    resolve(config_dir, "profiles")
}

/// Index of the first listed machine with the id `id`, from `i` on.
pub open spec fn machine_index(entries: Seq<(String, Machine)>, id: Seq<char>, i: int) -> Option<int>
    decreases entries.len() - i,
{
    if i < 0 || i >= entries.len() {
        None
    } else if entries[i].1.id@ == id {
        Some(i)
    } else {
        machine_index(entries, id, i + 1)
    }
}

/// `a` comes before `b`, or equals it, character by character (as strings compare).
pub open spec fn text_le(a: Seq<char>, b: Seq<char>) -> bool
    decreases a.len(),
{
    if a.len() == 0 {
        true
    } else if b.len() == 0 {
        false
    } else if a[0] != b[0] {
        (a[0] as u32) < (b[0] as u32)
    } else {
        text_le(a.drop_first(), b.drop_first())
    }
}

/// What listed machines are ordered by: the name in small letters.
pub open spec fn name_key(e: (String, Machine)) -> Seq<char> {
    lower_text(e.1.name@)
}

/// `x` put behind the last entry whose name comes before it or equals it.
pub open spec fn insert_by_name(s: Seq<(String, Machine)>, x: (String, Machine)) -> Seq<(String, Machine)>
    decreases s.len(),
{
    if s.len() == 0 {
        seq![x]
    } else if text_le(name_key(s.last()), name_key(x)) {
        s.push(x)
    } else {
        insert_by_name(s.drop_last(), x).push(s.last())
    }
}

/// Entries sorted by name, those of equal name in the order they came.
pub open spec fn spec_sort_by_name(s: Seq<(String, Machine)>) -> Seq<(String, Machine)>
    decreases s.len(),
{
    if s.len() == 0 {
        s
    } else {
        insert_by_name(spec_sort_by_name(s.drop_last()), s.last())
    }
}

/// Whether `a[i..]` comes before `b[j..]` or equals it.
fn text_le_from(a: &str, b: &str, i: usize, j: usize) -> (r: bool)
    requires
        i <= a@.len(),
        j <= b@.len(),
    ensures
        r == text_le(a@.subrange(i as int, a@.len() as int), b@.subrange(j as int, b@.len() as int)),
    decreases a@.len() - i,
{
    let ghost x = a@.subrange(i as int, a@.len() as int);
    let ghost y = b@.subrange(j as int, b@.len() as int);
    if i == a.unicode_len() {
        return true;
    }
    if j == b.unicode_len() {
        return false;
    }
    let c = a.get_char(i);
    let d = b.get_char(j);
    assert(x[0] == c && y[0] == d);
    if c != d {
        return (c as u32) < (d as u32);
    }
    assert(x.drop_first() =~= a@.subrange(i + 1, a@.len() as int));
    assert(y.drop_first() =~= b@.subrange(j + 1, b@.len() as int));
    text_le_from(a, b, i + 1, j + 1)
}

proof fn lemma_insert_at(s: Seq<(String, Machine)>, x: (String, Machine), j: int)
    requires
        0 <= j <= s.len(),
        forall|k: int| j <= k < s.len() ==> !text_le(name_key(#[trigger] s[k]), name_key(x)),
        j == 0 || text_le(name_key(s[j - 1]), name_key(x)),
    ensures
        insert_by_name(s, x) == s.insert(j, x),
    decreases s.len(),
{
    if s.len() == 0 {
        assert(s.insert(j, x) =~= seq![x]);
    } else if j == s.len() {
        assert(s.insert(j, x) =~= s.push(x));
    } else {
        let t = s.drop_last();
        assert forall|k: int| j <= k < t.len() implies !text_le(name_key(#[trigger] t[k]), name_key(x)) by {
            assert(t[k] == s[k]);
        }
        if j > 0 {
            assert(t[j - 1] == s[j - 1]);
        }
        assert(!text_le(name_key(s[s.len() - 1]), name_key(x)));
        lemma_insert_at(t, x, j);
        assert(t.insert(j, x).push(s.last()) =~= s.insert(j, x));
    }
}

/// Listed machines sorted by name (ignoring case), those of equal name in the order
/// they came.
pub fn sort_by_name(entries: Vec<(String, Machine)>) -> (r: Vec<(String, Machine)>)
    ensures
        r@ == spec_sort_by_name(entries@),
{
    let ghost all = entries@;
    let n = entries.len();
    let mut rest = entries;
    let mut out: Vec<(String, Machine)> = Vec::new();
    let mut keys: Vec<String> = Vec::new();
    let mut i: usize = 0;
    assert(all.subrange(0, 0) =~= Seq::<(String, Machine)>::empty());
    while i < n
        invariant
            n == all.len(),
            i <= n,
            rest@ == all.subrange(i as int, n as int),
            out@ == spec_sort_by_name(all.subrange(0, i as int)),
            keys@.len() == out@.len(),
            forall|k: int| 0 <= k < out@.len() ==> #[trigger] keys@[k]@ == name_key(out@[k]),
        decreases n - i,
    {
        let ghost before = rest@;
        let x = rest.remove(0);
        assert(x == all[i as int]);
        assert(rest@ =~= all.subrange(i + 1, n as int));
        let key = to_lower(x.1.name.as_str());
        let mut j = out.len();
        while j > 0 && !text_le_from(keys[j - 1].as_str(), key.as_str(), 0, 0)
            invariant
                j <= out@.len(),
                keys@.len() == out@.len(),
                forall|k: int| 0 <= k < out@.len() ==> #[trigger] keys@[k]@ == name_key(out@[k]),
                key@ == name_key(x),
                forall|k: int| j <= k < out@.len() ==> !text_le(name_key(#[trigger] out@[k]), name_key(x)),
            decreases j,
        {
            assert(keys@[j - 1]@.subrange(0, keys@[j - 1]@.len() as int) =~= keys@[j - 1]@);
            assert(key@.subrange(0, key@.len() as int) =~= key@);
            j = j - 1;
        }
        if j > 0 {
            assert(keys@[j - 1]@.subrange(0, keys@[j - 1]@.len() as int) =~= keys@[j - 1]@);
            assert(key@.subrange(0, key@.len() as int) =~= key@);
        }
        proof {
            lemma_insert_at(out@, x, j as int);
            assert(all.subrange(0, i + 1).drop_last() =~= all.subrange(0, i as int));
            assert(all.subrange(0, i + 1).last() == x);
        }
        let ghost prev_keys = keys@;
        let ghost prev_out = out@;
        out.insert(j, x);
        keys.insert(j, key);
        assert forall|k: int| 0 <= k < out@.len() implies #[trigger] keys@[k]@ == name_key(out@[k]) by {
            if k < j {
                assert(keys@[k] == prev_keys[k] && out@[k] == prev_out[k]);
            } else if k > j {
                assert(keys@[k] == prev_keys[k - 1] && out@[k] == prev_out[k - 1]);
            }
        }
        i = i + 1;
    }
    assert(all.subrange(0, n as int) =~= all);
    out
}

/// The folder of the machine with the id `id` among listed (folder, machine) pairs.
pub fn find_dir(entries: &Vec<(String, Machine)>, id: &str) -> (r: Option<String>)
    ensures
        match machine_index(entries@, id@, 0) {
            Some(k) => r matches Some(d) && d@ == entries@[k].0@,
            None => r is None,
        },
{
    let mut i: usize = 0;
    while i < entries.len() && !str_eq(entries[i].1.id.as_str(), id)
        invariant
            i <= entries@.len(),
            machine_index(entries@, id@, 0) == machine_index(entries@, id@, i as int),
        decreases entries@.len() - i,
    {
        i = i + 1;
    }
    if i < entries.len() {
        Some(entries[i].0.clone())
    } else {
        None
    }
}

/// The drive a medium goes into: consoles take ROMs; floppy image extensions a floppy
/// drive; everything else the CD drive.
pub open spec fn spec_media_kind_for(path: Seq<char>, engine: Engine) -> MediaKind {
    let e = lower_ext_of(path);
    if engine == Engine::Libretro {
        MediaKind::Rom
    } else if e == "img"@ || e == "ima"@ || e == "dsk"@ || e == "vfd"@ || e == "flp"@ {
        MediaKind::Floppy
    } else {
        MediaKind::Cdrom
    }
}

/// The drive a medium goes into.
pub fn media_kind_for(path: &str, engine: Engine) -> (r: MediaKind)
    ensures
        r == spec_media_kind_for(path@, engine),
{
    if engine == Engine::Libretro {
        return MediaKind::Rom;
    }
    let e = ext(path);
    let x = e.as_str();
    if str_eq(x, "img") || str_eq(x, "ima") || str_eq(x, "dsk") || str_eq(x, "vfd") || str_eq(x, "flp") {
        MediaKind::Floppy
    } else {
        MediaKind::Cdrom
    }
}

/// Extensions that surely do not run without conversion.
pub open spec fn spec_must_convert(path: Seq<char>) -> bool {
    let e = lower_ext_of(path);
    e == "nrg"@ || e == "cue"@ || e == "mds"@ || e == "ccd"@
}

/// Whether an image surely needs conversion (its analysis must then succeed).
pub fn must_convert(path: &str) -> (r: bool)
    ensures
        r == spec_must_convert(path@),
{
    let e = ext(path);
    let x = e.as_str();
    str_eq(x, "nrg") || str_eq(x, "cue") || str_eq(x, "mds") || str_eq(x, "ccd")
}

/// What to do with a CD image once analysed.
pub enum CdStep {
    /// Use the path as it is.
    Keep(String),
    /// Convert into `dst` (unless an up-to-date copy is there) and store `stored`.
    Convert { dst: String, stored: String },
    /// The image cannot be used.
    Fail(String),
}

/// A failed analysis of an image that needs conversion is an error; of another image,
/// QEMU may try it raw. An image without layout is an ISO already. Otherwise it is
/// converted to `<stem>.iso` in the machine folder, and the machine stores that name.
pub open spec fn cd_step_ok(dir: Seq<char>, path: Seq<char>, analysis: Result<Analysis, String>, r: CdStep) -> bool {
    match analysis {
        Err(e) => if spec_must_convert(path) {
            r matches CdStep::Fail(m) && m@ == "Abbild nicht lesbar: "@ + e@
        } else {
            r matches CdStep::Keep(p) && p@ == path
        },
        Ok(a) => if a.layout is None {
            r matches CdStep::Keep(p) && p@ == path
        } else {
            let dst = join_path(dir, spec_iso_name_for(path));
            r matches CdStep::Convert { dst: d, stored } && d@ == dst && stored@ == (match file_name_of(dst) {
                Some(f) => f,
                None => path,
            })
        },
    }
}

/// What to do with a CD image once analysed.
pub fn cd_image_step(dir: &str, path: &str, analysis: &Result<Analysis, String>) -> (r: CdStep)
    ensures
        cd_step_ok(dir@, path@, *analysis, r),
{
    match analysis {
        Err(e) => if must_convert(path) {
            let mut m = String::from_str("Abbild nicht lesbar: ");
            push_str(&mut m, e.as_str());
            CdStep::Fail(m)
        } else {
            CdStep::Keep(String::from_str(path))
        },
        Ok(a) => if a.layout.is_none() {
            CdStep::Keep(String::from_str(path))
        } else {
            let name = iso_name_for(path);
            let dst = resolve(dir, name.as_str());
            let stored = match file_name(dst.as_str()) {
                Some(f) => f,
                None => String::from_str(path),
            };
            CdStep::Convert { dst, stored }
        },
    }
}

/// Media that are not in the drive (kind and slot) of `medium`.
pub open spec fn other_drive(medium: MediaRef) -> spec_fn(MediaRef) -> bool {
    |x: MediaRef| !(x.kind == medium.kind && x.slot == medium.slot)
}

/// Media other than the one with the id `id`.
pub open spec fn not_medium(id: Seq<char>) -> spec_fn(MediaRef) -> bool {
    |x: MediaRef| x.id@ != id
}

/// The media after a medium is put into a drive: whatever was in that drive (kind and
/// slot) leaves, the new medium joins the end.
pub open spec fn media_after_attach(media: Seq<MediaRef>, medium: MediaRef) -> Seq<MediaRef> {
    media.filter(other_drive(medium)).push(medium)
}

/// Puts a medium into its drive and stamps the change.
pub fn attach_medium(m: &mut Machine, medium: MediaRef, now: &str)
    ensures
        final(m).media@ == media_after_attach(old(m).media@, medium),
        final(m).updated_at@ == now@,
        *final(m) == (Machine { media: final(m).media, updated_at: final(m).updated_at, ..*old(m) }),
{
    let ghost old_media = m.media@;
    let mut kept: Vec<MediaRef> = Vec::new();
    let mut rest: Vec<MediaRef> = Vec::new();
    std::mem::swap(&mut rest, &mut m.media);
    let total = rest.len();
    let mut i: usize = 0;
    while rest.len() > 0
        invariant
            total == old_media.len(),
            i + rest@.len() == old_media.len(),
            rest@ == old_media.subrange(i as int, old_media.len() as int),
            kept@ == old_media.subrange(0, i as int).filter(other_drive(medium)),
        decreases rest@.len(),
    {
        let x = rest.remove(0);
        assert(old_media.subrange(0, i + 1).drop_last() =~= old_media.subrange(0, i as int));
        assert(old_media.subrange(0, i + 1).last() == x);
        proof {
            reveal(Seq::filter);
        }
        if !(x.kind == medium.kind && x.slot == medium.slot) {
            kept.push(x);
        }
        i = i + 1;
        assert(rest@ =~= old_media.subrange(i as int, old_media.len() as int));
    }
    assert(old_media.subrange(0, old_media.len() as int) =~= old_media);
    kept.push(medium);
    m.media = kept;
    m.updated_at = String::from_str(now);
}

/// Takes the medium with the id `media_id` out and stamps the change.
pub fn detach_medium(m: &mut Machine, media_id: &str, now: &str)
    ensures
        final(m).media@ == old(m).media@.filter(not_medium(media_id@)),
        final(m).updated_at@ == now@,
        *final(m) == (Machine { media: final(m).media, updated_at: final(m).updated_at, ..*old(m) }),
{
    let ghost old_media = m.media@;
    let mut kept: Vec<MediaRef> = Vec::new();
    let mut rest: Vec<MediaRef> = Vec::new();
    std::mem::swap(&mut rest, &mut m.media);
    let total = rest.len();
    let mut i: usize = 0;
    while rest.len() > 0
        invariant
            total == old_media.len(),
            i + rest@.len() == old_media.len(),
            rest@ == old_media.subrange(i as int, old_media.len() as int),
            kept@ == old_media.subrange(0, i as int).filter(not_medium(media_id@)),
        decreases rest@.len(),
    {
        let x = rest.remove(0);
        assert(old_media.subrange(0, i + 1).drop_last() =~= old_media.subrange(0, i as int));
        assert(old_media.subrange(0, i + 1).last() == x);
        proof {
            reveal(Seq::filter);
        }
        if !str_eq(x.id.as_str(), media_id) {
            kept.push(x);
        }
        i = i + 1;
        assert(rest@ =~= old_media.subrange(i as int, old_media.len() as int));
    }
    assert(old_media.subrange(0, old_media.len() as int) =~= old_media);
    m.media = kept;
    m.updated_at = String::from_str(now);
}

/// An edited machine as it is saved: its creation time and (when the edit has none)
/// its profile stay as stored; the change is stamped.
pub fn merge_saved(machine: &mut Machine, stored: &Machine, now: &str)
    ensures
        final(machine).created_at == stored.created_at,
        final(machine).profile_id == (if old(machine).profile_id@.len() == 0 { stored.profile_id } else { old(machine).profile_id }),
        final(machine).updated_at@ == now@,
        *final(machine) == (Machine {
            created_at: final(machine).created_at,
            profile_id: final(machine).profile_id,
            updated_at: final(machine).updated_at,
            ..*old(machine)
        }),
{
    machine.created_at = stored.created_at.clone();
    if machine.profile_id.as_str().unicode_len() == 0 {
        machine.profile_id = stored.profile_id.clone();
    }
    machine.updated_at = String::from_str(now);
}

/// The name of a new machine: the given one trimmed; a blank name is refused.
pub fn machine_name(name: &str) -> (r: Result<String, String>)
    ensures
        trim(name@).len() > 0 ==> (r matches Ok(n) && n@ == trim(name@)),
        trim(name@).len() == 0 ==> (r matches Err(e) && e@ == "Name fehlt"@),
{
    let n = name.unicode_len();
    assert(name@.subrange(0, n as int) =~= name@);
    let (a, b) = trim_range(name, 0, n);
    if a == b {
        return Err(String::from_str("Name fehlt"));
    }
    Ok(String::from_str(name.substring_char(a, b)))
}

/// Index of the first profile with the id `id`, from `i` on.
pub open spec fn profile_index(ps: Seq<Profile>, id: Seq<char>, i: int) -> Option<int>
    decreases ps.len() - i,
{
    if i < 0 || i >= ps.len() {
        None
    } else if ps[i].id@ == id {
        Some(i)
    } else {
        profile_index(ps, id, i + 1)
    }
}

/// The profile a new machine is made from, taken from the list.
pub fn find_profile(profiles: Vec<Profile>, id: &str) -> (r: Result<Profile, String>)
    ensures
        match profile_index(profiles@, id@, 0) {
            Some(k) => r == Ok::<Profile, String>(profiles@[k]),
            None => r matches Err(e) && e@ == "Profil nicht gefunden"@,
        },
{
    let mut ps = profiles;
    let mut i: usize = 0;
    while i < ps.len() && !str_eq(ps[i].id.as_str(), id)
        invariant
            i <= ps@.len(),
            profile_index(ps@, id@, 0) == profile_index(ps@, id@, i as int),
        decreases ps@.len() - i,
    {
        i = i + 1;
    }
    if i < ps.len() {
        Ok(ps.remove(i))
    } else {
        Err(String::from_str("Profil nicht gefunden"))
    }
}

/// Whether a new QEMU machine gets a disk (which needs `qemu-img`).
pub fn needs_disk(engine: Engine, disk_gb: u32) -> (r: bool)
    ensures
        r == (engine == Engine::Qemu && disk_gb > 0),
{
    engine == Engine::Qemu && disk_gb > 0
}

/// What the user asks for when creating a machine.
pub struct CreateMachineInput {
    pub profile_id: String,
    pub name: String,
    pub disk_gb: u32,
    pub media_path: Option<String>,
    pub rom_path: Option<String>,
}

/// The checks before a machine is created, in order: a name, a known profile, and
/// `qemu-img` where a QEMU machine gets a disk.
pub open spec fn new_machine_ok(input: CreateMachineInput, profiles: Seq<Profile>, qemu_img_found: bool, host: HostOs,
    r: Result<(String, Profile), String>) -> bool {
    if trim(input.name@).len() == 0 {
        r matches Err(e) && e@ == "Name fehlt"@
    } else {
        match profile_index(profiles, input.profile_id@, 0) {
            None => r matches Err(e) && e@ == "Profil nicht gefunden"@,
            Some(k) => if profiles[k].engine == Engine::Qemu && input.disk_gb > 0 && !qemu_img_found {
                r matches Err(e) && e@ == "qemu-img nicht gefunden — "@ + spec_install_hint(host, "qemu"@)
            } else {
                r matches Ok((n, p)) && n@ == trim(input.name@) && p == profiles[k]
            },
        }
    }
}

/// The checks before a machine is created; gives the trimmed name and the profile.
pub fn prepare_new_machine(input: &CreateMachineInput, profiles: Vec<Profile>, qemu_img_found: bool, host: HostOs)
    -> (r: Result<(String, Profile), String>)
    ensures
        new_machine_ok(*input, profiles@, qemu_img_found, host, r),
{
    let name = machine_name(input.name.as_str())?;
    let profile = find_profile(profiles, input.profile_id.as_str())?;
    if profile.engine == Engine::Qemu && input.disk_gb > 0 && !qemu_img_found {
        let mut e = String::from_str("qemu-img nicht gefunden — ");
        let hint = install_hint(host, "qemu");
        push_str(&mut e, hint.as_str());
        return Err(e);
    }
    Ok((name, profile))
}

/// The disk of a new machine: the default disk file and format with its id and size.
pub fn new_disk(id: &str, size_gb: u32) -> (d: DiskRef)
    ensures
        d.id@ == id@,
        d.path@ == "disk-0.qcow2"@,
        d.format@ == "qcow2"@,
        d.size_gb == size_gb,
        !d.encrypted,
        d.backing is None,
{
    DiskRef { id: String::from_str(id), size_gb, ..DiskRef::default() }
}

/// A path the user gave, unless it is blank.
pub fn given_path(p: &Option<String>) -> (r: Option<&str>)
    ensures
        match p {
            Some(s) => if trim(s@).len() > 0 { r matches Some(x) && x@ == s@ } else { r is None },
            None => r is None,
        },
{
    match p {
        Some(s) => {
            let n = s.as_str().unicode_len();
            assert(s@.subrange(0, n as int) =~= s@);
            let (a, b) = trim_range(s.as_str(), 0, n);
            if a == b { None } else { Some(s.as_str()) }
        },
        None => None,
    }
}

/// Adds a medium to a new machine.
pub fn add_medium(m: &mut Machine, id: &str, kind: MediaKind, path: &str, slot: u32)
    ensures
        final(m).media@.len() == old(m).media@.len() + 1,
        final(m).media@.subrange(0, old(m).media@.len() as int) == old(m).media@,
        final(m).media@.last().id@ == id@,
        final(m).media@.last().kind == kind,
        final(m).media@.last().path@ == path@,
        final(m).media@.last().slot == slot,
        *final(m) == (Machine { media: final(m).media, ..*old(m) }),
{
    let ghost before = m.media@;
    m.media.push(MediaRef { id: String::from_str(id), kind, path: String::from_str(path), slot });
    assert(m.media@.subrange(0, before.len() as int) =~= before);
}

/// The error for a disk that `qemu-img` could not create, with its trimmed message.
pub fn disk_error(stderr: &str) -> (r: String)
    ensures
        r@ == "Platte anlegen fehlgeschlagen: "@ + trim(stderr@),
{
    let n = stderr.unicode_len();
    assert(stderr@.subrange(0, n as int) =~= stderr@);
    let (a, b) = trim_range(stderr, 0, n);
    let mut e = String::from_str("Platte anlegen fehlgeschlagen: ");
    push_str(&mut e, stderr.substring_char(a, b));
    e
}

} // verus!
