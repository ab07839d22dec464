//! POSIX-style path text: joining, parent folder and last component, as the
//! library uses them for machine folders, engine prefixes and candidates.
use vstd::prelude::*;
use crate::text::push_str;

verus! {

/// A path taken relative to `dir` unless it is absolute (starts with `/`).
pub open spec fn join_path(dir: Seq<char>, p: Seq<char>) -> Seq<char> {
    if p.len() > 0 && p[0] == '/' {
        p
    } else if dir.len() == 0 {
        p
    } else if dir.last() == '/' {
        dir + p
    } else {
        dir + seq!['/'] + p
    }
}

/// Joins `p` onto `dir` (an absolute `p` replaces `dir`).
pub fn resolve(dir: &str, p: &str) -> (r: String)
    ensures
        r@ == join_path(dir@, p@),
{
    let n = p.unicode_len();
    if n > 0 && p.get_char(0) == '/' {
        return String::from_str(p);
    }
    let d = dir.unicode_len();
    if d == 0 {
        return String::from_str(p);
    }
    let mut out = String::from_str(dir);
    if dir.get_char(d - 1) != '/' {
        out.push('/');
    }
    push_str(&mut out, p);
    out
}

/// `s` ends in a `.` that is a whole component: `.` alone or after a `/`.
pub open spec fn ends_in_dot_piece(s: Seq<char>) -> bool {
    s.len() > 0 && s.last() == '.' && (s.len() == 1 || s[s.len() - 2] == '/')
}

/// `s` without trailing slashes and trailing `.` components, cut no shorter than `lo`
/// characters (what the path starts from).
pub open spec fn trim_back(s: Seq<char>, lo: int) -> Seq<char>
    decreases s.len(),
{
    if s.len() > 0 && s.len() > lo && (s.last() == '/' || ends_in_dot_piece(s)) { trim_back(s.drop_last(), lo) } else { s }
}

/// How many characters a path starts from: its root `/`, or a leading `.` component.
pub open spec fn lead_len(s: Seq<char>) -> int {
    if s.len() > 0 && (s[0] == '/' || (s[0] == '.' && (s.len() == 1 || s[1] == '/'))) { 1 } else { 0 }
}

/// A path up to the end of its last component that names something: trailing slashes
/// and `.` components do not count.
pub open spec fn path_end(p: Seq<char>) -> Seq<char> {
    trim_back(p, 0)
}

/// Index of the last `/` in `s`, if any.
pub open spec fn last_slash(s: Seq<char>) -> Option<int>
    decreases s.len(),
{
    if s.len() == 0 {
        None
    } else if s.last() == '/' {
        Some(s.len() - 1)
    } else {
        last_slash(s.drop_last())
    }
}

/// The last component of a path that names something (after trailing slashes and `.`
/// components), if the path has one.
pub open spec fn last_piece(p: Seq<char>) -> Option<Seq<char>> {
    let t = path_end(p);
    if t.len() == 0 {
        None
    } else {
        match last_slash(t) {
            None => Some(t),
            Some(k) => Some(t.subrange(k + 1, t.len() as int)),
        }
    }
}

/// The parent folder of a path: none for the root and the empty path; the empty path
/// for a single component; else the path before its last component, without trailing
/// slashes and `.` components but keeping the root or a leading `.`.
pub open spec fn parent_of(p: Seq<char>) -> Option<Seq<char>> {
    let t = path_end(p);
    if t.len() == 0 {
        if p.len() > 0 && p[0] != '/' { Some(Seq::empty()) } else { None }
    } else {
        match last_slash(t) {
            None => Some(Seq::empty()),
            Some(k) => {
                let lo = lead_len(t);
                let h = if k < lo { lo } else { k };
                Some(trim_back(t.subrange(0, h), lo))
            },
        }
    }
}

/// The name of the last component of a path; none for the root, the empty path, `.`
/// and `..`.
pub open spec fn file_name_of(p: Seq<char>) -> Option<Seq<char>> {
    match last_piece(p) {
        Some(c) => if c == seq!['.', '.'] { None } else { Some(c) },
        None => None,
    }
}

/// Length of `trim_back(s[0..n], lo)`.
fn trimmed_len(s: &str, n: usize, lo: usize) -> (r: usize)
    requires
        lo <= n <= s@.len(),
    ensures
        lo <= r <= n,
        trim_back(s@.subrange(0, n as int), lo as int) == s@.subrange(0, r as int),
{
    let mut k = n;
    while k > lo && (s.get_char(k - 1) == '/' || (s.get_char(k - 1) == '.' && (k == 1 || s.get_char(k - 2) == '/')))
        invariant
            lo <= k <= n <= s@.len(),
            trim_back(s@.subrange(0, n as int), lo as int) == trim_back(s@.subrange(0, k as int), lo as int),
        decreases k,
    {
        let ghost cur = s@.subrange(0, k as int);
        assert(cur.drop_last() =~= s@.subrange(0, k - 1));
        assert(cur.last() == s@[k - 1]);
        assert(k >= 2 ==> cur[cur.len() - 2] == s@[k - 2]);
        k = k - 1;
    }
    let ghost cur = s@.subrange(0, k as int);
    assert(k > 0 ==> cur.last() == s@[k - 1]);
    assert(k >= 2 ==> cur[cur.len() - 2] == s@[k - 2]);
    k
}

/// Index of the last `/` within `s[0..n]`.
fn find_last_slash(s: &str, n: usize) -> (r: Option<usize>)
    requires
        n <= s@.len(),
    ensures
        match r {
            Some(k) => k < n && last_slash(s@.subrange(0, n as int)) == Some(k as int),
            None => last_slash(s@.subrange(0, n as int)) is None,
        },
{
    let mut k = n;
    while k > 0 && s.get_char(k - 1) != '/'
        invariant
            k <= n <= s@.len(),
            last_slash(s@.subrange(0, n as int)) == last_slash(s@.subrange(0, k as int)),
        decreases k,
    {
        assert(s@.subrange(0, k as int).drop_last() =~= s@.subrange(0, k - 1));
        k = k - 1;
    }
    if k == 0 {
        None
    } else {
        Some(k - 1)
    }
}

/// The parent folder of a path.
pub fn parent(p: &str) -> (r: Option<String>)
    ensures
        match r {
            Some(x) => parent_of(p@) == Some(x@),
            None => parent_of(p@) is None,
        },
{
    let n = p.unicode_len();
    assert(p@.subrange(0, n as int) =~= p@);
    let t = trimmed_len(p, n, 0);
    if t == 0 {
        if n > 0 && p.get_char(0) != '/' {
            return Some(String::new());
        }
        return None;
    }
    let ghost ts = p@.subrange(0, t as int);
    match find_last_slash(p, t) {
        None => Some(String::new()),
        Some(k) => {
            let lo: usize = if p.get_char(0) == '/' || (p.get_char(0) == '.' && (t == 1 || p.get_char(1) == '/')) { 1 } else { 0 };
            assert(ts[0] == p@[0]);
            assert(t >= 2 ==> ts[1] == p@[1]);
            assert(lo as int == lead_len(ts));
            let h = if k < lo { lo } else { k };
            assert(ts.subrange(0, h as int) =~= p@.subrange(0, h as int));
            let e = trimmed_len(p, h, lo);
            Some(String::from_str(p.substring_char(0, e)))
        },
    }
}

/// Where the name of the last component of `p` lies: `p[a..b]`, with `b` the length of
/// the path up to its end.
fn name_bounds(p: &str) -> (r: Option<(usize, usize)>)
    ensures
        match r {
            Some((a, b)) => a <= b <= p@.len() && b == path_end(p@).len()
                && path_end(p@) == p@.subrange(0, b as int)
                && file_name_of(p@) == Some(p@.subrange(a as int, b as int)),
            None => file_name_of(p@) is None,
        },
{
    let n = p.unicode_len();
    assert(p@.subrange(0, n as int) =~= p@);
    let t = trimmed_len(p, n, 0);
    if t == 0 {
        return None;
    }
    let a: usize = match find_last_slash(p, t) {
        None => 0,
        Some(k) => k + 1,
    };
    let ghost ts = p@.subrange(0, t as int);
    assert(ts.subrange(a as int, t as int) =~= p@.subrange(a as int, t as int));
    assert(a == 0 ==> ts =~= p@.subrange(0, t as int));
    if t - a == 2 && p.get_char(a) == '.' && p.get_char(a + 1) == '.' {
        assert(p@.subrange(a as int, t as int) =~= seq!['.', '.']);
        return None;
    }
    assert(p@.subrange(a as int, t as int) != seq!['.', '.']) by {
        if p@.subrange(a as int, t as int) == seq!['.', '.'] {
            assert(p@.subrange(a as int, t as int)[0] == p@[a as int]);
            assert(p@.subrange(a as int, t as int)[1] == p@[a + 1]);
        }
    }
    Some((a, t))
}

/// The name of the last component of a path.
pub fn file_name(p: &str) -> (r: Option<String>)
    ensures
        match r {
            Some(x) => file_name_of(p@) == Some(x@),
            None => file_name_of(p@) is None,
        },
{
    match name_bounds(p) {
        None => None,
        Some((a, b)) => Some(String::from_str(p.substring_char(a, b))),
    }
}

/// Index of the last `.` in `s`, if any.
pub open spec fn last_dot(s: Seq<char>) -> Option<int>
    decreases s.len(),
{
    if s.len() == 0 {
        None
    } else if s.last() == '.' {
        Some(s.len() - 1)
    } else {
        last_dot(s.drop_last())
    }
}

/// A file name split at its last dot into stem and extension; a name without a dot,
/// or whose only dot leads it (`.profile`), is all stem.
pub open spec fn split_name(n: Seq<char>) -> (Seq<char>, Option<Seq<char>>) {
    match last_dot(n) {
        Some(k) => if k > 0 {
            (n.subrange(0, k), Some(n.subrange(k + 1, n.len() as int)))
        } else {
            (n, None)
        },
        None => (n, None),
    }
}

/// The extension of the last component of a path.
pub open spec fn extension_of(p: Seq<char>) -> Option<Seq<char>> {
    match file_name_of(p) {
        Some(n) => split_name(n).1,
        None => None,
    }
}

/// The last component of a path without its extension.
pub open spec fn file_stem_of(p: Seq<char>) -> Option<Seq<char>> {
    match file_name_of(p) {
        Some(n) => Some(split_name(n).0),
        None => None,
    }
}

/// The path with the extension of its last component replaced by `e` (dropped for an
/// empty `e`); a path without a last component stays as it is.
pub open spec fn with_extension_of(p: Seq<char>, e: Seq<char>) -> Seq<char> {
    match file_name_of(p) {
        Some(n) => {
            let t = path_end(p);
            t.subrange(0, t.len() - n.len()) + split_name(n).0 + (if e.len() > 0 { seq!['.'] + e } else { Seq::empty() })
        },
        None => p,
    }
}

/// Index (into `p`) of the last `.` within `p[a..b]`.
fn find_last_dot(p: &str, a: usize, b: usize) -> (r: Option<usize>)
    requires
        a <= b <= p@.len(),
    ensures
        match r {
            Some(k) => a <= k < b && last_dot(p@.subrange(a as int, b as int)) == Some(k - a),
            None => last_dot(p@.subrange(a as int, b as int)) is None,
        },
{
    let mut k = b;
    while k > a && p.get_char(k - 1) != '.'
        invariant
            a <= k <= b <= p@.len(),
            last_dot(p@.subrange(a as int, b as int)) == last_dot(p@.subrange(a as int, k as int)),
        decreases k,
    {
        assert(p@.subrange(a as int, k as int).drop_last() =~= p@.subrange(a as int, k - 1));
        k = k - 1;
    }
    if k == a {
        assert(p@.subrange(a as int, k as int).len() == 0);
        None
    } else {
        Some(k - 1)
    }
}

/// Where the stem of the name `p[a..b]` ends, and where its extension starts.
fn split_bounds(p: &str, a: usize, b: usize) -> (r: (usize, Option<usize>))
    requires
        a <= b <= p@.len(),
    ensures
        a <= r.0 <= b,
        split_name(p@.subrange(a as int, b as int)).0 == p@.subrange(a as int, r.0 as int),
        match r.1 {
            Some(x) => r.0 < x <= b && split_name(p@.subrange(a as int, b as int)).1 == Some(p@.subrange(x as int, b as int)),
            None => r.0 == b && split_name(p@.subrange(a as int, b as int)).1 is None,
        },
{
    let ghost n = p@.subrange(a as int, b as int);
    match find_last_dot(p, a, b) {
        Some(k) => if k > a {
            assert(n.subrange(0, k - a) =~= p@.subrange(a as int, k as int));
            assert(n.subrange(k - a + 1, n.len() as int) =~= p@.subrange(k + 1, b as int));
            (k, Some(k + 1))
        } else {
            (b, None)
        },
        None => (b, None),
    }
}

/// The extension of the last component of a path.
pub fn extension(p: &str) -> (r: Option<String>)
    ensures
        match r {
            Some(x) => extension_of(p@) == Some(x@),
            None => extension_of(p@) is None,
        },
{
    match name_bounds(p) {
        None => None,
        Some((a, b)) => match split_bounds(p, a, b) {
            (_, Some(x)) => Some(String::from_str(p.substring_char(x, b))),
            (_, None) => None,
        },
    }
}

/// The last component of a path without its extension.
pub fn file_stem(p: &str) -> (r: Option<String>)
    ensures
        match r {
            Some(x) => file_stem_of(p@) == Some(x@),
            None => file_stem_of(p@) is None,
        },
{
    match name_bounds(p) {
        None => None,
        Some((a, b)) => {
            let (e, _) = split_bounds(p, a, b);
            Some(String::from_str(p.substring_char(a, e)))
        },
    }
}

/// The path with the extension of its last component replaced by `e`.
pub fn with_extension(p: &str, e: &str) -> (r: String)
    ensures
        r@ == with_extension_of(p@, e@),
{
    match name_bounds(p) {
        None => String::from_str(p),
        Some((a, b)) => {
            let (s, _) = split_bounds(p, a, b);
            let mut out = String::from_str(p.substring_char(0, s));
            let ghost t = path_end(p@);
            assert(out@ =~= t.subrange(0, t.len() - (b - a)) + split_name(p@.subrange(a as int, b as int)).0);
            if e.unicode_len() > 0 {
                out.push('.');
                push_str(&mut out, e);
                assert(out@ =~= t.subrange(0, t.len() - (b - a)) + split_name(p@.subrange(a as int, b as int)).0 + (seq!['.'] + e@));
            } else {
                assert(out@ =~= t.subrange(0, t.len() - (b - a)) + split_name(p@.subrange(a as int, b as int)).0 + Seq::<char>::empty());
            }
            out
        },
    }
}

} // verus!
