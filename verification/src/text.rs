//! Small text helpers shared by the command-line builders and parsers:
//! decimal rendering, prefix/suffix tests and character scans, each with its
//! statement over `Seq<char>`.
use vstd::prelude::*;

verus! {

/// `String::push` appends one character to the string.
pub assume_specification[ String::push ](s: &mut String, ch: char)
    ensures
        final(s)@ == old(s)@.push(ch),
;

/// String slices compare equal exactly when their characters do.
pub assume_specification[ <str as PartialEq>::eq ](a: &str, b: &str) -> (r: bool)
    ensures
        r == (a@ == b@),
;

/// Whether two string slices hold the same characters.
pub fn str_eq(a: &str, b: &str) -> (r: bool)
    ensures
        r == (a@ == b@),
{
    <str as PartialEq>::eq(a, b)
}

/// The digit character of a number below ten.
pub open spec fn digit_char(d: nat) -> char {
    if d == 0 { '0' }
    else if d == 1 { '1' }
    else if d == 2 { '2' }
    else if d == 3 { '3' }
    else if d == 4 { '4' }
    else if d == 5 { '5' }
    else if d == 6 { '6' }
    else if d == 7 { '7' }
    else if d == 8 { '8' }
    else { '9' }
}

/// Decimal notation of a natural number, without leading zeros.
pub open spec fn dec(n: nat) -> Seq<char>
    decreases n,
{
    if n < 10 {
        seq![digit_char(n)]
    } else {
        dec(n / 10).push(digit_char(n % 10))
    }
}

fn digit_of(d: u64) -> (c: char)
    requires
        d < 10,
    ensures
        c == digit_char(d as nat),
{
    if d == 0 { '0' }
    else if d == 1 { '1' }
    else if d == 2 { '2' }
    else if d == 3 { '3' }
    else if d == 4 { '4' }
    else if d == 5 { '5' }
    else if d == 6 { '6' }
    else if d == 7 { '7' }
    else if d == 8 { '8' }
    else { '9' }
}

/// Appends the decimal notation of `n`.
pub fn push_dec(s: &mut String, n: u64)
    ensures
        final(s)@ == old(s)@ + dec(n as nat),
    decreases n,
{
    if n >= 10 {
        push_dec(s, n / 10);
    }
    let c = digit_of(n % 10);
    s.push(c);
    assert(final(s)@ =~= old(s)@ + dec(n as nat));
}

/// Decimal notation of `n` as a new string.
pub fn dec_string(n: u64) -> (r: String)
    ensures
        r@ == dec(n as nat),
{
    let mut s = String::new();
    push_dec(&mut s, n);
    assert(s@ =~= dec(n as nat));
    s
}

/// Appends a string slice.
pub fn push_str(s: &mut String, t: &str)
    ensures
        final(s)@ == old(s)@ + t@,
{
    s.append(t);
}

/// `p` is a prefix of `s`.
pub open spec fn has_prefix(s: Seq<char>, p: Seq<char>) -> bool {
    p.len() <= s.len() && s.subrange(0, p.len() as int) == p
}

/// `p` is a suffix of `s`.
pub open spec fn has_suffix(s: Seq<char>, p: Seq<char>) -> bool {
    p.len() <= s.len() && s.subrange(s.len() - p.len(), s.len() as int) == p
}

/// Whether `s` starts with `p`.
pub fn starts_with(s: &str, p: &str) -> (r: bool)
    ensures
        r == has_prefix(s@, p@),
{
    let n = s.unicode_len();
    let m = p.unicode_len();
    if m > n {
        return false;
    }
    let mut i: usize = 0;
    while i < m
        invariant
            n == s@.len(),
            m == p@.len(),
            m <= n,
            i <= m,
            forall|j: int| 0 <= j < i ==> s@[j] == p@[j],
        decreases m - i,
    {
        if s.get_char(i) != p.get_char(i) {
            assert(s@.subrange(0, m as int)[i as int] != p@[i as int]);
            return false;
        }
        i = i + 1;
    }
    assert(s@.subrange(0, m as int) =~= p@);
    true
}

/// Whether `s` ends with `p`.
pub fn ends_with(s: &str, p: &str) -> (r: bool)
    ensures
        r == has_suffix(s@, p@),
{
    let n = s.unicode_len();
    let m = p.unicode_len();
    if m > n {
        return false;
    }
    let k = n - m;
    let mut i: usize = 0;
    while i < m
        invariant
            n == s@.len(),
            m == p@.len(),
            m <= n,
            k == n - m,
            i <= m,
            forall|j: int| 0 <= j < i ==> s@[k + j] == p@[j],
        decreases m - i,
    {
        if s.get_char(k + i) != p.get_char(i) {
            assert(s@.subrange(k as int, n as int)[i as int] != p@[i as int]);
            return false;
        }
        i = i + 1;
    }
    assert(s@.subrange(k as int, n as int) =~= p@);
    true
}

/// Whether `s` holds the character `c`.
pub fn contains_char(s: &str, c: char) -> (r: bool)
    ensures
        r == s@.contains(c),
{
    let n = s.unicode_len();
    let mut i: usize = 0;
    while i < n
        invariant
            n == s@.len(),
            i <= n,
            forall|j: int| 0 <= j < i ==> s@[j] != c,
        decreases n - i,
    {
        if s.get_char(i) == c {
            return true;
        }
        i = i + 1;
    }
    false
}


/// Unicode `White_Space` characters (what `char::is_whitespace` accepts).
pub open spec fn spec_is_whitespace(c: char) -> bool {
    ('\u{9}' <= c && c <= '\u{d}') || c == ' ' || c == '\u{85}' || c == '\u{a0}' || c == '\u{1680}'
        || ('\u{2000}' <= c && c <= '\u{200a}') || c == '\u{2028}' || c == '\u{2029}' || c == '\u{202f}'
        || c == '\u{205f}' || c == '\u{3000}'
}

pub fn is_unicode_whitespace(c: char) -> (r: bool)
    ensures
        r == spec_is_whitespace(c),
{
    ('\u{9}' <= c && c <= '\u{d}') || c == ' ' || c == '\u{85}' || c == '\u{a0}' || c == '\u{1680}'
        || ('\u{2000}' <= c && c <= '\u{200a}') || c == '\u{2028}' || c == '\u{2029}' || c == '\u{202f}'
        || c == '\u{205f}' || c == '\u{3000}'
}

pub open spec fn spec_is_digit(c: char) -> bool {
    '0' <= c && c <= '9'
}

pub fn is_ascii_digit_char(c: char) -> (r: bool)
    ensures
        r == spec_is_digit(c),
{
    '0' <= c && c <= '9'
}

/// Value of a digit character.
pub open spec fn digit_value(c: char) -> nat {
    (c as int - '0' as int) as nat
}

/// All characters are ASCII digits.
pub open spec fn all_digits(s: Seq<char>) -> bool {
    forall|i: int| 0 <= i < s.len() ==> spec_is_digit(#[trigger] s[i])
}

/// Value of a run of decimal digits.
pub open spec fn digits_value(s: Seq<char>) -> nat
    decreases s.len(),
{
    if s.len() == 0 {
        0
    } else {
        digits_value(s.drop_last()) * 10 + digit_value(s.last())
    }
}

/// What `str::parse::<u32>` yields: an optional `+`, then at least one digit, no overflow.
pub open spec fn spec_parse_u32(s: Seq<char>) -> Option<u32> {
    let d = if s.len() > 0 && s[0] == '+' { s.drop_first() } else { s };
    if d.len() > 0 && all_digits(d) && digits_value(d) <= u32::MAX {
        Some(digits_value(d) as u32)
    } else {
        None
    }
}

proof fn lemma_digits_value_grows(s: Seq<char>, k: int)
    requires
        0 <= k <= s.len(),
        all_digits(s),
    ensures
        digits_value(s.subrange(0, k)) <= digits_value(s),
    decreases s.len() - k,
{
    if k < s.len() {
        lemma_digits_value_grows(s, k + 1);
        let t = s.subrange(0, k + 1);
        assert(t.drop_last() =~= s.subrange(0, k));
    } else {
        assert(s.subrange(0, k) =~= s);
    }
}

/// Parses a decimal `u32` the way `str::parse` does.
pub fn parse_u32(s: &str) -> (r: Option<u32>)
    ensures
        r == spec_parse_u32(s@),
{
    let n = s.unicode_len();
    let mut i: usize = 0;
    if n > 0 && s.get_char(0) == '+' {
        i = 1;
    }
    let start = i;
    let ghost d = s@.subrange(start as int, n as int);
    assert(d =~= (if s@.len() > 0 && s@[0] == '+' { s@.drop_first() } else { s@ }));
    if start == n {
        return None;
    }
    let mut v: u64 = 0;
    while i < n
        invariant
            n == s@.len(),
            start <= i <= n,
            d == s@.subrange(start as int, n as int),
            d == (if s@.len() > 0 && s@[0] == '+' { s@.drop_first() } else { s@ }),
            all_digits(s@.subrange(start as int, i as int)),
            v as nat == digits_value(s@.subrange(start as int, i as int)),
            v <= u32::MAX,
        decreases n - i,
    {
        let c = s.get_char(i);
        if !is_ascii_digit_char(c) {
            assert(!all_digits(d)) by {
                assert(d[i - start] == c);
            }
            return None;
        }
        let ghost prev = s@.subrange(start as int, i as int);
        assert(s@.subrange(start as int, i + 1).drop_last() =~= prev);
        v = v * 10 + (c as u64 - '0' as u64);
        i = i + 1;
        assert(all_digits(s@.subrange(start as int, i as int))) by {
            assert forall|j: int| 0 <= j < i - start implies spec_is_digit(#[trigger] s@.subrange(start as int, i as int)[j]) by {
                if j < i - 1 - start {
                    assert(s@.subrange(start as int, i as int)[j] == prev[j]);
                }
            }
        }
        if v > 0xffff_ffff {
            proof {
                let cur = s@.subrange(start as int, i as int);
                if all_digits(d) {
                    assert(d.subrange(0, i - start) =~= cur);
                    lemma_digits_value_grows(d, i - start);
                }
            }
            return None;
        }
    }
    assert(s@.subrange(start as int, n as int) =~= d);
    Some(v as u32)
}


/// What `str::to_lowercase` makes of a text (Unicode lower-case mapping).
pub uninterp spec fn lowercase(s: Seq<char>) -> Seq<char>;

/// An ASCII character, small: capitals become their small letter, the rest stays.
pub open spec fn ascii_to_lower(c: char) -> char {
    if 'A' <= c && c <= 'Z' { ((c as u32) + 32) as char } else { c }
}

/// An ASCII character, capital: small letters become their capital, the rest stays.
pub open spec fn ascii_to_upper(c: char) -> char {
    if 'a' <= c && c <= 'z' { ((c as u32) - 32) as char } else { c }
}

/// Every character of `s` is ASCII.
pub open spec fn all_ascii(s: Seq<char>) -> bool {
    forall|i: int| 0 <= i < s.len() ==> (#[trigger] s[i] as u32) < 128
}

/// A text in small letters: ASCII text character by character (as std maps ASCII),
/// any other text as `str::to_lowercase` gives it.
pub open spec fn lower_text(s: Seq<char>) -> Seq<char> {
    if all_ascii(s) { s.map_values(|c: char| ascii_to_lower(c)) } else { lowercase(s) }
}

/// A text in capitals: ASCII text character by character, any other text as
/// `str::to_uppercase` gives it.
pub open spec fn upper_text(s: Seq<char>) -> Seq<char> {
    if all_ascii(s) { s.map_values(|c: char| ascii_to_upper(c)) } else { uppercase(s) }
}

/// Calls `str::to_lowercase`; the result is named by `lowercase`. An ASCII text is
/// mapped character by character: capitals to small letters, everything else unchanged.
#[verifier::external_body]
pub fn to_lower(s: &str) -> (r: String)
    ensures
        r@ == lowercase(s@),
        all_ascii(s@) ==> r@ == s@.map_values(|c: char| ascii_to_lower(c)),
        r@ == lower_text(s@),
{
    s.to_lowercase()
}

/// What `str::to_uppercase` makes of a text (Unicode upper-case mapping).
pub uninterp spec fn uppercase(s: Seq<char>) -> Seq<char>;

/// Calls `str::to_uppercase`; the result is named by `uppercase`. An ASCII text is
/// mapped character by character: small letters to capitals, everything else unchanged.
#[verifier::external_body]
pub fn to_upper(s: &str) -> (r: String)
    ensures
        r@ == uppercase(s@),
        all_ascii(s@) ==> r@ == s@.map_values(|c: char| ascii_to_upper(c)),
        r@ == upper_text(s@),
{
    s.to_uppercase()
}

/// `s` without leading whitespace.
pub open spec fn trim_start(s: Seq<char>) -> Seq<char>
    decreases s.len(),
{
    if s.len() > 0 && spec_is_whitespace(s[0]) { trim_start(s.drop_first()) } else { s }
}

/// `s` without trailing whitespace.
pub open spec fn trim_end(s: Seq<char>) -> Seq<char>
    decreases s.len(),
{
    if s.len() > 0 && spec_is_whitespace(s.last()) { trim_end(s.drop_last()) } else { s }
}

/// `s` without leading and trailing whitespace (what `str::trim` gives).
pub open spec fn trim(s: Seq<char>) -> Seq<char> {
    trim_end(trim_start(s))
}

/// Where `s[a..b]` starts once leading whitespace is skipped.
pub fn skip_ws(s: &str, a: usize, b: usize) -> (r: usize)
    requires
        a <= b <= s@.len(),
    ensures
        a <= r <= b,
        trim_start(s@.subrange(a as int, b as int)) == s@.subrange(r as int, b as int),
{
    let mut i = a;
    while i < b && is_unicode_whitespace(s.get_char(i))
        invariant
            a <= i <= b <= s@.len(),
            trim_start(s@.subrange(a as int, b as int)) == trim_start(s@.subrange(i as int, b as int)),
        decreases b - i,
    {
        assert(s@.subrange(i as int, b as int).drop_first() =~= s@.subrange(i + 1, b as int));
        i = i + 1;
    }
    i
}

/// Where `s[a..b]` ends once trailing whitespace is dropped.
pub fn drop_ws(s: &str, a: usize, b: usize) -> (r: usize)
    requires
        a <= b <= s@.len(),
    ensures
        a <= r <= b,
        trim_end(s@.subrange(a as int, b as int)) == s@.subrange(a as int, r as int),
{
    let mut j = b;
    while j > a && is_unicode_whitespace(s.get_char(j - 1))
        invariant
            a <= j <= b <= s@.len(),
            trim_end(s@.subrange(a as int, b as int)) == trim_end(s@.subrange(a as int, j as int)),
        decreases j,
    {
        assert(s@.subrange(a as int, j as int).drop_last() =~= s@.subrange(a as int, j - 1));
        j = j - 1;
    }
    j
}

/// The bounds of `trim(s[a..b])` within `s`.
pub fn trim_range(s: &str, a: usize, b: usize) -> (r: (usize, usize))
    requires
        a <= b <= s@.len(),
    ensures
        a <= r.0 <= r.1 <= b,
        trim(s@.subrange(a as int, b as int)) == s@.subrange(r.0 as int, r.1 as int),
{
    let i = skip_ws(s, a, b);
    let j = drop_ws(s, i, b);
    (i, j)
}

/// Index of the first `c` in `s[a..b]`, if any.
pub open spec fn first_index_of(s: Seq<char>, c: char) -> Option<int>
    decreases s.len(),
{
    if s.len() == 0 {
        None
    } else if s[0] == c {
        Some(0)
    } else {
        match first_index_of(s.drop_first(), c) {
            Some(k) => Some(k + 1),
            None => None,
        }
    }
}

/// A found index lies in the text and holds the character.
pub proof fn lemma_first_index_of_bounds(s: Seq<char>, c: char)
    ensures
        match first_index_of(s, c) {
            Some(k) => 0 <= k < s.len() && s[k] == c,
            None => true,
        },
    decreases s.len(),
{
    if s.len() > 0 && s[0] != c {
        lemma_first_index_of_bounds(s.drop_first(), c);
    }
}

/// Index of the last `c` in `s`, if any.
pub open spec fn last_index_of(s: Seq<char>, c: char) -> Option<int>
    decreases s.len(),
{
    if s.len() == 0 {
        None
    } else if s.last() == c {
        Some(s.len() - 1)
    } else {
        last_index_of(s.drop_last(), c)
    }
}

/// Position (in `s`) of the first `c` within `s[a..b]`.
pub fn find_char(s: &str, a: usize, b: usize, c: char) -> (r: Option<usize>)
    requires
        a <= b <= s@.len(),
    ensures
        match r {
            Some(k) => a <= k < b && first_index_of(s@.subrange(a as int, b as int), c) == Some(k - a),
            None => first_index_of(s@.subrange(a as int, b as int), c) is None,
        },
{
    let mut i = a;
    while i < b
        invariant
            a <= i <= b <= s@.len(),
            forall|j: int| a <= j < i ==> s@[j] != c,
        decreases b - i,
    {
        if s.get_char(i) == c {
            proof {
                lemma_first_index_of(s@, a as int, b as int, i as int, c);
            }
            return Some(i);
        }
        i = i + 1;
    }
    proof {
        lemma_first_index_none(s@.subrange(a as int, b as int), c);
    }
    None
}

proof fn lemma_first_index_none(t: Seq<char>, c: char)
    requires
        forall|j: int| 0 <= j < t.len() ==> t[j] != c,
    ensures
        first_index_of(t, c) is None,
    decreases t.len(),
{
    if t.len() > 0 {
        assert forall|j: int| 0 <= j < t.drop_first().len() implies t.drop_first()[j] != c by {
            assert(t.drop_first()[j] == t[j + 1]);
        }
        lemma_first_index_none(t.drop_first(), c);
    }
}

proof fn lemma_first_index_of(s: Seq<char>, a: int, b: int, i: int, c: char)
    requires
        0 <= a <= i < b <= s.len(),
        s[i] == c,
        forall|j: int| a <= j < i ==> s[j] != c,
    ensures
        first_index_of(s.subrange(a, b), c) == Some(i - a),
    decreases i - a,
{
    if a < i {
        lemma_first_index_of(s, a + 1, b, i, c);
        assert(s.subrange(a, b).drop_first() =~= s.subrange(a + 1, b));
    }
}

/// Position (in `s`) of the last `c` within `s[a..b]`.
pub fn find_last_char(s: &str, a: usize, b: usize, c: char) -> (r: Option<usize>)
    requires
        a <= b <= s@.len(),
    ensures
        match r {
            Some(k) => a <= k < b && last_index_of(s@.subrange(a as int, b as int), c) == Some(k - a),
            None => last_index_of(s@.subrange(a as int, b as int), c) is None,
        },
{
    let mut j = b;
    while j > a && s.get_char(j - 1) != c
        invariant
            a <= j <= b <= s@.len(),
            last_index_of(s@.subrange(a as int, b as int), c) == last_index_of(s@.subrange(a as int, j as int), c),
        decreases j,
    {
        assert(s@.subrange(a as int, j as int).drop_last() =~= s@.subrange(a as int, j - 1));
        j = j - 1;
    }
    if j == a {
        None
    } else {
        Some(j - 1)
    }
}

/// The first whitespace-separated word of `s` and what follows it (none for a text of
/// whitespace only).
pub open spec fn first_word(s: Seq<char>) -> Option<(Seq<char>, Seq<char>)> {
    let t = trim_start(s);
    if t.len() == 0 {
        None
    } else {
        let k = word_end(t);
        Some((t.subrange(0, k), t.subrange(k, t.len() as int)))
    }
}

/// Length of the leading run of non-whitespace in `t`.
pub open spec fn word_end(t: Seq<char>) -> int
    decreases t.len(),
{
    if t.len() == 0 || spec_is_whitespace(t[0]) { 0 } else { 1 + word_end(t.drop_first()) }
}

/// The `n`-th word (from zero) of `s`, as `split_whitespace().nth(n)` gives it.
pub open spec fn nth_word(s: Seq<char>, n: nat) -> Option<Seq<char>>
    decreases n,
{
    match first_word(s) {
        None => None,
        Some((w, rest)) => if n == 0 { Some(w) } else { nth_word(rest, (n - 1) as nat) },
    }
}

proof fn lemma_word_end(t: Seq<char>)
    ensures
        0 <= word_end(t) <= t.len(),
        forall|j: int| 0 <= j < word_end(t) ==> !spec_is_whitespace(#[trigger] t[j]),
        word_end(t) < t.len() ==> spec_is_whitespace(t[word_end(t)]),
    decreases t.len(),
{
    if t.len() > 0 && !spec_is_whitespace(t[0]) {
        lemma_word_end(t.drop_first());
        assert forall|j: int| 0 <= j < word_end(t) implies !spec_is_whitespace(#[trigger] t[j]) by {
            if j > 0 {
                assert(t[j] == t.drop_first()[j - 1]);
            }
        }
    }
}

proof fn lemma_trim_start_head(s: Seq<char>)
    ensures
        trim_start(s).len() > 0 ==> !spec_is_whitespace(trim_start(s)[0]),
    decreases s.len(),
{
    if s.len() > 0 && spec_is_whitespace(s[0]) {
        lemma_trim_start_head(s.drop_first());
    }
}

/// The bounds (in `s`) of the first word of `s[a..b]`, or none.
pub fn first_word_range(s: &str, a: usize, b: usize) -> (r: Option<(usize, usize)>)
    requires
        a <= b <= s@.len(),
    ensures
        match r {
            Some((x, y)) => a <= x < y <= b && first_word(s@.subrange(a as int, b as int))
                == Some((s@.subrange(x as int, y as int), s@.subrange(y as int, b as int))),
            None => first_word(s@.subrange(a as int, b as int)) is None,
        },
{
    let x = skip_ws(s, a, b);
    if x == b {
        return None;
    }
    let mut y = x;
    while y < b && !is_unicode_whitespace(s.get_char(y))
        invariant
            x <= y <= b <= s@.len(),
            word_end(s@.subrange(x as int, b as int)) == (y - x) + word_end(s@.subrange(y as int, b as int)),
        decreases b - y,
    {
        assert(s@.subrange(y as int, b as int).drop_first() =~= s@.subrange(y + 1, b as int));
        y = y + 1;
    }
    proof {
        let t = s@.subrange(x as int, b as int);
        lemma_trim_start_head(s@.subrange(a as int, b as int));
        if y < b {
            assert(s@.subrange(y as int, b as int)[0] == s@[y as int]);
        }
        assert(word_end(s@.subrange(y as int, b as int)) == 0);
        if x == y {
            assert(t[0] == s@[x as int]);
        }
        assert(t.subrange(0, y - x) =~= s@.subrange(x as int, y as int));
        assert(t.subrange(y - x, t.len() as int) =~= s@.subrange(y as int, b as int));
    }
    Some((x, y))
}

/// The bounds (in `s`) of the `n`-th word of `s[a..b]`, or none.
pub fn nth_word_range(s: &str, a: usize, b: usize, n: usize) -> (r: Option<(usize, usize)>)
    requires
        a <= b <= s@.len(),
    ensures
        match r {
            Some((x, y)) => a <= x <= y <= b && nth_word(s@.subrange(a as int, b as int), n as nat) == Some(s@.subrange(x as int, y as int)),
            None => nth_word(s@.subrange(a as int, b as int), n as nat) is None,
        },
    decreases n,
{
    match first_word_range(s, a, b) {
        None => None,
        Some((x, y)) => if n == 0 {
            Some((x, y))
        } else {
            nth_word_range(s, y, b, n - 1)
        },
    }
}

/// What `str::parse::<u64>` yields: an optional `+`, then at least one digit, no overflow.
pub open spec fn spec_parse_u64(s: Seq<char>) -> Option<u64> {
    let d = if s.len() > 0 && s[0] == '+' { s.drop_first() } else { s };
    if d.len() > 0 && all_digits(d) && digits_value(d) <= u64::MAX {
        Some(digits_value(d) as u64)
    } else {
        None
    }
}

/// Parses `s[a..b]` as a decimal `u64` the way `str::parse` does.
pub fn parse_u64_range(s: &str, a: usize, b: usize) -> (r: Option<u64>)
    requires
        a <= b <= s@.len(),
    ensures
        r == spec_parse_u64(s@.subrange(a as int, b as int)),
{
    let ghost whole = s@.subrange(a as int, b as int);
    let mut i = a;
    if a < b && s.get_char(a) == '+' {
        i = a + 1;
    }
    let start = i;
    let ghost d = s@.subrange(start as int, b as int);
    assert(d =~= (if whole.len() > 0 && whole[0] == '+' { whole.drop_first() } else { whole }));
    if start == b {
        return None;
    }
    let mut v: u64 = 0;
    while i < b
        invariant
            a <= start <= i <= b <= s@.len(),
            d == s@.subrange(start as int, b as int),
            d == (if whole.len() > 0 && whole[0] == '+' { whole.drop_first() } else { whole }),
            whole == s@.subrange(a as int, b as int),
            start < b,
            all_digits(s@.subrange(start as int, i as int)),
            v as nat == digits_value(s@.subrange(start as int, i as int)),
        decreases b - i,
    {
        let c = s.get_char(i);
        if !is_ascii_digit_char(c) {
            assert(!all_digits(d)) by {
                assert(d[i - start] == c);
            }
            return None;
        }
        let ghost prev = s@.subrange(start as int, i as int);
        assert(s@.subrange(start as int, i + 1).drop_last() =~= prev);
        let dv = c as u64 - '0' as u64;
        if v > (0xffff_ffff_ffff_ffffu64 - dv) / 10 {
            proof {
                let cur = s@.subrange(start as int, i + 1);
                assert(digits_value(cur) == v * 10 + dv);
                assert(v * 10 + dv > u64::MAX) by (nonlinear_arith)
                    requires
                        v > (0xffff_ffff_ffff_ffffu64 - dv) / 10,
                        dv <= 9,
                ;
                if all_digits(d) {
                    assert(d.subrange(0, i + 1 - start) =~= cur);
                    lemma_digits_value_grows(d, i + 1 - start);
                }
            }
            return None;
        }
        v = v * 10 + dv;
        i = i + 1;
        assert(all_digits(s@.subrange(start as int, i as int))) by {
            assert forall|j: int| 0 <= j < i - start implies spec_is_digit(#[trigger] s@.subrange(start as int, i as int)[j]) by {
                if j < i - 1 - start {
                    assert(s@.subrange(start as int, i as int)[j] == prev[j]);
                }
            }
        }
    }
    Some(v)
}

/// `p` occurs in `s` as a run of characters.
pub open spec fn has_infix(s: Seq<char>, p: Seq<char>) -> bool {
    exists|i: int| 0 <= i && i + p.len() <= s.len() && #[trigger] s.subrange(i, i + p.len()) == p
}

/// Whether `p` occurs in `s` (`str::contains` with a text).
pub fn contains_str(s: &str, p: &str) -> (r: bool)
    ensures
        r == has_infix(s@, p@),
{
    let n = s.unicode_len();
    let m = p.unicode_len();
    if m > n {
        return false;
    }
    let mut i: usize = 0;
    while i <= n - m
        invariant
            n == s@.len(),
            m == p@.len(),
            m <= n,
            i <= n - m + 1,
            forall|j: int| 0 <= j < i ==> #[trigger] s@.subrange(j, j + m) != p@,
        decreases n - i,
    {
        let mut k: usize = 0;
        while k < m && s.get_char(i + k) == p.get_char(k)
            invariant
                i + m <= n,
                n == s@.len(),
                m == p@.len(),
                k <= m,
                forall|q: int| 0 <= q < k ==> s@[i + q] == p@[q],
            decreases m - k,
        {
            k = k + 1;
        }
        if k == m {
            assert(s@.subrange(i as int, i + m) =~= p@);
            return true;
        }
        assert(s@.subrange(i as int, i + m)[k as int] != p@[k as int]);
        i = i + 1;
    }
    assert forall|j: int| 0 <= j && j + p@.len() <= s@.len() implies #[trigger] s@.subrange(j, j + p@.len()) != p@ by {
        assert(j < i);
    }
    false
}

} // verus!
