//! Character-level text model shared by the library: whitespace, trimming,
//! ASCII case folding, substring search and replacement, and decimal digits.
use vstd::prelude::*;

verus! {

// ---------------------------------------------------------------------------
// Specifications
// ---------------------------------------------------------------------------

/// Unicode `White_Space`, the property that `char::is_whitespace` reports.
pub open spec fn is_ws(c: char) -> bool {
    ||| ('\u{9}' <= c && c <= '\u{d}')
    ||| c == ' '
    ||| c == '\u{85}'
    ||| c == '\u{a0}'
    ||| c == '\u{1680}'
    ||| ('\u{2000}' <= c && c <= '\u{200a}')
    ||| c == '\u{2028}'
    ||| c == '\u{2029}'
    ||| c == '\u{202f}'
    ||| c == '\u{205f}'
    ||| c == '\u{3000}'
}

/// `s` without its leading whitespace.
pub open spec fn trim_start(s: Seq<char>) -> Seq<char>
    decreases s.len(),
{
    if s.len() > 0 && is_ws(s[0]) {
        trim_start(s.drop_first())
    } else {
        s
    }
}

/// `s` without its trailing whitespace.
pub open spec fn trim_end(s: Seq<char>) -> Seq<char>
    decreases s.len(),
{
    if s.len() > 0 && is_ws(s.last()) {
        trim_end(s.drop_last())
    } else {
        s
    }
}

/// `s` without leading or trailing whitespace.
pub open spec fn trim(s: Seq<char>) -> Seq<char> {
    trim_end(trim_start(s))
}

pub open spec fn ascii_lower_char(c: char) -> char {
    if 'A' <= c && c <= 'Z' {
        ((c as u32) + 32) as char
    } else {
        c
    }
}

/// ASCII case folding: `A`..`Z` become `a`..`z`, every other character stays.
pub open spec fn ascii_lower(s: Seq<char>) -> Seq<char> {
    s.map_values(|c: char| ascii_lower_char(c))
}

pub open spec fn starts_with(s: Seq<char>, prefix: Seq<char>) -> bool {
    prefix.len() <= s.len() && s.take(prefix.len() as int) == prefix
}

pub open spec fn ends_with(s: Seq<char>, suffix: Seq<char>) -> bool {
    suffix.len() <= s.len() && s.skip(s.len() - suffix.len()) == suffix
}

/// `needle` occurs in `s` starting at index `i`.
pub open spec fn matches_at(s: Seq<char>, needle: Seq<char>, i: int) -> bool {
    0 <= i && i + needle.len() <= s.len() && s.subrange(i, i + needle.len()) == needle
}

pub open spec fn contains(s: Seq<char>, needle: Seq<char>) -> bool {
    exists|i: int| matches_at(s, needle, i)
}

/// The index of the first occurrence of `needle` in `s`.
pub open spec fn find(s: Seq<char>, needle: Seq<char>) -> Option<int>
    decreases s.len(),
{
    if s.len() < needle.len() {
        None
    } else if s.take(needle.len() as int) == needle {
        Some(0)
    } else if s.len() == 0 {
        None
    } else {
        match find(s.drop_first(), needle) {
            Some(j) => Some(j + 1),
            None => None,
        }
    }
}

/// Every non-overlapping occurrence of `from`, scanning left to right,
/// replaced by `to` (`str::replace` for a non-empty pattern).
pub open spec fn replace_all(s: Seq<char>, from: Seq<char>, to: Seq<char>) -> Seq<char>
    decreases s.len(),
{
    if from.len() == 0 || s.len() < from.len() {
        s
    } else if s.take(from.len() as int) == from {
        to + replace_all(s.skip(from.len() as int), from, to)
    } else {
        seq![s[0]] + replace_all(s.drop_first(), from, to)
    }
}

/// The maximal runs of non-whitespace characters of `s` (`str::split_whitespace`).
pub open spec fn words(s: Seq<char>) -> Seq<Seq<char>>
    decreases s.len(),
{
    if s.len() == 0 {
        seq![]
    } else {
        let w = words(s.drop_last());
        let c = s.last();
        if is_ws(c) {
            w
        } else if s.len() > 1 && !is_ws(s[s.len() - 2]) && w.len() > 0 {
            // c continues the last word
            w.update(w.len() - 1, w.last().push(c))
        } else {
            w.push(seq![c])
        }
    }
}

/// The parts joined with `sep` between consecutive parts.
pub open spec fn join(parts: Seq<Seq<char>>, sep: Seq<char>) -> Seq<char>
    decreases parts.len(),
{
    if parts.len() == 0 {
        seq![]
    } else if parts.len() == 1 {
        parts[0]
    } else {
        join(parts.drop_last(), sep) + sep + parts.last()
    }
}

/// The words of `s` separated by single spaces.
pub open spec fn collapse_ws(s: Seq<char>) -> Seq<char> {
    join(words(s), seq![' '])
}

pub open spec fn digit_char(d: nat) -> char
    recommends
        d < 10,
{
    (('0' as u32) + d) as char
}

/// The decimal representation of `n`, without leading zeros.
pub open spec fn decimal(n: nat) -> Seq<char>
    decreases n,
{
    if n < 10 {
        seq![digit_char(n)]
    } else {
        decimal(n / 10).push(digit_char(n % 10))
    }
}

/// The first `n` characters of `s`, or all of them when `s` is shorter.
pub open spec fn prefix_chars(s: Seq<char>, n: nat) -> Seq<char> {
    if s.len() <= n {
        s
    } else {
        s.take(n as int)
    }
}

// ---------------------------------------------------------------------------
// Names for outside functions
// ---------------------------------------------------------------------------

/// What `str::to_lowercase` returns for a string (Unicode lowercase mapping,
/// including the context-dependent final sigma rule).
pub uninterp spec fn unicode_lowercase(s: Seq<char>) -> Seq<char>;

/// What `char::to_lowercase` yields for one character.
pub uninterp spec fn char_lowercase(c: char) -> Seq<char>;

/// Whether `char::is_alphanumeric` holds (Unicode `Alphabetic` or `Numeric`).
pub uninterp spec fn is_alphanumeric_char(c: char) -> bool;

// ---------------------------------------------------------------------------
// Trusted wrappers of std
// ---------------------------------------------------------------------------

/// Calls `String::push`. Trusted: the pushed character is appended to the
/// string's characters, as std documents.
#[verifier::external_body]
pub(crate) fn push_char(s: &mut String, c: char)
    ensures
        final(s)@ == old(s)@.push(c),
{
    s.push(c);
}

/// Whether every character is ASCII.
pub open spec fn is_ascii_text(s: Seq<char>) -> bool {
    forall|i: int| 0 <= i < s.len() ==> ((#[trigger] s[i]) as u32) < 128
}

/// Calls `str::to_lowercase`. Trusted: the result is the Unicode lowercase
/// form of the argument, named `unicode_lowercase`; for ASCII text it is
/// the ASCII lowercase form (Unicode maps `A`..`Z` to `a`..`z` and leaves
/// every other ASCII character as it is); beyond ASCII its content is not
/// stated.
#[verifier::external_body]
pub(crate) fn to_lowercase(s: &str) -> (out: String)
    ensures
        out@ == unicode_lowercase(s@),
        is_ascii_text(s@) ==> out@ == ascii_lower(s@),
{
    s.to_lowercase()
}

/// Calls `char::to_lowercase` and collects the characters it yields.
/// Trusted: the result is named `char_lowercase`; it is never empty, as the
/// Unicode case mapping maps every character to at least one character,
/// and an ASCII character gives its ASCII lowercase form alone.
#[verifier::external_body]
pub(crate) fn char_to_lowercase(c: char) -> (out: Vec<char>)
    ensures
        out@ == char_lowercase(c),
        out@.len() >= 1,
        (c as u32) < 128 ==> out@ == seq![ascii_lower_char(c)],
{
    c.to_lowercase().collect()
}

/// Calls `char::is_alphanumeric`. Trusted: the result is named
/// `is_alphanumeric_char`; ASCII letters and digits are alphanumeric and
/// ASCII characters other than letters and digits are not.
#[verifier::external_body]
pub(crate) fn is_alphanumeric(c: char) -> (out: bool)
    ensures
        out == is_alphanumeric_char(c),
        ('a' <= c <= 'z' || 'A' <= c <= 'Z' || '0' <= c <= '9') ==> out,
        ((c as u32) < 128 && !('a' <= c <= 'z' || 'A' <= c <= 'Z' || '0' <= c <= '9')) ==> !out,
{
    c.is_alphanumeric()
}

// ---------------------------------------------------------------------------
// Executable operations
// ---------------------------------------------------------------------------

/// The characters of `s`, in order.
pub fn chars_of(s: &str) -> (out: Vec<char>)
    ensures
        out@ == s@,
{
    let mut out: Vec<char> = Vec::new();
    for c in it: s.chars()
        invariant
            out@ == it.seq().take(it.index() as int),
            it.seq() == s@,
    {
        out.push(c);
    }
    out
}

/// A string holding exactly the given characters.
pub fn string_of(cs: &[char]) -> (out: String)
    ensures
        out@ == cs@,
{
    let mut out = String::new();
    let mut i: usize = 0;
    while i < cs.len()
        invariant
            i <= cs.len(),
            out@ == cs@.take(i as int),
        decreases cs.len() - i,
    {
        push_char(&mut out, cs[i]);
        i = i + 1;
        assert(cs@.take(i as int) == cs@.take(i - 1).push(cs@[i - 1]));
    }
    assert(cs@.take(cs.len() as int) == cs@);
    out
}

/// A copy of `s`.
pub fn copy_string(s: &str) -> (out: String)
    ensures
        out@ == s@,
{
    let cs = chars_of(s);
    string_of(cs.as_slice())
}

/// Appends the characters of `cs` to `s`.
pub fn push_chars(s: &mut String, cs: &[char])
    ensures
        final(s)@ == old(s)@ + cs@,
{
    let mut i: usize = 0;
    while i < cs.len()
        invariant
            i <= cs.len(),
            s@ == old(s)@ + cs@.take(i as int),
        decreases cs.len() - i,
    {
        push_char(s, cs[i]);
        i = i + 1;
        assert(cs@.take(i as int) == cs@.take(i - 1).push(cs@[i - 1]));
    }
    assert(cs@.take(cs.len() as int) == cs@);
}

/// Whether two strings hold the same characters.
pub fn same_text(a: &str, b: &str) -> (out: bool)
    ensures
        out == (a@ == b@),
{
    let x = chars_of(a);
    let y = chars_of(b);
    slices_equal(x.as_slice(), y.as_slice())
}

pub fn slices_equal(x: &[char], y: &[char]) -> (out: bool)
    ensures
        out == (x@ == y@),
{
    if x.len() != y.len() {
        return false;
    }
    let mut i: usize = 0;
    while i < x.len()
        invariant
            i <= x.len(),
            x.len() == y.len(),
            forall|k: int| 0 <= k < i ==> x@[k] == y@[k],
        decreases x.len() - i,
    {
        if x[i] != y[i] {
            return false;
        }
        i = i + 1;
    }
    assert(x@ =~= y@);
    true
}

/// `char::is_whitespace`.
pub fn is_whitespace(c: char) -> (out: bool)
    ensures
        out == is_ws(c),
{
    ('\u{9}' <= c && c <= '\u{d}') || c == ' ' || c == '\u{85}' || c == '\u{a0}' || c
        == '\u{1680}' || ('\u{2000}' <= c && c <= '\u{200a}') || c == '\u{2028}' || c
        == '\u{2029}' || c == '\u{202f}' || c == '\u{205f}' || c == '\u{3000}'
}

proof fn lemma_trim_start_first(s: Seq<char>)
    ensures
        trim_start(s).len() == 0 || !is_ws(trim_start(s)[0]),
    decreases s.len(),
{
    if s.len() > 0 && is_ws(s[0]) {
        lemma_trim_start_first(s.drop_first());
    }
}

proof fn lemma_trim_end_last(s: Seq<char>)
    ensures
        trim_end(s).len() == 0 || !is_ws(trim_end(s).last()),
    decreases s.len(),
{
    if s.len() > 0 && is_ws(s.last()) {
        lemma_trim_end_last(s.drop_last());
    }
}

proof fn lemma_trim_end_prefix(s: Seq<char>)
    ensures
        trim_end(s).len() <= s.len(),
        trim_end(s) == s.take(trim_end(s).len() as int),
    decreases s.len(),
{
    if s.len() > 0 && is_ws(s.last()) {
        lemma_trim_end_prefix(s.drop_last());
        assert(s.drop_last().take(trim_end(s).len() as int) == s.take(trim_end(s).len() as int));
    } else {
        assert(s.take(s.len() as int) == s);
    }
}

/// Trimming text that is already trimmed changes nothing.
pub proof fn lemma_trim_idempotent(s: Seq<char>)
    ensures
        trim(trim(s)) == trim(s),
{
    let t = trim_start(s);
    let u = trim_end(t);
    lemma_trim_start_first(s);
    lemma_trim_end_prefix(t);
    lemma_trim_end_last(t);
    if u.len() > 0 {
        assert(u[0] == t[0]);
    }
    assert(trim_start(u) == u);
    assert(trim_end(u) == u);
}

/// The words of ASCII text are ASCII.
proof fn lemma_words_ascii(s: Seq<char>)
    requires
        is_ascii_text(s),
    ensures
        forall|i: int| 0 <= i < words(s).len() ==> is_ascii_text(#[trigger] words(s)[i]),
    decreases s.len(),
{
    if s.len() > 0 {
        let rest = s.drop_last();
        assert(is_ascii_text(rest)) by {
            assert forall|k: int| 0 <= k < rest.len() implies ((#[trigger] rest[k]) as u32) < 128 by {
                assert(rest[k] == s[k]);
            }
        }
        lemma_words_ascii(rest);
        let w = words(rest);
        let c = s.last();
        assert((c as u32) < 128) by {
            assert(c == s[s.len() - 1]);
        }
        if is_ws(c) {
        } else if s.len() > 1 && !is_ws(s[s.len() - 2]) && w.len() > 0 {
            let last = w.last().push(c);
            assert(is_ascii_text(w[w.len() - 1]));
            assert(is_ascii_text(last)) by {
                assert forall|k: int| 0 <= k < last.len() implies ((#[trigger] last[k]) as u32) < 128 by {
                    if k < last.len() - 1 {
                        assert(last[k] == w[w.len() - 1][k]);
                    }
                }
            }
            assert forall|i: int| 0 <= i < words(s).len() implies is_ascii_text(#[trigger] words(s)[i]) by {
                if i < w.len() - 1 {
                    assert(words(s)[i] == w[i]);
                }
            }
        } else {
            assert(is_ascii_text(seq![c]));
            assert forall|i: int| 0 <= i < words(s).len() implies is_ascii_text(#[trigger] words(s)[i]) by {
                if i < w.len() {
                    assert(words(s)[i] == w[i]);
                }
            }
        }
    }
}

/// Joining ASCII parts with an ASCII separator gives ASCII text.
proof fn lemma_join_ascii(parts: Seq<Seq<char>>, sep: Seq<char>)
    requires
        forall|i: int| 0 <= i < parts.len() ==> is_ascii_text(#[trigger] parts[i]),
        is_ascii_text(sep),
    ensures
        is_ascii_text(join(parts, sep)),
    decreases parts.len(),
{
    if parts.len() > 1 {
        let rest = parts.drop_last();
        assert forall|i: int| 0 <= i < rest.len() implies is_ascii_text(#[trigger] rest[i]) by {
            assert(rest[i] == parts[i]);
        }
        lemma_join_ascii(rest, sep);
        let a = join(rest, sep);
        let b = parts.last();
        assert(is_ascii_text(b)) by {
            assert(b == parts[parts.len() - 1]);
        }
        let j = a + sep + b;
        assert forall|k: int| 0 <= k < j.len() implies ((#[trigger] j[k]) as u32) < 128 by {
            if k < a.len() {
                assert(j[k] == a[k]);
            } else if k < a.len() + sep.len() {
                assert(j[k] == sep[k - a.len()]);
            } else {
                assert(j[k] == b[k - a.len() - sep.len()]);
            }
        }
    } else if parts.len() == 1 {
        assert(is_ascii_text(parts[0]));
    }
}

/// Collapsing the whitespace of ASCII text gives ASCII text.
pub proof fn lemma_collapse_ws_ascii(s: Seq<char>)
    requires
        is_ascii_text(s),
    ensures
        is_ascii_text(collapse_ws(s)),
{
    lemma_words_ascii(s);
    assert(is_ascii_text(seq![' ']));
    lemma_join_ascii(words(s), seq![' ']);
}

pub proof fn lemma_trim_start_skip(s: Seq<char>, k: int)
    requires
        0 <= k <= s.len(),
        forall|j: int| 0 <= j < k ==> is_ws(#[trigger] s[j]),
        k == s.len() || !is_ws(s[k]),
    ensures
        trim_start(s) == s.skip(k),
    decreases k,
{
    if k == 0 {
        assert(s.skip(0) == s);
    } else {
        let t = s.drop_first();
        assert forall|j: int| 0 <= j < k - 1 implies is_ws(#[trigger] t[j]) by {
            assert(t[j] == s[j + 1]);
        }
        lemma_trim_start_skip(t, k - 1);
        assert(t.skip(k - 1) == s.skip(k));
    }
}

pub proof fn lemma_trim_end_take(s: Seq<char>, k: int)
    requires
        0 <= k <= s.len(),
        forall|j: int| k <= j < s.len() ==> is_ws(#[trigger] s[j]),
        k == 0 || !is_ws(s[k - 1]),
    ensures
        trim_end(s) == s.take(k),
    decreases s.len() - k,
{
    if k == s.len() {
        assert(s.take(k) == s);
    } else {
        let t = s.drop_last();
        assert forall|j: int| k <= j < t.len() implies is_ws(#[trigger] t[j]) by {
            assert(t[j] == s[j]);
        }
        lemma_trim_end_take(t, k);
        assert(t.take(k) == s.take(k));
    }
}

/// The bounds `(start, end)` of `s` without surrounding whitespace.
pub fn trim_bounds(s: &[char]) -> (out: (usize, usize))
    ensures
        out.0 <= out.1 <= s.len(),
        s@.subrange(out.0 as int, out.1 as int) == trim(s@),
        trim_start(s@) == s@.skip(out.0 as int),
{
    let mut start: usize = 0;
    while start < s.len() && is_whitespace(s[start])
        invariant
            start <= s.len(),
            forall|j: int| 0 <= j < start ==> is_ws(#[trigger] s@[j]),
        decreases s.len() - start,
    {
        start = start + 1;
    }
    proof {
        lemma_trim_start_skip(s@, start as int);
    }
    let mut end: usize = s.len();
    while end > start && is_whitespace(s[end - 1])
        invariant
            start <= end <= s.len(),
            forall|j: int| end <= j < s.len() ==> is_ws(#[trigger] s@[j]),
        decreases end,
    {
        end = end - 1;
    }
    proof {
        let t = s@.skip(start as int);
        assert forall|j: int| end - start <= j < t.len() implies is_ws(#[trigger] t[j]) by {
            assert(t[j] == s@[j + start]);
        }
        if end > start {
            assert(t[end - start - 1] == s@[end - 1]);
        }
        lemma_trim_end_take(t, end - start);
        assert(t.take(end - start) == s@.subrange(start as int, end as int));
    }
    (start, end)
}

/// `str::trim` on characters.
pub fn trim_chars(s: &[char]) -> (out: Vec<char>)
    ensures
        out@ == trim(s@),
{
    let (start, end) = trim_bounds(s);
    slice_range(s, start, end)
}

/// `str::trim`, giving an owned string.
pub fn trimmed(s: &str) -> (out: String)
    ensures
        out@ == trim(s@),
{
    let cs = chars_of(s);
    let t = trim_chars(cs.as_slice());
    string_of(t.as_slice())
}

/// The characters `s[from..to]`.
pub fn slice_range(s: &[char], from: usize, to: usize) -> (out: Vec<char>)
    requires
        from <= to <= s.len(),
    ensures
        out@ == s@.subrange(from as int, to as int),
{
    let mut out: Vec<char> = Vec::new();
    let mut i = from;
    while i < to
        invariant
            from <= i <= to <= s.len(),
            out@ == s@.subrange(from as int, i as int),
        decreases to - i,
    {
        out.push(s[i]);
        i = i + 1;
        assert(s@.subrange(from as int, i as int) == s@.subrange(from as int, i - 1).push(
            s@[i - 1],
        ));
    }
    out
}

/// The first `n` characters of `s` (`chars().take(n)`).
pub fn take_chars(s: &[char], n: usize) -> (out: Vec<char>)
    ensures
        out@ == prefix_chars(s@, n as nat),
{
    let end = if s.len() <= n {
        s.len()
    } else {
        n
    };
    let out = slice_range(s, 0, end);
    assert(s@.subrange(0, s.len() as int) == s@);
    out
}

/// `to_ascii_lowercase` of one character.
pub fn ascii_lower_of(c: char) -> (out: char)
    ensures
        out == ascii_lower_char(c),
{
    if 'A' <= c && c <= 'Z' {
        let code: u32 = c as u32 + 32;
        assert(('a' as u32) <= code <= ('z' as u32));
        char_from_ascii_letter(code)
    } else {
        c
    }
}

fn char_from_ascii_letter(code: u32) -> (out: char)
    requires
        ('a' as u32) <= code <= ('z' as u32),
    ensures
        out == code as char,
{
    let b: u8 = code as u8;
    b as char
}

/// `to_ascii_lowercase` of a character sequence.
pub fn ascii_lower_chars(s: &[char]) -> (out: Vec<char>)
    ensures
        out@ == ascii_lower(s@),
{
    let mut out: Vec<char> = Vec::new();
    let mut i: usize = 0;
    while i < s.len()
        invariant
            i <= s.len(),
            out@ == ascii_lower(s@.take(i as int)),
        decreases s.len() - i,
    {
        out.push(ascii_lower_of(s[i]));
        i = i + 1;
        assert(ascii_lower(s@.take(i as int)) =~= ascii_lower(s@.take(i - 1)).push(
            ascii_lower_char(s@[i - 1]),
        ));
    }
    assert(s@.take(s.len() as int) == s@);
    out
}

/// Whether `needle` occurs in `s` at index `i`.
pub fn matches_at_exec(s: &[char], needle: &[char], i: usize) -> (out: bool)
    ensures
        out == matches_at(s@, needle@, i as int),
{
    if i > s.len() || needle.len() > s.len() - i {
        return false;
    }
    let mut k: usize = 0;
    while k < needle.len()
        invariant
            k <= needle.len(),
            i + needle.len() <= s.len(),
            forall|j: int| 0 <= j < k ==> s@[i + j] == needle@[j],
        decreases needle.len() - k,
    {
        if s[i + k] != needle[k] {
            assert(s@.subrange(i as int, i + needle.len())[k as int] != needle@[k as int]);
            return false;
        }
        k = k + 1;
    }
    assert(s@.subrange(i as int, i + needle.len()) =~= needle@);
    true
}

/// `find` only reports a match, and the first one.
pub proof fn lemma_find_spec(s: Seq<char>, needle: Seq<char>)
    ensures
        find(s, needle) matches Some(i) ==> matches_at(s, needle, i) && forall|j: int|
            0 <= j < i ==> !matches_at(s, needle, j),
        find(s, needle) is None ==> !contains(s, needle),
    decreases s.len(),
{
    if s.len() < needle.len() {
        assert forall|i: int| !matches_at(s, needle, i) by {}
    } else if s.take(needle.len() as int) == needle {
        assert(s.subrange(0, needle.len() as int) == s.take(needle.len() as int));
    } else if s.len() == 0 {
        assert(s.take(needle.len() as int) =~= needle);
    } else {
        let t = s.drop_first();
        lemma_find_spec(t, needle);
        assert(!matches_at(s, needle, 0)) by {
            assert(s.subrange(0, needle.len() as int) == s.take(needle.len() as int));
        }
        assert forall|j: int| 1 <= j implies matches_at(s, needle, j) == matches_at(
            t,
            needle,
            j - 1,
        ) by {
            if 0 <= j - 1 && j + needle.len() <= s.len() {
                assert(s.subrange(j, j + needle.len()) =~= t.subrange(j - 1, j - 1 + needle.len()));
            }
        }
        if find(t, needle) is None {
            assert forall|i: int| !matches_at(s, needle, i) by {
                if i >= 1 {
                    assert(matches_at(s, needle, i) == matches_at(t, needle, i - 1));
                }
            }
        }
    }
}

/// Step of `find` from a position known not to match.
pub proof fn lemma_find_step(s: Seq<char>, needle: Seq<char>, i: int)
    requires
        0 <= i < s.len(),
        i + needle.len() <= s.len(),
        !matches_at(s, needle, i),
    ensures
        find(s.skip(i), needle) == (match find(s.skip(i + 1), needle) {
            Some(j) => Some(j + 1),
            None => None::<int>,
        }),
{
    let t = s.skip(i);
    assert(t.drop_first() == s.skip(i + 1));
    assert(t.take(needle.len() as int) == s.subrange(i, i + needle.len()));
}

/// The index of the first occurrence of `needle` in `s` at or after `from`.
pub fn find_from(s: &[char], needle: &[char], from: usize) -> (out: Option<usize>)
    requires
        from <= s.len(),
    ensures
        out matches Some(i) ==> from <= i && find(s@.skip(from as int), needle@) == Some(
            i - from,
        ),
        out is None ==> find(s@.skip(from as int), needle@) is None,
{
    let mut i = from;
    while i < s.len() && needle.len() <= s.len() - i
        invariant
            from <= i <= s.len(),
            find(s@.skip(from as int), needle@) == (match find(s@.skip(i as int), needle@) {
                Some(j) => Some(j + (i - from)),
                None => None::<int>,
            }),
        decreases s.len() - i,
    {
        if matches_at_exec(s, needle, i) {
            proof {
                let t = s@.skip(i as int);
                assert(t.take(needle.len() as int) == s@.subrange(i as int, i + needle.len()));
            }
            return Some(i);
        }
        proof {
            lemma_find_step(s@, needle@, i as int);
        }
        i = i + 1;
    }
    if i == s.len() && needle.len() == 0 {
        proof {
            assert(s@.skip(i as int).take(0) == needle@);
        }
        return Some(i);
    }
    None
}

/// `str::find`: the index of the first occurrence of `needle`.
pub fn find_chars(s: &[char], needle: &[char]) -> (out: Option<usize>)
    ensures
        out matches Some(i) ==> find(s@, needle@) == Some(i as int),
        out is None ==> find(s@, needle@) is None,
{
    assert(s@.skip(0) == s@);
    find_from(s, needle, 0)
}

/// `str::contains`.
pub fn contains_chars(s: &[char], needle: &[char]) -> (out: bool)
    ensures
        out == contains(s@, needle@),
{
    proof {
        lemma_find_spec(s@, needle@);
    }
    find_chars(s, needle).is_some()
}

/// `str::contains` on strings.
pub fn str_contains(s: &str, needle: &str) -> (out: bool)
    ensures
        out == contains(s@, needle@),
{
    let x = chars_of(s);
    let y = chars_of(needle);
    contains_chars(x.as_slice(), y.as_slice())
}

/// `str::starts_with`.
pub fn starts_with_chars(s: &[char], prefix: &[char]) -> (out: bool)
    ensures
        out == starts_with(s@, prefix@),
{
    let r = matches_at_exec(s, prefix, 0);
    assert(s@.subrange(0, prefix.len() as int) == s@.take(prefix.len() as int));
    r
}

/// `str::ends_with`.
pub fn ends_with_chars(s: &[char], suffix: &[char]) -> (out: bool)
    ensures
        out == ends_with(s@, suffix@),
{
    if suffix.len() > s.len() {
        return false;
    }
    let r = matches_at_exec(s, suffix, s.len() - suffix.len());
    assert(s@.subrange(s.len() - suffix.len(), s.len() as int) == s@.skip(
        s.len() - suffix.len(),
    ));
    r
}

/// `str::replace` for a non-empty pattern.
pub fn replace_chars(s: &[char], from: &[char], to: &[char]) -> (out: Vec<char>)
    ensures
        out@ == replace_all(s@, from@, to@),
{
    if from.len() == 0 {
        return slice_range(s, 0, s.len());
    }
    let mut out: Vec<char> = Vec::new();
    let mut i: usize = 0;
    assert(s@.skip(0) == s@);
    while i < s.len()
        invariant
            i <= s.len(),
            from.len() > 0,
            out@ + replace_all(s@.skip(i as int), from@, to@) == replace_all(s@, from@, to@),
        decreases s.len() - i,
    {
        let t = Ghost(s@.skip(i as int));
        if from.len() <= s.len() - i && matches_at_exec(s, from, i) {
            proof {
                assert(t@.take(from.len() as int) == s@.subrange(i as int, i + from.len()));
                assert(t@.skip(from.len() as int) == s@.skip(i + from.len()));
            }
            let ghost before = out@;
            let mut k: usize = 0;
            while k < to.len()
                invariant
                    k <= to.len(),
                    out@ == before + to@.take(k as int),
                decreases to.len() - k,
            {
                out.push(to[k]);
                k = k + 1;
                assert(to@.take(k as int) == to@.take(k - 1).push(to@[k - 1]));
            }
            assert(to@.take(to.len() as int) == to@);
            assert(out@ + replace_all(s@.skip(i + from.len()), from@, to@) == before + (to@
                + replace_all(s@.skip(i + from.len()), from@, to@)));
            i = i + from.len();
        } else {
            proof {
                if from.len() <= s.len() - i {
                    assert(t@.take(from.len() as int) != from@) by {
                        assert(t@.take(from.len() as int) == s@.subrange(
                            i as int,
                            i + from.len(),
                        ));
                    }
                }
                assert(t@.drop_first() == s@.skip(i + 1));
                assert(t@[0] == s@[i as int]);
            }
            out.push(s[i]);
            i = i + 1;
        }
    }
    assert(s@.skip(s.len() as int) =~= Seq::<char>::empty());
    out
}


pub proof fn lemma_join_push(parts: Seq<Seq<char>>, p: Seq<char>, sep: Seq<char>)
    ensures
        parts.len() == 0 ==> join(parts.push(p), sep) == p,
        parts.len() > 0 ==> join(parts.push(p), sep) == join(parts, sep) + sep + p,
{
    assert(parts.push(p).drop_last() == parts);
}

pub proof fn lemma_join_extend_last(parts: Seq<Seq<char>>, c: char, sep: Seq<char>)
    requires
        parts.len() > 0,
    ensures
        join(parts.update(parts.len() - 1, parts.last().push(c)), sep) == join(parts, sep).push(
            c,
        ),
{
    let q = parts.update(parts.len() - 1, parts.last().push(c));
    if parts.len() > 1 {
        assert(q.drop_last() == parts.drop_last());
        assert(join(q, sep) == join(parts.drop_last(), sep) + sep + q.last());
        assert(join(parts, sep) == join(parts.drop_last(), sep) + sep + parts.last());
        assert(join(q, sep) =~= join(parts, sep).push(c));
    }
}

/// `split_whitespace().collect::<Vec<_>>().join(" ")`: the words of `s`
/// separated by single spaces.
pub fn collapse_whitespace(s: &[char]) -> (out: Vec<char>)
    ensures
        out@ == collapse_ws(s@),
{
    let mut out: Vec<char> = Vec::new();
    let mut i: usize = 0;
    let ghost mut w: Seq<Seq<char>> = seq![];
    while i < s.len()
        invariant
            i <= s.len(),
            w == words(s@.take(i as int)),
            out@ == join(w, seq![' ']),
            i > 0 && !is_ws(s@[i - 1]) ==> w.len() > 0,
            w.len() == 0 ==> out@.len() == 0,
            w.len() > 0 ==> out@.len() > 0,
        decreases s.len() - i,
    {
        let c = s[i];
        let ghost t = s@.take(i + 1);
        assert(t.drop_last() == s@.take(i as int));
        assert(t.last() == c);
        if is_whitespace(c) {
        } else if i > 0 && !is_whitespace(s[i - 1]) {
            assert(t[t.len() - 2] == s@[i - 1]);
            proof {
                lemma_join_extend_last(w, c, seq![' ']);
                w = w.update(w.len() - 1, w.last().push(c));
            }
            out.push(c);
        } else {
            let ghost w0 = w;
            proof {
                if i > 0 {
                    assert(t[t.len() - 2] == s@[i - 1]);
                }
                lemma_join_push(w, seq![c], seq![' ']);
                w = w.push(seq![c]);
            }
            if out.len() > 0 {
                out.push(' ');
                out.push(c);
                assert(out@ =~= join(w0, seq![' ']) + seq![' '] + seq![c]);
            } else {
                out.push(c);
                assert(out@ =~= seq![c]);
            }
        }
        i = i + 1;
    }
    assert(s@.take(s.len() as int) == s@);
    out
}

/// The digit character for `d < 10`.
pub fn digit(d: u64) -> (out: char)
    requires
        d < 10,
    ensures
        out == digit_char(d as nat),
{
    let b: u8 = 48u8 + (d as u8);
    b as char
}

/// The decimal digits of `n`.
pub fn decimal_chars(n: u64) -> (out: Vec<char>)
    ensures
        out@ == decimal(n as nat),
    decreases n,
{
    if n < 10 {
        let mut v: Vec<char> = Vec::new();
        v.push(digit(n));
        assert(v@ == seq![digit_char(n as nat)]);
        v
    } else {
        let mut v = decimal_chars(n / 10);
        v.push(digit(n % 10));
        v
    }
}

/// `n.to_string()`.
pub fn decimal_string(n: u64) -> (out: String)
    ensures
        out@ == decimal(n as nat),
{
    let v = decimal_chars(n);
    string_of(v.as_slice())
}


/// `str::replace` for a non-empty pattern, on strings.
pub fn replace_str(s: &str, from: &str, to: &str) -> (out: String)
    ensures
        out@ == replace_all(s@, from@, to@),
{
    let x = chars_of(s);
    let f = chars_of(from);
    let t = chars_of(to);
    let r = replace_chars(x.as_slice(), f.as_slice(), t.as_slice());
    string_of(r.as_slice())
}

/// A string holding the characters of `a` followed by those of `b`.
pub fn concat_str(a: &str, b: &str) -> (out: String)
    ensures
        out@ == a@ + b@,
{
    let mut out = copy_string(a);
    push_chars(&mut out, chars_of(b).as_slice());
    out
}

/// Appends the characters of `t` to `s`.
pub fn push_str_chars(s: &mut String, t: &str)
    ensures
        final(s)@ == old(s)@ + t@,
{
    let cs = chars_of(t);
    push_chars(s, cs.as_slice());
}

} // verus!
