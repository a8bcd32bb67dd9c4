//! Release version numbers and their order, for the update check.
use vstd::prelude::*;
use std::cmp::Ordering;
use crate::text::{chars_of, decimal, digit_char, is_ws, trim, trim_chars};
use crate::web_search::fetch::{all_digits, digits_value, parse_u64, spec_parse_u64};
use crate::web_search::research::{split_chars, split_on, views};

verus! {

/// `s` without the `v` and `V` characters it starts with.
pub open spec fn strip_v(s: Seq<char>) -> Seq<char>
    decreases s.len(),
{
    if s.len() > 0 && (s[0] == 'v' || s[0] == 'V') {
        strip_v(s.drop_first())
    } else {
        s
    }
}

/// The part of a version before a pre-release (`-`) or build (`+`) suffix.
pub open spec fn stable_part(s: Seq<char>) -> Seq<char>
    decreases s.len(),
{
    if s.len() == 0 || s[0] == '-' || s[0] == '+' {
        Seq::empty()
    } else {
        seq![s[0]] + stable_part(s.drop_first())
    }
}

/// Every piece is a number `u64::from_str` accepts.
pub open spec fn all_parse(pieces: Seq<Seq<char>>) -> bool {
    forall|i: int| 0 <= i < pieces.len() ==> (#[trigger] spec_parse_u64(pieces[i])) is Some
}

/// The numbers of a version such as `v1.2.3-beta`: dot-separated numbers
/// after any leading `v`, before any `-` or `+` suffix.
pub open spec fn spec_version_components(version: Seq<char>) -> Option<Seq<u64>> {
    let pieces = split_on(stable_part(strip_v(trim(version))), '.');
    if all_parse(pieces) {
        Some(pieces.map_values(|p: Seq<char>| spec_parse_u64(p).unwrap()))
    } else {
        None
    }
}

/// The numbers of a version (`None` when a part is not a number).
pub fn version_components(version: &str) -> (out: Option<Vec<u64>>)
    ensures
        match out {
            Some(v) => spec_version_components(version@) == Some(v@),
            None => spec_version_components(version@) is None,
        },
{
    let t = trim_chars(chars_of(version).as_slice());
    let mut i: usize = 0;
    assert(t@.skip(0) == t@);
    while i < t.len() && (t[i] == 'v' || t[i] == 'V')
        invariant
            i <= t.len(),
            strip_v(t@) == strip_v(t@.skip(i as int)),
        decreases t.len() - i,
    {
        assert(t@.skip(i as int).drop_first() == t@.skip(i + 1));
        i = i + 1;
    }
    assert(t@.skip(0) == t@);
    let mut j = i;
    while j < t.len() && !(t[j] == '-' || t[j] == '+')
        invariant
            i <= j <= t.len(),
            stable_part(t@.skip(i as int)) == t@.subrange(i as int, j as int) + stable_part(
                t@.skip(j as int),
            ),
        decreases t.len() - j,
    {
        assert(t@.skip(j as int).drop_first() == t@.skip(j + 1));
        assert(t@.subrange(i as int, j + 1) == t@.subrange(i as int, j as int) + seq![t@[j as int]]);
        j = j + 1;
    }
    assert(stable_part(t@.skip(j as int)) == Seq::<char>::empty());
    let stable = crate::text::slice_range(t.as_slice(), i, j);
    let pieces = split_chars(stable.as_slice(), '.');
    let ghost pv = views(pieces@);
    let mut out: Vec<u64> = Vec::new();
    let mut k: usize = 0;
    while k < pieces.len()
        invariant
            k <= pieces@.len(),
            pv == views(pieces@),
            pv == split_on(stable_part(strip_v(trim(version@))), '.'),
            forall|m: int| 0 <= m < k ==> (#[trigger] spec_parse_u64(pv[m])) is Some,
            out@ == pv.take(k as int).map_values(|p: Seq<char>| spec_parse_u64(p).unwrap()),
        decreases pieces@.len() - k,
    {
        match parse_u64(pieces[k].as_slice()) {
            Some(n) => {
                out.push(n);
                assert(pv.take(k + 1).map_values(|p: Seq<char>| spec_parse_u64(p).unwrap())
                    =~= pv.take(k as int).map_values(|p: Seq<char>| spec_parse_u64(p).unwrap()).push(n));
            },
            None => {
                assert(spec_parse_u64(pv[k as int]) is None);
                return None;
            },
        }
        k = k + 1;
    }
    assert(pv.take(pv.len() as int) == pv);
    Some(out)
}

/// The number at position `i` of a version, zero past its end.
pub open spec fn part_at(v: Seq<u64>, i: usize) -> u64 {
    if i < v.len() {
        v[i as int]
    } else {
        0
    }
}

/// The position after `i`.
pub open spec fn next_index(i: usize) -> usize {
    (i + 1) as usize
}

/// Versions compared number by number from position `i` on, over `n` positions.
pub open spec fn order_from(a: Seq<u64>, b: Seq<u64>, i: usize, n: usize) -> Ordering
    decreases n - i,
{
    if i >= n {
        Ordering::Equal
    } else if part_at(a, i) < part_at(b, i) {
        Ordering::Less
    } else if part_at(a, i) > part_at(b, i) {
        Ordering::Greater
    } else {
        order_from(a, b, next_index(i), n)
    }
}

/// The length of the longer version.
pub open spec fn longer(a: Seq<u64>, b: Seq<u64>) -> usize {
    if a.len() < b.len() {
        b.len() as usize
    } else {
        a.len() as usize
    }
}

/// The order of two versions: number by number, missing numbers counting as zero.
pub open spec fn version_order(left: Seq<char>, right: Seq<char>) -> Option<Ordering> {
    match (spec_version_components(left), spec_version_components(right)) {
        (Some(a), Some(b)) => Some(order_from(a, b, 0, longer(a, b))),
        _ => None,
    }
}

/// Compares two versions such as `v0.10.0` and `0.9.9` numerically, number
/// by number, with missing numbers counting as zero; `None` when either is
/// not a version.
pub fn compare_versions(left: &str, right: &str) -> (out: Option<Ordering>)
    ensures
        out == version_order(left@, right@),
{
    let a = version_components(left)?;
    let b = version_components(right)?;
    let n = if a.len() < b.len() {
        b.len()
    } else {
        a.len()
    };
    let mut i: usize = 0;
    while i < n
        invariant
            i <= n,
            n == longer(a@, b@),
            version_order(left@, right@) == Some(order_from(a@, b@, 0, n)),
            order_from(a@, b@, 0, n) == order_from(a@, b@, i, n),
        decreases n - i,
    {
        let x: u64 = if i < a.len() {
            a[i]
        } else {
            0
        };
        let y: u64 = if i < b.len() {
            b[i]
        } else {
            0
        };
        assert(x == part_at(a@, i) && y == part_at(b@, i));
        if x < y {
            return Some(Ordering::Less);
        }
        if x > y {
            return Some(Ordering::Greater);
        }
        i = i + 1;
    }
    Some(Ordering::Equal)
}

/// Version order is antisymmetric: swapping the versions reverses it.
pub proof fn law_version_order_reverses(left: Seq<char>, right: Seq<char>)
    ensures
        version_order(left, right) == match version_order(right, left) {
            Some(Ordering::Less) => Some(Ordering::Greater),
            Some(Ordering::Greater) => Some(Ordering::Less),
            other => other,
        },
{
    match (spec_version_components(left), spec_version_components(right)) {
        (Some(a), Some(b)) => {
            lemma_order_from_swap(a, b, 0, longer(a, b));
        },
        _ => {},
    }
}

proof fn lemma_order_from_swap(a: Seq<u64>, b: Seq<u64>, i: usize, n: usize)
    ensures
        order_from(a, b, i, n) == match order_from(b, a, i, n) {
            Ordering::Less => Ordering::Greater,
            Ordering::Greater => Ordering::Less,
            Ordering::Equal => Ordering::Equal,
        },
    decreases n - i,
{
    if i < n {
        lemma_order_from_swap(a, b, next_index(i), n);
    }
}

/// A version is equal to itself.
pub proof fn law_version_order_reflexive(version: Seq<char>)
    requires
        spec_version_components(version) is Some,
    ensures
        version_order(version, version) == Some(Ordering::Equal),
{
    let a = spec_version_components(version).unwrap();
    lemma_order_from_self(a, 0, longer(a, a));
}

proof fn lemma_order_from_self(a: Seq<u64>, i: usize, n: usize)
    ensures
        order_from(a, a, i, n) == Ordering::Equal,
    decreases n - i,
{
    if i < n {
        lemma_order_from_self(a, next_index(i), n);
    }
}

/// Past the ends of both versions every comparison is equal.
proof fn lemma_order_from_past_end(a: Seq<u64>, b: Seq<u64>, i: usize, n: usize)
    requires
        i >= a.len(),
        i >= b.len(),
    ensures
        order_from(a, b, i, n) == Ordering::Equal,
    decreases n - i,
{
    if i < n {
        lemma_order_from_past_end(a, b, next_index(i), n);
    }
}

/// Comparing over more positions than the longer version has changes nothing.
proof fn lemma_order_from_extend(a: Seq<u64>, b: Seq<u64>, i: usize, n: usize, m: usize)
    requires
        i <= n <= m,
        n >= a.len(),
        n >= b.len(),
    ensures
        order_from(a, b, i, m) == order_from(a, b, i, n),
    decreases n - i,
{
    if i < n {
        lemma_order_from_extend(a, b, next_index(i), n, m);
    } else {
        lemma_order_from_past_end(a, b, i, m);
    }
}

/// Number-by-number order is transitive, and strict as soon as one step is.
proof fn lemma_order_from_transitive(a: Seq<u64>, b: Seq<u64>, c: Seq<u64>, i: usize, n: usize)
    requires
        order_from(a, b, i, n) != Ordering::Greater,
        order_from(b, c, i, n) != Ordering::Greater,
    ensures
        order_from(a, c, i, n) != Ordering::Greater,
        order_from(a, b, i, n) == Ordering::Less || order_from(b, c, i, n) == Ordering::Less
            ==> order_from(a, c, i, n) == Ordering::Less,
    decreases n - i,
{
    if i < n && part_at(a, i) == part_at(b, i) && part_at(b, i) == part_at(c, i) {
        lemma_order_from_transitive(a, b, c, next_index(i), n);
    }
}

/// A version that parses into at most `usize::MAX` numbers, as every
/// version held in memory does.
pub open spec fn countable_version(version: Seq<char>) -> bool {
    match spec_version_components(version) {
        Some(a) => a.len() <= usize::MAX,
        None => false,
    }
}

/// Version order is transitive: a version no later than a second, which is
/// no later than a third, is no later than the third, and earlier when
/// either step is strict.
pub proof fn law_version_order_transitive(x: Seq<char>, y: Seq<char>, z: Seq<char>)
    requires
        countable_version(x),
        countable_version(y),
        countable_version(z),
        version_order(x, y) != Some(Ordering::Greater),
        version_order(y, z) != Some(Ordering::Greater),
    ensures
        version_order(x, z) is Some,
        version_order(x, z) != Some(Ordering::Greater),
        version_order(x, y) == Some(Ordering::Less) || version_order(y, z) == Some(Ordering::Less)
            ==> version_order(x, z) == Some(Ordering::Less),
{
    let a = spec_version_components(x).unwrap();
    let b = spec_version_components(y).unwrap();
    let c = spec_version_components(z).unwrap();
    let ab = longer(a, b);
    let bc = longer(b, c);
    let ac = longer(a, c);
    let n: usize = if ab < bc {
        bc
    } else {
        ab
    };
    lemma_order_from_extend(a, b, 0, ab, n);
    lemma_order_from_extend(b, c, 0, bc, n);
    lemma_order_from_extend(a, c, 0, ac, n);
    lemma_order_from_transitive(a, b, c, 0, n);
}

// ---------------------------------------------------------------------------
// Versions written out from their numbers
// ---------------------------------------------------------------------------

/// The version made of the numbers `ns`: each in decimal, joined by dots
/// (`[1, 2, 3]` is `1.2.3`).
pub open spec fn version_text(ns: Seq<u64>) -> Seq<char>
    decreases ns.len(),
{
    if ns.len() == 0 {
        Seq::empty()
    } else if ns.len() == 1 {
        decimal(ns[0] as nat)
    } else {
        version_text(ns.drop_last()) + seq!['.'] + decimal(ns.last() as nat)
    }
}

/// Characters a written version is made of.
pub open spec fn version_char(c: char) -> bool {
    ('0' <= c <= '9') || c == '.'
}

proof fn lemma_decimal(n: nat)
    ensures
        decimal(n).len() > 0,
        all_digits(decimal(n)),
        digits_value(decimal(n)) == n,
    decreases n,
{
    if n < 10 {
        let d = decimal(n);
        assert(d == seq![digit_char(n)]);
        assert(d.drop_last() =~= Seq::<char>::empty());
        assert(d.last() == digit_char(n));
        assert((digit_char(n) as u32) == ('0' as u32) + n);
        assert(digits_value(d) == digits_value(d.drop_last()) * 10 + ((d.last() as u32) - ('0' as u32)) as nat);
    } else {
        lemma_decimal(n / 10);
        let d = decimal(n);
        assert(d == decimal(n / 10).push(digit_char(n % 10)));
        assert(d.drop_last() =~= decimal(n / 10));
        assert((digit_char(n % 10) as u32) == ('0' as u32) + n % 10);
        assert(d.last() == digit_char(n % 10));
        assert(digits_value(d) == digits_value(d.drop_last()) * 10 + ((d.last() as u32) - ('0' as u32)) as nat);
        assert((n / 10) * 10 + n % 10 == n) by (nonlinear_arith);
        assert forall|i: int| 0 <= i < d.len() implies '0' <= #[trigger] d[i] <= '9' by {
            if i < d.len() - 1 {
                assert(d[i] == decimal(n / 10)[i]);
            }
        }
    }
}

proof fn lemma_parse_decimal(n: u64)
    ensures
        spec_parse_u64(decimal(n as nat)) == Some(n),
{
    lemma_decimal(n as nat);
    let d = decimal(n as nat);
    assert('0' <= d[0] <= '9');
}

proof fn lemma_version_text_chars(ns: Seq<u64>)
    requires
        ns.len() > 0,
    ensures
        version_text(ns).len() > 0,
        forall|i: int| 0 <= i < version_text(ns).len() ==> version_char(#[trigger] version_text(ns)[i]),
        '0' <= version_text(ns)[0] <= '9',
        '0' <= version_text(ns).last() <= '9',
    decreases ns.len(),
{
    if ns.len() == 1 {
        lemma_decimal(ns[0] as nat);
    } else {
        lemma_version_text_chars(ns.drop_last());
        lemma_decimal(ns.last() as nat);
        let a = version_text(ns.drop_last());
        let d = decimal(ns.last() as nat);
        let t = a + seq!['.'] + d;
        assert(t == version_text(ns));
        assert forall|i: int| 0 <= i < t.len() implies version_char(#[trigger] t[i]) by {
            if i < a.len() {
                assert(t[i] == a[i]);
            } else if i > a.len() {
                assert(t[i] == d[i - a.len() - 1]);
            }
        }
        assert(t[0] == a[0]);
        assert(t.last() == d.last());
    }
}

proof fn lemma_stable_part_keeps(s: Seq<char>)
    requires
        forall|i: int| 0 <= i < s.len() ==> version_char(#[trigger] s[i]),
    ensures
        stable_part(s) == s,
    decreases s.len(),
{
    if s.len() > 0 {
        let r = s.drop_first();
        assert forall|i: int| 0 <= i < r.len() implies version_char(#[trigger] r[i]) by {
            assert(r[i] == s[i + 1]);
        }
        assert(version_char(s[0]));
        lemma_stable_part_keeps(r);
        assert(s =~= seq![s[0]] + r);
    }
}

proof fn lemma_split_push_sep(s: Seq<char>, sep: char)
    ensures
        split_on(s.push(sep), sep) == split_on(s, sep).push(Seq::<char>::empty()),
{
    assert(s.push(sep).drop_last() =~= s);
}

/// Appending text without the separator extends the last piece.
proof fn lemma_split_append(s: Seq<char>, t: Seq<char>, sep: char)
    requires
        forall|i: int| 0 <= i < t.len() ==> #[trigger] t[i] != sep,
    ensures
        split_on(s + t, sep) == split_on(s, sep).update(
            split_on(s, sep).len() - 1,
            split_on(s, sep).last() + t,
        ),
    decreases t.len(),
{
    crate::web_search::research::lemma_split_nonempty(s, sep);
    let p = split_on(s, sep);
    if t.len() == 0 {
        assert(s + t =~= s);
        assert(p.last() + t =~= p.last());
        assert(p.update(p.len() - 1, p.last()) =~= p);
    } else {
        let t0 = t.drop_last();
        assert forall|i: int| 0 <= i < t0.len() implies #[trigger] t0[i] != sep by {
            assert(t0[i] == t[i]);
        }
        lemma_split_append(s, t0, sep);
        assert((s + t).drop_last() =~= s + t0);
        assert((s + t).last() == t.last());
        assert(t.last() != sep) by {
            assert(t.last() == t[t.len() - 1]);
        }
        let q = split_on(s + t0, sep);
        assert(q.last() + seq![t.last()] == q.last().push(t.last()));
        assert((p.last() + t0).push(t.last()) =~= p.last() + t);
        assert(q.update(q.len() - 1, q.last().push(t.last())) =~= p.update(p.len() - 1, p.last() + t));
    }
}

proof fn lemma_split_version_text(ns: Seq<u64>)
    requires
        ns.len() > 0,
    ensures
        split_on(version_text(ns), '.') == ns.map_values(|n: u64| decimal(n as nat)),
    decreases ns.len(),
{
    if ns.len() == 1 {
        let d = decimal(ns[0] as nat);
        lemma_decimal(ns[0] as nat);
        assert forall|i: int| 0 <= i < d.len() implies #[trigger] d[i] != '.' by {
            assert('0' <= d[i] <= '9');
        }
        lemma_split_append(Seq::<char>::empty(), d, '.');
        assert(Seq::<char>::empty() + d =~= d);
        assert(split_on(Seq::<char>::empty(), '.') == seq![Seq::<char>::empty()]);
        assert(Seq::<char>::empty() + d =~= d);
        assert(ns.map_values(|n: u64| decimal(n as nat)) =~= seq![d]);
        assert(seq![Seq::<char>::empty()].update(0, Seq::<char>::empty() + d) =~= seq![d]);
    } else {
        let a = version_text(ns.drop_last());
        let d = decimal(ns.last() as nat);
        lemma_decimal(ns.last() as nat);
        lemma_split_version_text(ns.drop_last());
        assert forall|i: int| 0 <= i < d.len() implies #[trigger] d[i] != '.' by {
            assert('0' <= d[i] <= '9');
        }
        lemma_split_push_sep(a, '.');
        lemma_split_append(a.push('.'), d, '.');
        assert(a + seq!['.'] + d =~= a.push('.') + d);
        let p = split_on(a, '.');
        let q = p.push(Seq::<char>::empty());
        assert(q.update(q.len() - 1, q.last() + d) =~= p.push(d));
        assert(Seq::<char>::empty() + d =~= d);
        assert(ns.map_values(|n: u64| decimal(n as nat)) =~= ns.drop_last().map_values(
            |n: u64| decimal(n as nat),
        ).push(d));
    }
}

/// A version written from numbers reads back as exactly those numbers:
/// one number per dot-separated part, in order (`1.2.3` gives `[1, 2, 3]`).
pub proof fn law_version_components_read_every_part(ns: Seq<u64>)
    requires
        ns.len() > 0,
    ensures
        spec_version_components(version_text(ns)) == Some(ns),
{
    let t = version_text(ns);
    lemma_version_text_chars(ns);
    assert(!is_ws(t[0]) && !is_ws(t.last()));
    crate::text::lemma_trim_start_skip(t, 0);
    assert(t.skip(0) =~= t);
    crate::text::lemma_trim_end_take(t, t.len() as int);
    assert(t.take(t.len() as int) =~= t);
    assert(trim(t) == t);
    assert(strip_v(t) == t);
    lemma_stable_part_keeps(t);
    lemma_split_version_text(ns);
    let pieces = split_on(t, '.');
    assert forall|i: int| 0 <= i < pieces.len() implies (#[trigger] spec_parse_u64(pieces[i])) is Some by {
        lemma_parse_decimal(ns[i]);
    }
    assert forall|i: int| 0 <= i < ns.len() implies pieces.map_values(|p: Seq<char>| spec_parse_u64(p).unwrap())[i] == ns[i] by {
        lemma_parse_decimal(ns[i]);
    }
    assert(pieces.map_values(|p: Seq<char>| spec_parse_u64(p).unwrap()) =~= ns);
}

proof fn lemma_order_from_first_difference(a: Seq<u64>, b: Seq<u64>, j: usize, i: usize, n: usize)
    requires
        j <= i < n,
        forall|k: usize| j <= k < i ==> #[trigger] part_at(a, k) == part_at(b, k),
        part_at(a, i) > part_at(b, i),
    ensures
        order_from(a, b, j, n) == Ordering::Greater,
    decreases i - j,
{
    if j < i {
        assert(part_at(a, j) == part_at(b, j));
        lemma_order_from_first_difference(a, b, next_index(j), i, n);
    }
}

/// Versions are compared number by number: when two versions agree up to
/// some position and the first has the larger number there (a missing
/// number counting as zero), the first is the later version; so a newer
/// patch release (`1.2.2` against `1.2.1`) is later.
pub proof fn law_later_number_is_later_version(ns: Seq<u64>, ms: Seq<u64>, i: usize)
    requires
        ns.len() > 0,
        ms.len() > 0,
        ns.len() <= usize::MAX,
        ms.len() <= usize::MAX,
        forall|k: usize| k < i ==> #[trigger] part_at(ns, k) == part_at(ms, k),
        part_at(ns, i) > part_at(ms, i),
    ensures
        version_order(version_text(ns), version_text(ms)) == Some(Ordering::Greater),
        version_order(version_text(ms), version_text(ns)) == Some(Ordering::Less),
{
    law_version_components_read_every_part(ns);
    law_version_components_read_every_part(ms);
    assert(i < longer(ns, ms));
    lemma_order_from_first_difference(ns, ms, 0, i, longer(ns, ms));
    law_version_order_reverses(version_text(ms), version_text(ns));
}

} // verus!
