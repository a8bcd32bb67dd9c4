//! What is done with a fetched page: the text a model is shown, the title,
//! and the checks on addresses, statuses and content types around a fetch.
use vstd::prelude::*;
use crate::text::{
    ascii_lower, ascii_lower_chars, chars_of, collapse_whitespace, collapse_ws, find, find_from,
    is_whitespace, is_ws, lemma_find_spec, replace_all, replace_chars, slice_range, string_of, trim,
    trim_chars,
};

verus! {

// ---------------------------------------------------------------------------
// Entities
// ---------------------------------------------------------------------------

/// The six entities pages use most, decoded in this order.
pub open spec fn decode_entities(s: Seq<char>) -> Seq<char> {
    let s = replace_all(s, "&amp;"@, "&"@);
    let s = replace_all(s, "&lt;"@, "<"@);
    let s = replace_all(s, "&gt;"@, ">"@);
    let s = replace_all(s, "&quot;"@, "\""@);
    let s = replace_all(s, "&#39;"@, "'"@);
    replace_all(s, "&nbsp;"@, " "@)
}

/// Text without `&`.
pub open spec fn no_amp(s: Seq<char>) -> bool {
    forall|i: int| 0 <= i < s.len() ==> #[trigger] s[i] != '&'
}

/// Text without `&` or `;`, so that no entity can start or end in it.
pub open spec fn entity_free(s: Seq<char>) -> bool {
    forall|i: int| 0 <= i < s.len() ==> #[trigger] s[i] != '&' && s[i] != ';'
}

/// An entity: `&`, then at least one character other than `&`, then `;`.
pub open spec fn entity_pattern(f: Seq<char>) -> bool {
    &&& f.len() >= 3
    &&& f[0] == '&'
    &&& f.last() == ';'
    &&& forall|i: int| 1 <= i < f.len() ==> #[trigger] f[i] != '&'
}

/// The entities `decode_entities` replaces, in its order.
pub open spec fn entity_names() -> Seq<Seq<char>> {
    seq!["&amp;"@, "&lt;"@, "&gt;"@, "&quot;"@, "&#39;"@, "&nbsp;"@]
}

/// The character each entity stands for.
pub open spec fn entity_texts() -> Seq<Seq<char>> {
    seq!["&"@, "<"@, ">"@, "\""@, "'"@, " "@]
}

proof fn lemma_replace_without_amp(s: Seq<char>, f: Seq<char>, t: Seq<char>)
    requires
        no_amp(s),
        f.len() > 0,
        f[0] == '&',
    ensures
        replace_all(s, f, t) == s,
    decreases s.len(),
{
    if s.len() >= f.len() {
        assert(s.take(f.len() as int)[0] == s[0]);
        let r = s.drop_first();
        assert forall|i: int| 0 <= i < r.len() implies #[trigger] r[i] != '&' by {
            assert(r[i] == s[i + 1]);
        }
        lemma_replace_without_amp(r, f, t);
        assert(s =~= seq![s[0]] + r);
    }
}

proof fn lemma_replace_after_plain(x: Seq<char>, z: Seq<char>, f: Seq<char>, t: Seq<char>)
    requires
        no_amp(x),
        f.len() > 0,
        f[0] == '&',
    ensures
        replace_all(x + z, f, t) == x + replace_all(z, f, t),
    decreases x.len(),
{
    if x.len() == 0 {
        assert(x + z =~= z);
        assert(x + replace_all(z, f, t) =~= replace_all(z, f, t));
    } else {
        let r = x.drop_first();
        assert forall|i: int| 0 <= i < r.len() implies #[trigger] r[i] != '&' by {
            assert(r[i] == x[i + 1]);
        }
        lemma_replace_after_plain(r, z, f, t);
        assert((x + z).drop_first() =~= r + z);
        assert((x + z)[0] == x[0]);
        if (x + z).len() < f.len() {
            assert(z.len() < f.len());
        } else {
            assert((x + z).take(f.len() as int)[0] == x[0]);
        }
        assert(x + replace_all(z, f, t) =~= seq![x[0]] + (r + replace_all(z, f, t)));
    }
}

/// Replacing in text made of a middle part and entity-free text after it:
/// the middle is an entity, a lone `&`, or text without `&`; only a middle
/// equal to the pattern is replaced.
proof fn lemma_entity_step(x: Seq<char>, m: Seq<char>, y: Seq<char>, f: Seq<char>, t: Seq<char>)
    requires
        no_amp(x),
        entity_free(y),
        entity_pattern(f),
        entity_pattern(m) || m == seq!['&'] || no_amp(m),
        entity_pattern(m) ==> m == f || m[1] != f[1],
    ensures
        replace_all(x + m + y, f, t) == x + (if m == f {
            t
        } else {
            m
        }) + y,
{
    assert(x + m + y =~= x + (m + y));
    lemma_replace_after_plain(x, m + y, f, t);
    assert forall|i: int| 0 <= i < y.len() implies #[trigger] y[i] != '&' by {}
    assert(no_amp(y));
    if m == f {
        assert((m + y).take(f.len() as int) =~= f);
        assert((m + y).skip(f.len() as int) =~= y);
        lemma_replace_without_amp(y, f, t);
        assert(x + (t + y) =~= x + t + y);
    } else if entity_pattern(m) {
        let r = m.drop_first();
        if (m + y).len() >= f.len() {
            assert((m + y).take(f.len() as int)[1] == m[1]);
        }
        assert forall|i: int| 0 <= i < r.len() implies #[trigger] r[i] != '&' by {
            assert(r[i] == m[i + 1]);
        }
        lemma_replace_after_plain(r, y, f, t);
        lemma_replace_without_amp(y, f, t);
        assert((m + y).drop_first() =~= r + y);
        assert(m =~= seq![m[0]] + r);
        assert(x + (m + y) =~= x + m + y);
    } else if m == seq!['&'] {
        if (m + y).len() >= f.len() {
            let k = f.len() - 1;
            assert((m + y).take(f.len() as int)[k] == y[k - 1]);
            assert(y[k - 1] != ';');
        }
        lemma_replace_without_amp(y, f, t);
        assert((m + y).drop_first() =~= y);
        assert(x + (m + y) =~= x + m + y);
    } else {
        assert(no_amp(m + y)) by {
            assert forall|i: int| 0 <= i < (m + y).len() implies #[trigger] (m + y)[i] != '&' by {
                if i < m.len() {
                    assert((m + y)[i] == m[i]);
                } else {
                    assert((m + y)[i] == y[i - m.len()]);
                }
            }
        }
        lemma_replace_without_amp(m + y, f, t);
        assert(x + (m + y) =~= x + m + y);
    }
}

proof fn lemma_entity_facts()
    ensures
        forall|k: int| 0 <= k < 6 ==> entity_pattern(#[trigger] entity_names()[k]),
        forall|k: int, l: int| 0 <= k < 6 && 0 <= l < 6 && k != l ==> (#[trigger] entity_names()[k])[1]
            != (#[trigger] entity_names()[l])[1],
        entity_texts()[0] == seq!['&'],
        forall|k: int| 1 <= k < 6 ==> no_amp(#[trigger] entity_texts()[k]),
        forall|k: int, l: int| 0 <= k < 6 && 0 <= l < 6 ==> #[trigger] entity_texts()[k] != #[trigger] entity_names()[l],
{
    reveal_strlit("&amp;");
    reveal_strlit("&lt;");
    reveal_strlit("&gt;");
    reveal_strlit("&quot;");
    reveal_strlit("&#39;");
    reveal_strlit("&nbsp;");
    reveal_strlit("&");
    reveal_strlit("<");
    reveal_strlit(">");
    reveal_strlit("\"");
    reveal_strlit("'");
    reveal_strlit(" ");
    assert forall|k: int| 0 <= k < 6 implies entity_pattern(#[trigger] entity_names()[k]) by {
        let f = entity_names()[k];
        assert forall|i: int| 1 <= i < f.len() implies #[trigger] f[i] != '&' by {}
    }
    assert forall|k: int, l: int| 0 <= k < 6 && 0 <= l < 6 implies #[trigger] entity_texts()[k]
        != #[trigger] entity_names()[l] by {
        assert(entity_texts()[k].len() == 1);
        assert(entity_names()[l].len() >= 4);
    }
    assert forall|k: int| 1 <= k < 6 implies no_amp(#[trigger] entity_texts()[k]) by {
        let c = entity_texts()[k];
        assert forall|i: int| 0 <= i < c.len() implies #[trigger] c[i] != '&' by {}
    }
    assert(entity_texts()[0] =~= seq!['&']);
}

/// Each of the six entities, standing between text that holds no `&` (and,
/// after it, no `;`), is decoded to its character: `&quot;` to `"`,
/// `&amp;` to `&`, `&lt;` to `<`, `&gt;` to `>`, `&#39;` to `'` and
/// `&nbsp;` to a space; the text around it is kept as it is.
pub proof fn law_each_entity_is_decoded(x: Seq<char>, y: Seq<char>, e: int)
    requires
        no_amp(x),
        entity_free(y),
        0 <= e < 6,
    ensures
        decode_entities(x + entity_names()[e] + y) == x + entity_texts()[e] + y,
{
    lemma_entity_facts();
    let names = entity_names();
    let texts = entity_texts();
    let m0 = names[e];
    let m1 = if m0 == names[0] { texts[0] } else { m0 };
    lemma_entity_step(x, m0, y, names[0], texts[0]);
    let m2 = if m1 == names[1] { texts[1] } else { m1 };
    lemma_entity_step(x, m1, y, names[1], texts[1]);
    let m3 = if m2 == names[2] { texts[2] } else { m2 };
    lemma_entity_step(x, m2, y, names[2], texts[2]);
    let m4 = if m3 == names[3] { texts[3] } else { m3 };
    lemma_entity_step(x, m3, y, names[3], texts[3]);
    let m5 = if m4 == names[4] { texts[4] } else { m4 };
    lemma_entity_step(x, m4, y, names[4], texts[4]);
    let m6 = if m5 == names[5] { texts[5] } else { m5 };
    lemma_entity_step(x, m5, y, names[5], texts[5]);
    assert(m6 == texts[e]);
}

fn replace_literal(s: Vec<char>, from: &str, to: &str) -> (out: Vec<char>)
    ensures
        out@ == replace_all(s@, from@, to@),
{
    let f = chars_of(from);
    let t = chars_of(to);
    replace_chars(s.as_slice(), f.as_slice(), t.as_slice())
}

fn decode_entity_chars(s: Vec<char>) -> (out: Vec<char>)
    ensures
        out@ == decode_entities(s@),
{
    let s = replace_literal(s, "&amp;", "&");
    let s = replace_literal(s, "&lt;", "<");
    let s = replace_literal(s, "&gt;", ">");
    let s = replace_literal(s, "&quot;", "\"");
    let s = replace_literal(s, "&#39;", "'");
    replace_literal(s, "&nbsp;", " ")
}

/// Decodes `&amp;`, `&lt;`, `&gt;`, `&quot;`, `&#39;` and `&nbsp;`.
pub fn decode_html_entities(text: &str) -> (out: String)
    ensures
        out@ == decode_entities(text@),
{
    let cs = chars_of(text);
    let d = decode_entity_chars(cs);
    string_of(d.as_slice())
}

// ---------------------------------------------------------------------------
// Title
// ---------------------------------------------------------------------------

/// The decoded, trimmed text between `<title ...>` and `</title>`, if any.
pub open spec fn spec_html_title(h: Seq<char>) -> Option<Seq<char>> {
    let l = ascii_lower(h);
    match find(l, "<title"@) {
        None => None,
        Some(start) => match find(l.skip(start), ">"@) {
            None => None,
            Some(p) => {
                let open_end = start + p + 1;
                match find(l.skip(open_end), "</title>"@) {
                    None => None,
                    Some(q) => {
                        let t = decode_entities(trim(h.subrange(open_end, open_end + q)));
                        if t.len() == 0 {
                            None
                        } else {
                            Some(t)
                        }
                    },
                }
            },
        },
    }
}

/// The first `find` result lies inside the searched text.
proof fn lemma_found_inside(s: Seq<char>, needle: Seq<char>)
    ensures
        find(s, needle) matches Some(i) ==> 0 <= i && i + needle.len() <= s.len(),
{
    lemma_find_spec(s, needle);
}

/// The page title, decoded and trimmed; `None` when there is none or it is blank.
pub fn html_title(html: &str) -> (out: Option<String>)
    ensures
        crate::web_search::opt_view(out) == spec_html_title(html@),
{
    let h = chars_of(html);
    let l = ascii_lower_chars(h.as_slice());
    let open_tag = chars_of("<title");
    let gt = chars_of(">");
    let close_tag = chars_of("</title>");
    proof {
        reveal_strlit("<title");
        reveal_strlit(">");
        reveal_strlit("</title>");
        assert(l@.skip(0) == l@);
        lemma_found_inside(l@, open_tag@);
    }
    let start = find_from(l.as_slice(), open_tag.as_slice(), 0)?;
    proof {
        lemma_found_inside(l@.skip(start as int), gt@);
    }
    assert(start + open_tag@.len() <= l@.len());
    let p = find_from(l.as_slice(), gt.as_slice(), start)?;
    assert(find(l@.skip(start as int), gt@) == Some(p - start));
    assert(l@.skip(start as int).len() == l@.len() - start);
    assert(p + 1 <= l@.len());
    assert(p < l.len());
    let open_end = p + 1;
    proof {
        lemma_found_inside(l@.skip(open_end as int), close_tag@);
    }
    let end = find_from(l.as_slice(), close_tag.as_slice(), open_end)?;
    let inner = slice_range(h.as_slice(), open_end, end);
    let t = trim_chars(inner.as_slice());
    let d = decode_entity_chars(t);
    if d.len() == 0 {
        None
    } else {
        Some(string_of(d.as_slice()))
    }
}

// ---------------------------------------------------------------------------
// Removing non-content elements
// ---------------------------------------------------------------------------

/// The index of the last `c` in `s`.
pub open spec fn rfind_char(s: Seq<char>, c: char) -> Option<int>
    decreases s.len(),
{
    if s.len() == 0 {
        None
    } else if s.last() == c {
        Some(s.len() - 1)
    } else {
        rfind_char(s.drop_last(), c)
    }
}

/// A character that ends a tag's name.
pub open spec fn ends_tag_name(c: char) -> bool {
    c == '>' || is_ws(c)
}

/// The index of the first character of `s` that ends a tag's name.
pub open spec fn find_tag_name_end(s: Seq<char>) -> Option<int>
    decreases s.len(),
{
    if s.len() == 0 {
        None
    } else if ends_tag_name(s[0]) {
        Some(0)
    } else {
        match find_tag_name_end(s.drop_first()) {
            Some(j) => Some(j + 1),
            None => None,
        }
    }
}

proof fn lemma_tag_name_end_bounds(s: Seq<char>)
    ensures
        find_tag_name_end(s) matches Some(i) ==> 0 <= i < s.len(),
    decreases s.len(),
{
    if s.len() > 0 {
        lemma_tag_name_end_bounds(s.drop_first());
    }
}

/// Of two candidate removals `(start relative to the cursor, end)`, the one
/// that starts first; on a tie the one found first.
pub open spec fn earlier(acc: Option<(int, int)>, cand: Option<(int, int)>) -> Option<(int, int)> {
    match cand {
        Some((s, _)) => match acc {
            Some((a, _)) => if s < a {
                cand
            } else {
                acc
            },
            None => cand,
        },
        None => acc,
    }
}

/// The first `open ... close` block after the cursor `c` of the lowercased page `l`.
pub open spec fn block_removal(l: Seq<char>, c: int, open: Seq<char>, close: Seq<char>) -> Option<(int, int)> {
    match find(l.skip(c), open) {
        Some(s) => match find(l.skip(c + s), close) {
            Some(p) => Some((s, c + s + p + close.len())),
            None => None,
        },
        None => None,
    }
}

/// The element around a marker found at `pos` after the cursor: from the
/// last `<` before the marker to the matching closing tag. The tag's name is
/// read from the page at the offsets the remainder gives, as the extraction
/// has always done.
pub open spec fn marked_removal(l: Seq<char>, c: int, pos: int) -> Option<(int, int)> {
    let r = l.skip(c);
    let tag_start = match rfind_char(r.take(pos), '<') {
        Some(t) => t,
        None => pos,
    };
    let name_end = match find_tag_name_end(r.skip(tag_start)) {
        Some(p) => tag_start + p,
        None => tag_start + 1,
    };
    let close = "</"@ + l.subrange(tag_start + 1, name_end) + ">"@;
    match find(l.skip(c + name_end), close) {
        Some(q) => Some((tag_start, c + name_end + q + close.len())),
        None => None,
    }
}

/// The element marked by the first occurrence of `marker` after the cursor.
pub open spec fn marker_removal(l: Seq<char>, c: int, marker: Seq<char>) -> Option<(int, int)> {
    match find(l.skip(c), marker) {
        Some(p) => marked_removal(l, c, p),
        None => None,
    }
}

/// The first inline style that hides an element, after the cursor.
pub open spec fn hiding_style(l: Seq<char>, c: int) -> Option<int> {
    let r = l.skip(c);
    match find(r, "display:none"@) {
        Some(p) => Some(p),
        None => match find(r, "display: none"@) {
            Some(p) => Some(p),
            None => match find(r, "visibility:hidden"@) {
                Some(p) => Some(p),
                None => find(r, "visibility: hidden"@),
            },
        },
    }
}

pub open spec fn block_candidates(l: Seq<char>, c: int) -> Option<(int, int)> {
    let a = block_removal(l, c, "<script"@, "</script>"@);
    let a = earlier(a, block_removal(l, c, "<style"@, "</style>"@));
    let a = earlier(a, block_removal(l, c, "<nav"@, "</nav>"@));
    let a = earlier(a, block_removal(l, c, "<header"@, "</header>"@));
    let a = earlier(a, block_removal(l, c, "<footer"@, "</footer>"@));
    let a = earlier(a, block_removal(l, c, "<aside"@, "</aside>"@));
    earlier(a, block_removal(l, c, "<noscript"@, "</noscript>"@))
}

pub open spec fn attribute_candidates(l: Seq<char>, c: int, a: Option<(int, int)>) -> Option<(int, int)> {
    let a = earlier(a, marker_removal(l, c, "hidden"@));
    let a = earlier(a, marker_removal(l, c, "aria-hidden=\"true\""@));
    let a = earlier(a, marker_removal(l, c, "aria-hidden='true'"@));
    let a = earlier(a, marker_removal(l, c, "role=\"banner\""@));
    let a = earlier(a, marker_removal(l, c, "role='banner'"@));
    let a = earlier(a, marker_removal(l, c, "role=\"navigation\""@));
    let a = earlier(a, marker_removal(l, c, "role='navigation'"@));
    let a = earlier(a, marker_removal(l, c, "role=\"complementary\""@));
    let a = earlier(a, marker_removal(l, c, "role='complementary'"@));
    let a = earlier(a, marker_removal(l, c, "role=\"contentinfo\""@));
    earlier(a, marker_removal(l, c, "role='contentinfo'"@))
}

/// The next element to drop after the cursor: script, style and layout
/// blocks, elements marked hidden or with a non-content role, and elements
/// hidden by inline style; the one that starts first.
#[verifier::opaque]
pub open spec fn next_removal(l: Seq<char>, c: int) -> Option<(int, int)> {
    let a = attribute_candidates(l, c, block_candidates(l, c));
    match hiding_style(l, c) {
        Some(p) => earlier(a, marked_removal(l, c, p)),
        None => a,
    }
}

/// The page from the cursor on, without the elements `next_removal` finds.
pub open spec fn sanitize(h: Seq<char>, c: int) -> Seq<char>
    decreases h.len() - c,
{
    match next_removal(ascii_lower(h), c) {
        Some((s, e)) => if 0 <= c && 0 <= s && c + s < e <= h.len() {
            h.subrange(c, c + s) + sanitize(h, e)
        } else {
            h.skip(c)
        },
        None => h.skip(c),
    }
}

/// The characters outside tags, with a space for each tag opened.
pub open spec fn strip_tags(s: Seq<char>, in_tag: bool) -> Seq<char>
    decreases s.len(),
{
    if s.len() == 0 {
        seq![]
    } else {
        let c = s[0];
        let rest = s.drop_first();
        if c == '<' {
            seq![' '] + strip_tags(rest, true)
        } else if c == '>' {
            strip_tags(rest, false)
        } else if !in_tag {
            seq![c] + strip_tags(rest, in_tag)
        } else {
            strip_tags(rest, in_tag)
        }
    }
}

/// The readable text of a page.
pub open spec fn spec_html_to_text(h: Seq<char>) -> Seq<char> {
    collapse_ws(decode_entities(strip_tags(sanitize(h, 0), false)))
}

pub open spec fn opt_cut(o: Option<(usize, usize)>) -> Option<(int, int)> {
    match o {
        Some((s, e)) => Some((s as int, e as int)),
        None => None,
    }
}

/// A removal after cursor `c` ends after it and inside the page.
pub open spec fn cut_fits(o: Option<(usize, usize)>, c: int, len: int) -> bool {
    o matches Some((s, e)) ==> c + s < e <= len
}

fn rfind_between(s: &[char], from: usize, to: usize, ch: char) -> (out: Option<usize>)
    requires
        from <= to <= s.len(),
    ensures
        out matches Some(i) ==> from <= i < to && s@[i as int] == ch && rfind_char(
            s@.subrange(from as int, to as int),
            ch,
        ) == Some(i - from),
        out is None ==> rfind_char(s@.subrange(from as int, to as int), ch) is None,
{
    let mut j = to;
    while j > from
        invariant
            from <= j <= to <= s.len(),
            rfind_char(s@.subrange(from as int, to as int), ch) == rfind_char(
                s@.subrange(from as int, j as int),
                ch,
            ),
        decreases j,
    {
        let ghost t = s@.subrange(from as int, j as int);
        assert(t.drop_last() == s@.subrange(from as int, j - 1));
        if s[j - 1] == ch {
            return Some(j - 1);
        }
        j = j - 1;
    }
    None
}

fn tag_name_end_from(s: &[char], from: usize) -> (out: Option<usize>)
    requires
        from <= s.len(),
    ensures
        out matches Some(i) ==> from <= i < s.len() && find_tag_name_end(s@.skip(from as int))
            == Some(i - from),
        out is None ==> find_tag_name_end(s@.skip(from as int)) is None,
{
    let mut i = from;
    while i < s.len()
        invariant
            from <= i <= s.len(),
            find_tag_name_end(s@.skip(from as int)) == match find_tag_name_end(s@.skip(i as int)) {
                Some(j) => Some(j + (i - from)),
                None => None::<int>,
            },
        decreases s.len() - i,
    {
        let ghost t = s@.skip(i as int);
        assert(t.drop_first() == s@.skip(i + 1));
        if s[i] == '>' || is_whitespace(s[i]) {
            return Some(i);
        }
        i = i + 1;
    }
    None
}

fn pick_earlier(acc: Option<(usize, usize)>, cand: Option<(usize, usize)>) -> (out: Option<(usize, usize)>)
    ensures
        opt_cut(out) == earlier(opt_cut(acc), opt_cut(cand)),
        out == acc || out == cand,
{
    match cand {
        Some((s, _)) => match acc {
            Some((a, _)) => if s < a {
                cand
            } else {
                acc
            },
            None => cand,
        },
        None => acc,
    }
}

fn block_removal_exec(l: &[char], c: usize, open: &str, close: &str) -> (out: Option<(usize, usize)>)
    requires
        c <= l.len(),
        close@.len() > 0,
    ensures
        opt_cut(out) == block_removal(l@, c as int, open@, close@),
        cut_fits(out, c as int, l.len() as int),
{
    let o = chars_of(open);
    let cl = chars_of(close);
    proof {
        lemma_found_inside(l@.skip(c as int), o@);
    }
    let start = find_from(l, o.as_slice(), c)?;
    proof {
        lemma_found_inside(l@.skip(start as int), cl@);
    }
    let p = find_from(l, cl.as_slice(), start)?;
    Some((start - c, p + cl.len()))
}

#[verifier::spinoff_prover]
#[verifier::rlimit(40)]
fn marked_removal_exec(l: &[char], c: usize, pos: usize) -> (out: Option<(usize, usize)>)
    requires
        c + pos < l.len(),
        !ends_tag_name(l@[c + pos]),
    ensures
        opt_cut(out) == marked_removal(l@, c as int, pos as int),
        cut_fits(out, c as int, l.len() as int),
{
    let ghost r = l@.skip(c as int);
    assert(r.take(pos as int) == l@.subrange(c as int, c + pos));
    let tag_start = match rfind_between(l, c, c + pos, '<') {
        Some(t) => t - c,
        None => pos,
    };
    assert(!ends_tag_name(l@[c + tag_start]));
    assert(r.skip(tag_start as int) == l@.skip(c + tag_start));
    let name_end = match tag_name_end_from(l, c + tag_start) {
        Some(p) => {
            proof {
                let t = l@.skip(c + tag_start);
                assert(t.len() > 0);
                lemma_tag_name_end_bounds(t.drop_first());
                assert(t[0] == l@[c + tag_start]);
                assert(!ends_tag_name(t[0]));
                assert(find_tag_name_end(t) == match find_tag_name_end(t.drop_first()) {
                    Some(j) => Some(j + 1),
                    None => None::<int>,
                });
                assert(p - (c + tag_start) >= 1);
            }
            p - c
        },
        None => tag_start + 1,
    };
    let name = slice_range(l, tag_start + 1, name_end);
    let mut close: Vec<char> = Vec::new();
    close.push('<');
    close.push('/');
    let mut k: usize = 0;
    while k < name.len()
        invariant
            k <= name.len(),
            close@ == seq!['<', '/'] + name@.take(k as int),
        decreases name.len() - k,
    {
        close.push(name[k]);
        k = k + 1;
        assert(name@.take(k as int) == name@.take(k - 1).push(name@[k - 1]));
    }
    close.push('>');
    proof {
        reveal_strlit("</");
        reveal_strlit(">");
        assert(name@.take(name.len() as int) == name@);
        assert(close@ =~= "</"@ + l@.subrange(tag_start + 1, name_end as int) + ">"@);
        lemma_found_inside(l@.skip(c + name_end), close@);
    }
    let q = find_from(l, close.as_slice(), c + name_end)?;
    Some((tag_start, q + close.len()))
}

fn marker_removal_exec(l: &[char], c: usize, marker: &str) -> (out: Option<(usize, usize)>)
    requires
        c <= l.len(),
        marker@.len() > 0,
        !ends_tag_name(marker@[0]),
    ensures
        opt_cut(out) == marker_removal(l@, c as int, marker@),
        cut_fits(out, c as int, l.len() as int),
{
    let m = chars_of(marker);
    proof {
        lemma_find_spec(l@.skip(c as int), m@);
    }
    let p = find_from(l, m.as_slice(), c)?;
    assert(l@.skip(c as int).subrange(p - c, p - c + m@.len())[0] == l@[p as int]);
    marked_removal_exec(l, c, p - c)
}

fn hiding_style_exec(l: &[char], c: usize) -> (out: Option<usize>)
    requires
        c <= l.len(),
    ensures
        out matches Some(p) ==> hiding_style(l@, c as int) == Some(p as int) && c + p < l.len()
            && !ends_tag_name(l@[c + p]),
        out is None ==> hiding_style(l@, c as int) is None,
{
    let ghost r = l@.skip(c as int);
    let a = chars_of("display:none");
    let b = chars_of("display: none");
    let v = chars_of("visibility:hidden");
    let w = chars_of("visibility: hidden");
    proof {
        reveal_strlit("display:none");
        reveal_strlit("display: none");
        reveal_strlit("visibility:hidden");
        reveal_strlit("visibility: hidden");
        lemma_find_spec(r, a@);
        lemma_find_spec(r, b@);
        lemma_find_spec(r, v@);
        lemma_find_spec(r, w@);
    }
    let found = match find_from(l, a.as_slice(), c) {
        Some(p) => Some(p),
        None => match find_from(l, b.as_slice(), c) {
            Some(p) => Some(p),
            None => match find_from(l, v.as_slice(), c) {
                Some(p) => Some(p),
                None => find_from(l, w.as_slice(), c),
            },
        },
    };
    match found {
        Some(p) => {
            assert(r.subrange(p - c, p - c + 1)[0] == l@[p as int]);
            Some(p - c)
        },
        None => None,
    }
}

fn block_candidates_exec(l: &[char], c: usize) -> (out: Option<(usize, usize)>)
    requires
        c <= l.len(),
    ensures
        opt_cut(out) == block_candidates(l@, c as int),
        cut_fits(out, c as int, l.len() as int),
{
    proof {
        reveal_strlit("</script>");
        reveal_strlit("</style>");
        reveal_strlit("</nav>");
        reveal_strlit("</header>");
        reveal_strlit("</footer>");
        reveal_strlit("</aside>");
        reveal_strlit("</noscript>");
    }
    let a = block_removal_exec(l, c, "<script", "</script>");
    let a = pick_earlier(a, block_removal_exec(l, c, "<style", "</style>"));
    let a = pick_earlier(a, block_removal_exec(l, c, "<nav", "</nav>"));
    let a = pick_earlier(a, block_removal_exec(l, c, "<header", "</header>"));
    let a = pick_earlier(a, block_removal_exec(l, c, "<footer", "</footer>"));
    let a = pick_earlier(a, block_removal_exec(l, c, "<aside", "</aside>"));
    pick_earlier(a, block_removal_exec(l, c, "<noscript", "</noscript>"))
}

fn attribute_candidates_exec(l: &[char], c: usize, a: Option<(usize, usize)>) -> (out: Option<(usize, usize)>)
    requires
        c <= l.len(),
        cut_fits(a, c as int, l.len() as int),
    ensures
        opt_cut(out) == attribute_candidates(l@, c as int, opt_cut(a)),
        cut_fits(out, c as int, l.len() as int),
{
    proof {
        reveal_strlit("hidden");
        reveal_strlit("aria-hidden=\"true\"");
        reveal_strlit("aria-hidden='true'");
        reveal_strlit("role=\"banner\"");
        reveal_strlit("role='banner'");
        reveal_strlit("role=\"navigation\"");
        reveal_strlit("role='navigation'");
        reveal_strlit("role=\"complementary\"");
        reveal_strlit("role='complementary'");
        reveal_strlit("role=\"contentinfo\"");
        reveal_strlit("role='contentinfo'");
    }
    let a = pick_earlier(a, marker_removal_exec(l, c, "hidden"));
    let a = pick_earlier(a, marker_removal_exec(l, c, "aria-hidden=\"true\""));
    let a = pick_earlier(a, marker_removal_exec(l, c, "aria-hidden='true'"));
    let a = pick_earlier(a, marker_removal_exec(l, c, "role=\"banner\""));
    let a = pick_earlier(a, marker_removal_exec(l, c, "role='banner'"));
    let a = pick_earlier(a, marker_removal_exec(l, c, "role=\"navigation\""));
    let a = pick_earlier(a, marker_removal_exec(l, c, "role='navigation'"));
    let a = pick_earlier(a, marker_removal_exec(l, c, "role=\"complementary\""));
    let a = pick_earlier(a, marker_removal_exec(l, c, "role='complementary'"));
    let a = pick_earlier(a, marker_removal_exec(l, c, "role=\"contentinfo\""));
    pick_earlier(a, marker_removal_exec(l, c, "role='contentinfo'"))
}

fn next_removal_exec(l: &[char], c: usize) -> (out: Option<(usize, usize)>)
    requires
        c <= l.len(),
    ensures
        opt_cut(out) == next_removal(l@, c as int),
        cut_fits(out, c as int, l.len() as int),
{
    reveal(next_removal);
    let blocks = block_candidates_exec(l, c);
    let a = attribute_candidates_exec(l, c, blocks);
    match hiding_style_exec(l, c) {
        Some(p) => pick_earlier(a, marked_removal_exec(l, c, p)),
        None => a,
    }
}

fn strip_tag_chars(s: &[char]) -> (out: Vec<char>)
    ensures
        out@ == strip_tags(s@, false),
{
    let mut out: Vec<char> = Vec::new();
    let mut in_tag = false;
    let mut i: usize = 0;
    assert(s@.skip(0) == s@);
    while i < s.len()
        invariant
            i <= s.len(),
            out@ + strip_tags(s@.skip(i as int), in_tag) == strip_tags(s@, false),
        decreases s.len() - i,
    {
        let ghost t = s@.skip(i as int);
        assert(t.drop_first() == s@.skip(i + 1));
        assert(t[0] == s@[i as int]);
        let c = s[i];
        let ghost before = out@;
        if c == '<' {
            in_tag = true;
            out.push(' ');
            assert(before + strip_tags(t, !in_tag || in_tag) == out@ + strip_tags(s@.skip(i + 1), in_tag));
        } else if c == '>' {
            in_tag = false;
        } else if !in_tag {
            out.push(c);
            assert(before + (seq![c] + strip_tags(s@.skip(i + 1), in_tag)) == out@ + strip_tags(
                s@.skip(i + 1),
                in_tag,
            ));
        }
        i = i + 1;
    }
    assert(s@.skip(s.len() as int) =~= Seq::<char>::empty());
    out
}

fn extend_chars(v: &mut Vec<char>, piece: &[char])
    ensures
        final(v)@ == old(v)@ + piece@,
{
    let mut k: usize = 0;
    while k < piece.len()
        invariant
            k <= piece.len(),
            v@ == old(v)@ + piece@.take(k as int),
        decreases piece.len() - k,
    {
        v.push(piece[k]);
        k = k + 1;
        assert(piece@.take(k as int) == piece@.take(k - 1).push(piece@[k - 1]));
    }
    assert(piece@.take(piece.len() as int) == piece@);
}

#[verifier::spinoff_prover]
fn sanitize_chars(h: &[char], l: &[char]) -> (out: Vec<char>)
    requires
        l@ == ascii_lower(h@),
    ensures
        out@ == sanitize(h@, 0),
{
    let mut sanitized: Vec<char> = Vec::new();
    let mut cursor: usize = 0;
    let mut done = false;
    while !done
        invariant
            cursor <= h.len(),
            l@ == ascii_lower(h@),
            l.len() == h.len(),
            done ==> sanitized@ == sanitize(h@, 0),
            !done ==> sanitized@ + sanitize(h@, cursor as int) == sanitize(h@, 0),
        decreases h.len() - cursor + (if done { 0int } else { 1int }),
    {
        match next_removal_exec(l, cursor) {
            Some((start, end)) => {
                let piece = slice_range(h, cursor, cursor + start);
                let ghost before = sanitized@;
                extend_chars(&mut sanitized, piece.as_slice());
                assert(sanitize(h@, cursor as int) == piece@ + sanitize(h@, end as int));
                assert(before + (piece@ + sanitize(h@, end as int)) == sanitized@ + sanitize(
                    h@,
                    end as int,
                ));
                cursor = end;
            },
            None => {
                let rest = slice_range(h, cursor, h.len());
                extend_chars(&mut sanitized, rest.as_slice());
                assert(h@.subrange(cursor as int, h.len() as int) == h@.skip(cursor as int));
                done = true;
            },
        }
    }
    sanitized
}

/// The readable text of an HTML page: scripts, styles, navigation, headers,
/// footers, asides, `noscript` blocks and elements marked hidden (by the
/// `hidden` attribute, `aria-hidden`, a non-content role or an inline style)
/// are dropped, tags become spaces, entities are decoded and whitespace
/// runs collapse to single spaces.
pub fn html_to_text(html: &str) -> (out: String)
    ensures
        out@ == spec_html_to_text(html@),
{
    let h = chars_of(html);
    let l = ascii_lower_chars(h.as_slice());
    let sanitized = sanitize_chars(h.as_slice(), l.as_slice());
    let stripped = strip_tag_chars(sanitized.as_slice());
    let decoded = decode_entity_chars(stripped);
    let collapsed = collapse_whitespace(decoded.as_slice());
    string_of(collapsed.as_slice())
}

// ---------------------------------------------------------------------------
// Addresses
// ---------------------------------------------------------------------------

/// An IP address, as its octets or its eight 16-bit segments.
#[derive(Clone, Copy, Debug, PartialEq, Eq, Structural)]
pub enum IpAddress {
    V4(u8, u8, u8, u8),
    V6(u16, u16, u16, u16, u16, u16, u16, u16),
}

/// An IPv4 address that is private, loopback, link-local, broadcast,
/// documentation, unspecified, in `0.0.0.0/8`, multicast or reserved
/// (`224.0.0.0` and above) or shared address space (`100.64.0.0/10`).
pub open spec fn unsafe_v4(a: u8, b: u8, c: u8, d: u8) -> bool {
    ||| a == 10
    ||| (a == 172 && 16 <= b <= 31)
    ||| (a == 192 && b == 168)
    ||| a == 127
    ||| (a == 169 && b == 254)
    ||| (a == 255 && b == 255 && c == 255 && d == 255)
    ||| (a == 192 && b == 0 && c == 2)
    ||| (a == 198 && b == 51 && c == 100)
    ||| (a == 203 && b == 0 && c == 113)
    ||| (a == 0 && b == 0 && c == 0 && d == 0)
    ||| a == 0
    ||| a >= 224
    ||| (a == 100 && 64 <= b <= 127)
}

/// Whether an address must not be fetched: loopback, unspecified, unique
/// local (`fc00::/7`), link-local (`fe80::/10`), multicast (`ff00::/8`), or an
/// IPv4-mapped address (`::ffff:a.b.c.d`) whose IPv4 address is unsafe.
pub open spec fn spec_unsafe_address(ip: IpAddress) -> bool {
    match ip {
        IpAddress::V4(a, b, c, d) => unsafe_v4(a, b, c, d),
        IpAddress::V6(s0, s1, s2, s3, s4, s5, s6, s7) => {
            let zero_prefix = s0 == 0 && s1 == 0 && s2 == 0 && s3 == 0 && s4 == 0;
            ||| (zero_prefix && s5 == 0 && s6 == 0 && s7 == 1)
            ||| (zero_prefix && s5 == 0 && s6 == 0 && s7 == 0)
            ||| (0xfc00 <= s0 <= 0xfdff)
            ||| (0xfe80 <= s0 <= 0xfebf)
            ||| s0 >= 0xff00
            ||| (zero_prefix && s5 == 0xffff && unsafe_v4(
                (s6 / 256) as u8,
                (s6 % 256) as u8,
                (s7 / 256) as u8,
                (s7 % 256) as u8,
            ))
        },
    }
}

fn unsafe_v4_exec(a: u8, b: u8, c: u8, d: u8) -> (out: bool)
    ensures
        out == unsafe_v4(a, b, c, d),
{
    a == 10 || (a == 172 && 16 <= b && b <= 31) || (a == 192 && b == 168) || a == 127 || (a
        == 169 && b == 254) || (a == 255 && b == 255 && c == 255 && d == 255) || (a == 192 && b
        == 0 && c == 2) || (a == 198 && b == 51 && c == 100) || (a == 203 && b == 0 && c == 113)
        || (a == 0 && b == 0 && c == 0 && d == 0) || a == 0 || a >= 224 || (a == 100 && 64 <= b
        && b <= 127)
}

/// Refuses addresses on the local machine or a private network.
pub fn validate_public_ip(ip: IpAddress) -> (out: Result<(), crate::web_search::WebSearchError>)
    ensures
        out is Ok <==> !spec_unsafe_address(ip),
        out is Err ==> out == Err::<(), _>(crate::web_search::WebSearchError::UnsafeAddress),
{
    let unsafe_address = match ip {
        IpAddress::V4(a, b, c, d) => unsafe_v4_exec(a, b, c, d),
        IpAddress::V6(s0, s1, s2, s3, s4, s5, s6, s7) => {
            let zero_prefix = s0 == 0 && s1 == 0 && s2 == 0 && s3 == 0 && s4 == 0;
            (zero_prefix && s5 == 0 && s6 == 0 && s7 == 1) || (zero_prefix && s5 == 0 && s6 == 0
                && s7 == 0) || (0xfc00 <= s0 && s0 <= 0xfdff) || (0xfe80 <= s0 && s0 <= 0xfebf)
                || s0 >= 0xff00 || (zero_prefix && s5 == 0xffff && unsafe_v4_exec(
                (s6 / 256) as u8,
                (s6 % 256) as u8,
                (s7 / 256) as u8,
                (s7 % 256) as u8,
            ))
        },
    };
    if unsafe_address {
        Err(crate::web_search::WebSearchError::UnsafeAddress)
    } else {
        Ok(())
    }
}

/// Every address a host resolved to must be public; a host that resolved to
/// nothing is an invalid URL.
pub fn validate_resolved_addresses(addresses: &[IpAddress]) -> (out: Result<(), crate::web_search::WebSearchError>)
    ensures
        addresses@.len() == 0 ==> out == Err::<(), _>(crate::web_search::WebSearchError::InvalidUrl),
        addresses@.len() > 0 ==> (out is Ok <==> forall|i: int|
            0 <= i < addresses@.len() ==> !spec_unsafe_address(#[trigger] addresses@[i])),
        addresses@.len() > 0 && out is Err ==> out == Err::<(), _>(
            crate::web_search::WebSearchError::UnsafeAddress,
        ),
{
    if addresses.len() == 0 {
        return Err(crate::web_search::WebSearchError::InvalidUrl);
    }
    let mut i: usize = 0;
    while i < addresses.len()
        invariant
            i <= addresses@.len(),
            forall|j: int| 0 <= j < i ==> !spec_unsafe_address(#[trigger] addresses@[j]),
        decreases addresses@.len() - i,
    {
        validate_public_ip(addresses[i])?;
        i = i + 1;
    }
    Ok(())
}

/// The host of a parsed URL: a domain, or an IPv4 or IPv6 address given as
/// its number (the octets or segments in big-endian order).
#[derive(Clone, Debug)]
pub enum ParsedHost {
    Domain(String),
    V4(u32),
    V6(u128),
}

pub enum HostView {
    Domain(Seq<char>),
    V4(u32),
    V6(u128),
}

impl View for ParsedHost {
    type V = HostView;

    open spec fn view(&self) -> HostView {
        match self {
            ParsedHost::Domain(d) => HostView::Domain(d@),
            ParsedHost::V4(n) => HostView::V4(*n),
            ParsedHost::V6(n) => HostView::V6(*n),
        }
    }
}

pub open spec fn opt_host_view(h: Option<ParsedHost>) -> Option<HostView> {
    match h {
        Some(x) => Some(x@),
        None => None,
    }
}

/// The parts of a parsed URL that the address checks read; `port` is the
/// explicit port or the scheme's default.
#[derive(Clone, Debug)]
pub struct UrlParts {
    pub scheme: String,
    pub username: String,
    pub has_password: bool,
    pub host: Option<ParsedHost>,
    pub port: Option<u16>,
}

pub struct UrlPartsView {
    pub scheme: Seq<char>,
    pub username: Seq<char>,
    pub has_password: bool,
    pub host: Option<HostView>,
    pub port: Option<u16>,
}

impl View for UrlParts {
    type V = UrlPartsView;

    open spec fn view(&self) -> UrlPartsView {
        UrlPartsView {
            scheme: self.scheme@,
            username: self.username@,
            has_password: self.has_password,
            host: opt_host_view(self.host),
            port: self.port,
        }
    }
}

/// What `url::Url::parse` makes of a URL, as far as the checks read it.
pub uninterp spec fn spec_url_parts(url: Seq<char>) -> Option<UrlPartsView>;

/// Calls `Url::parse` and reads `scheme`, `username`, `password`, `host`
/// (an address by `u32::from` or `u128::from`) and `port_or_known_default`.
/// Trusted: the result is named `spec_url_parts`; it is `None` exactly when
/// the URL does not parse.
#[verifier::external_body]
fn url_parts(url: &str) -> (out: Option<UrlParts>)
    ensures
        match out {
            Some(p) => spec_url_parts(url@) == Some(p@),
            None => spec_url_parts(url@) is None,
        },
{
    let parsed = url::Url::parse(url).ok()?;
    let host = match parsed.host() {
        Some(url::Host::Domain(domain)) => Some(ParsedHost::Domain(domain.to_string())),
        Some(url::Host::Ipv4(address)) => Some(ParsedHost::V4(u32::from(address))),
        Some(url::Host::Ipv6(address)) => Some(ParsedHost::V6(u128::from(address))),
        None => None,
    };
    let username = parsed.username().to_string();
    let has_password = parsed.password().is_some();
    Some(UrlParts { scheme: parsed.scheme().to_string(), username, has_password, host, port: parsed.port_or_known_default() })
}

/// The IPv4 address with number `n`.
pub open spec fn v4_address(n: u32) -> IpAddress {
    IpAddress::V4(
        (n / 0x1000000) as u8,
        ((n / 0x10000) % 0x100) as u8,
        ((n / 0x100) % 0x100) as u8,
        (n % 0x100) as u8,
    )
}

/// The IPv6 address with number `n`.
pub open spec fn v6_address(n: u128) -> IpAddress {
    IpAddress::V6(
        (n / 0x10000_0000_0000_0000_0000_0000_0000) as u16,
        ((n / 0x1_0000_0000_0000_0000_0000_0000) % 0x10000) as u16,
        ((n / 0x1_0000_0000_0000_0000_0000) % 0x10000) as u16,
        ((n / 0x1_0000_0000_0000_0000) % 0x10000) as u16,
        ((n / 0x1_0000_0000_0000) % 0x10000) as u16,
        ((n / 0x1_0000_0000) % 0x10000) as u16,
        ((n / 0x1_0000) % 0x10000) as u16,
        (n % 0x10000) as u16,
    )
}

fn v4_of(n: u32) -> (out: IpAddress)
    ensures
        out == v4_address(n),
{
    IpAddress::V4(
        (n / 0x1000000) as u8,
        ((n / 0x10000) % 0x100) as u8,
        ((n / 0x100) % 0x100) as u8,
        (n % 0x100) as u8,
    )
}

fn v6_of(n: u128) -> (out: IpAddress)
    ensures
        out == v6_address(n),
{
    IpAddress::V6(
        (n / 0x10000_0000_0000_0000_0000_0000_0000) as u16,
        ((n / 0x1_0000_0000_0000_0000_0000_0000) % 0x10000) as u16,
        ((n / 0x1_0000_0000_0000_0000_0000) % 0x10000) as u16,
        ((n / 0x1_0000_0000_0000_0000) % 0x10000) as u16,
        ((n / 0x1_0000_0000_0000) % 0x10000) as u16,
        ((n / 0x1_0000_0000) % 0x10000) as u16,
        ((n / 0x1_0000) % 0x10000) as u16,
        (n % 0x10000) as u16,
    )
}

/// What to connect to once a URL passed the checks.
#[derive(Clone, Debug)]
pub enum FetchTarget {
    /// A literal public address: connect to it directly.
    Address(IpAddress, u16),
    /// A name to resolve; each resolved address must then pass
    /// `validate_resolved_addresses`.
    Lookup(String, u16),
}

pub enum TargetView {
    Address(IpAddress, u16),
    Lookup(Seq<char>, u16),
}

pub open spec fn target_view(r: Result<FetchTarget, crate::web_search::WebSearchError>) -> Result<TargetView, crate::web_search::WebSearchError> {
    match r {
        Ok(FetchTarget::Address(ip, p)) => Ok(TargetView::Address(ip, p)),
        Ok(FetchTarget::Lookup(name, p)) => Ok(TargetView::Lookup(name@, p)),
        Err(e) => Err(e),
    }
}

pub open spec fn is_localhost_name(host: Seq<char>) -> bool {
    ascii_lower(host) == "localhost"@ || crate::text::ends_with(host, ".localhost"@)
}

/// The checks a URL must pass before anything is fetched from it: HTTP(S)
/// only, no credentials, a host, no `localhost` name, a public literal
/// address, and a known port.
pub open spec fn spec_fetch_target(
    scheme: Seq<char>,
    has_credentials: bool,
    host: Option<HostView>,
    port: Option<u16>,
) -> Result<TargetView, crate::web_search::WebSearchError> {
    if scheme != "http"@ && scheme != "https"@ {
        Err(crate::web_search::WebSearchError::UnsupportedScheme)
    } else if has_credentials {
        Err(crate::web_search::WebSearchError::InvalidUrl)
    } else {
        match host {
            None => Err(crate::web_search::WebSearchError::InvalidUrl),
            Some(HostView::Domain(name)) => if is_localhost_name(name) {
                Err(crate::web_search::WebSearchError::UnsafeAddress)
            } else {
                match port {
                    Some(p) => Ok(TargetView::Lookup(name, p)),
                    None => Err(crate::web_search::WebSearchError::InvalidUrl),
                }
            },
            Some(h) => {
                let ip = match h {
                    HostView::V4(n) => v4_address(n),
                    HostView::V6(n) => v6_address(n),
                    HostView::Domain(_) => v4_address(0),
                };
                if spec_unsafe_address(ip) {
                    Err(crate::web_search::WebSearchError::UnsafeAddress)
                } else {
                    match port {
                        Some(p) => Ok(TargetView::Address(ip, p)),
                        None => Err(crate::web_search::WebSearchError::InvalidUrl),
                    }
                }
            },
        }
    }
}

/// The target of a fetch from the parts of its URL, or why the URL is
/// refused before any lookup.
pub fn fetch_target(scheme: &str, has_credentials: bool, host: Option<ParsedHost>, port: Option<u16>) -> (out: Result<FetchTarget, crate::web_search::WebSearchError>)
    ensures
        target_view(out) == spec_fetch_target(scheme@, has_credentials, opt_host_view(host), port),
{
    let http = crate::text::same_text(scheme, "http");
    let https = crate::text::same_text(scheme, "https");
    if !http && !https {
        return Err(crate::web_search::WebSearchError::UnsupportedScheme);
    }
    if has_credentials {
        return Err(crate::web_search::WebSearchError::InvalidUrl);
    }
    let ip = match host {
        None => return Err(crate::web_search::WebSearchError::InvalidUrl),
        Some(ParsedHost::Domain(name)) => {
            let cs = chars_of(name.as_str());
            let lower = ascii_lower_chars(cs.as_slice());
            let local = chars_of("localhost");
            let dot_local = chars_of(".localhost");
            if crate::text::slices_equal(lower.as_slice(), local.as_slice())
                || crate::text::ends_with_chars(cs.as_slice(), dot_local.as_slice()) {
                return Err(crate::web_search::WebSearchError::UnsafeAddress);
            }
            return match port {
                Some(p) => Ok(FetchTarget::Lookup(name, p)),
                None => Err(crate::web_search::WebSearchError::InvalidUrl),
            };
        },
        Some(ParsedHost::V4(n)) => v4_of(n),
        Some(ParsedHost::V6(n)) => v6_of(n),
    };
    validate_public_ip(ip)?;
    match port {
        Some(p) => Ok(FetchTarget::Address(ip, p)),
        None => Err(crate::web_search::WebSearchError::InvalidUrl),
    }
}

/// The target of a fetch from a URL: one that does not parse is invalid;
/// otherwise the checks of `fetch_target` apply, a username or a password
/// counting as credentials.
pub open spec fn spec_url_target(url: Seq<char>) -> Result<TargetView, crate::web_search::WebSearchError> {
    match spec_url_parts(url) {
        None => Err(crate::web_search::WebSearchError::InvalidUrl),
        Some(p) => spec_fetch_target(p.scheme, p.username.len() > 0 || p.has_password, p.host, p.port),
    }
}

/// Checks a URL before anything is fetched from it and gives what to
/// connect to: a public literal address, or a name whose addresses must be
/// looked up and checked with `validate_resolved_addresses`.
pub fn validate_public_url(url: &str) -> (out: Result<FetchTarget, crate::web_search::WebSearchError>)
    ensures
        target_view(out) == spec_url_target(url@),
{
    match url_parts(url) {
        None => Err(crate::web_search::WebSearchError::InvalidUrl),
        Some(p) => {
            let credentials = !p.username.as_str().is_empty() || p.has_password;
            fetch_target(p.scheme.as_str(), credentials, p.host, p.port)
        },
    }
}

// ---------------------------------------------------------------------------
// Images in rendered Markdown
// ---------------------------------------------------------------------------

/// An IPv4 address that an image must not be loaded from: private,
/// loopback, link-local, unspecified or broadcast.
pub open spec fn image_blocked_v4(ip: IpAddress) -> bool {
    match ip {
        IpAddress::V4(a, b, c, d) => {
            ||| a == 10
            ||| (a == 172 && 16 <= b <= 31)
            ||| (a == 192 && b == 168)
            ||| a == 127
            ||| (a == 169 && b == 254)
            ||| (a == 0 && b == 0 && c == 0 && d == 0)
            ||| (a == 255 && b == 255 && c == 255 && d == 255)
        },
        IpAddress::V6(..) => false,
    }
}

/// An IPv6 address that an image must not be loaded from: loopback,
/// unspecified, unique local, unicast link-local, or an IPv4-mapped address
/// that is private, loopback, link-local or unspecified.
pub open spec fn image_blocked_v6(ip: IpAddress) -> bool {
    match ip {
        IpAddress::V6(s0, s1, s2, s3, s4, s5, s6, s7) => {
            let zero_prefix = s0 == 0 && s1 == 0 && s2 == 0 && s3 == 0 && s4 == 0;
            let a = (s6 / 256) as u8;
            let b = (s6 % 256) as u8;
            let c = (s7 / 256) as u8;
            let d = (s7 % 256) as u8;
            ||| (zero_prefix && s5 == 0 && s6 == 0 && s7 == 1)
            ||| (zero_prefix && s5 == 0 && s6 == 0 && s7 == 0)
            ||| (0xfc00 <= s0 <= 0xfdff)
            ||| (0xfe80 <= s0 <= 0xfebf)
            ||| (zero_prefix && s5 == 0xffff && (a == 10 || (a == 172 && 16 <= b <= 31) || (a == 192
                && b == 168) || a == 127 || (a == 169 && b == 254) || (a == 0 && b == 0 && c == 0
                && d == 0)))
        },
        IpAddress::V4(..) => false,
    }
}

/// `s` without its trailing dots.
pub open spec fn trim_trailing_dots(s: Seq<char>) -> Seq<char>
    decreases s.len(),
{
    if s.len() > 0 && s.last() == '.' {
        trim_trailing_dots(s.drop_last())
    } else {
        s
    }
}

/// Whether an image may be loaded from a URL: HTTP(S), no username, and a
/// host that is neither `localhost` (trailing dots and ASCII case aside) nor
/// an address on the local machine or a private network.
pub open spec fn spec_remote_image_url_is_safe(url: Seq<char>) -> bool {
    match spec_url_parts(url) {
        None => false,
        Some(p) => {
            &&& (p.scheme == "http"@ || p.scheme == "https"@)
            &&& p.username.len() == 0
            &&& match p.host {
                None => false,
                Some(HostView::Domain(d)) => {
                    let name = ascii_lower(trim_trailing_dots(d));
                    name != "localhost"@ && !crate::text::ends_with(name, ".localhost"@)
                },
                Some(HostView::V4(n)) => !image_blocked_v4(v4_address(n)),
                Some(HostView::V6(n)) => !image_blocked_v6(v6_address(n)),
            }
        },
    }
}

/// Whether an image linked from Markdown may be loaded from `url`.
pub fn remote_image_url_is_safe(url: &str) -> (out: bool)
    ensures
        out == spec_remote_image_url_is_safe(url@),
{
    let p = match url_parts(url) {
        None => return false,
        Some(p) => p,
    };
    let http = crate::text::same_text(p.scheme.as_str(), "http");
    let https = crate::text::same_text(p.scheme.as_str(), "https");
    if !(http || https) || !p.username.as_str().is_empty() {
        return false;
    }
    match p.host {
        None => false,
        Some(ParsedHost::Domain(d)) => {
            let cs = chars_of(d.as_str());
            let mut end = cs.len();
            assert(cs@.take(end as int) == cs@);
            while end > 0 && cs[end - 1] == '.'
                invariant
                    end <= cs.len(),
                    trim_trailing_dots(cs@) == trim_trailing_dots(cs@.take(end as int)),
                decreases end,
            {
                assert(cs@.take(end as int).drop_last() == cs@.take(end - 1));
                end = end - 1;
            }
            let trimmed = crate::text::slice_range(cs.as_slice(), 0, end);
            assert(trimmed@ == cs@.take(end as int));
            let name = ascii_lower_chars(trimmed.as_slice());
            let local = chars_of("localhost");
            let dot_local = chars_of(".localhost");
            !crate::text::slices_equal(name.as_slice(), local.as_slice())
                && !crate::text::ends_with_chars(name.as_slice(), dot_local.as_slice())
        },
        Some(ParsedHost::V4(n)) => {
            let ip = v4_of(n);
            match ip {
                IpAddress::V4(a, b, c, d) => !(a == 10 || (a == 172 && 16 <= b && b <= 31) || (a
                    == 192 && b == 168) || a == 127 || (a == 169 && b == 254) || (a == 0 && b == 0
                    && c == 0 && d == 0) || (a == 255 && b == 255 && c == 255 && d == 255)),
                IpAddress::V6(..) => true,
            }
        },
        Some(ParsedHost::V6(n)) => {
            let ip = v6_of(n);
            match ip {
                IpAddress::V6(s0, s1, s2, s3, s4, s5, s6, s7) => {
                    let zero_prefix = s0 == 0 && s1 == 0 && s2 == 0 && s3 == 0 && s4 == 0;
                    let a = (s6 / 256) as u8;
                    let b = (s6 % 256) as u8;
                    let c = (s7 / 256) as u8;
                    let d = (s7 % 256) as u8;
                    !((zero_prefix && s5 == 0 && s6 == 0 && s7 == 1) || (zero_prefix && s5 == 0
                        && s6 == 0 && s7 == 0) || (0xfc00 <= s0 && s0 <= 0xfdff) || (0xfe80 <= s0
                        && s0 <= 0xfebf) || (zero_prefix && s5 == 0xffff && (a == 10 || (a == 172
                        && 16 <= b && b <= 31) || (a == 192 && b == 168) || a == 127 || (a == 169
                        && b == 254) || (a == 0 && b == 0 && c == 0 && d == 0))))
                },
                IpAddress::V4(..) => true,
            }
        },
    }
}

// ---------------------------------------------------------------------------
// Statuses and retries
// ---------------------------------------------------------------------------

/// A status worth retrying after a pause: rate limits and gateway errors.
pub open spec fn spec_is_transient_status(status: u16) -> bool {
    status == 429 || status == 502 || status == 503 || status == 504
}

pub fn is_transient_status(status: u16) -> (out: bool)
    ensures
        out == spec_is_transient_status(status),
{
    status == 429 || status == 502 || status == 503 || status == 504
}

/// The statuses retried after a pause are exactly 429 (Too Many
/// Requests), 502 (Bad Gateway), 503 (Service Unavailable) and 504
/// (Gateway Timeout): each of them is retried on every attempt below the
/// retry limit, and no other status ever is.
pub proof fn law_retried_statuses(status: u16)
    ensures
        spec_is_transient_status(status) <==> (status == 429 || status == 502 || status == 503
            || status == 504),
{
}

/// Whether a request that got `status` on try number `attempt` (from 0) is sent again.
pub fn should_retry_status(status: u16, attempt: usize) -> (out: bool)
    ensures
        out == (spec_is_transient_status(status) && attempt < crate::web_search::MAX_RATE_LIMIT_RETRIES),
{
    is_transient_status(status) && attempt < crate::web_search::MAX_RATE_LIMIT_RETRIES
}

/// What to do with the answer to one request of a page fetch.
#[derive(Clone, Copy, Debug, PartialEq, Eq, Structural)]
pub enum RedirectStep {
    /// Not a redirection: the answer is the page.
    Done,
    /// Follow the `Location` header to the next address.
    Follow,
    /// The redirect limit is reached: give up with `TooManyRedirects`.
    TooMany,
}

/// The step after request number `redirect_count` (from 0) of a fetch:
/// a non-redirection ends it, and redirects are followed until
/// `MAX_REDIRECTS` of them have been followed.
pub fn redirect_step(redirect_count: usize, is_redirection: bool) -> (out: RedirectStep)
    ensures
        !is_redirection ==> out == RedirectStep::Done,
        is_redirection && redirect_count >= crate::web_search::MAX_REDIRECTS ==> out == RedirectStep::TooMany,
        is_redirection && redirect_count < crate::web_search::MAX_REDIRECTS ==> out == RedirectStep::Follow,
{
    if !is_redirection {
        RedirectStep::Done
    } else if redirect_count >= crate::web_search::MAX_REDIRECTS {
        RedirectStep::TooMany
    } else {
        RedirectStep::Follow
    }
}

/// What `StatusCode::canonical_reason` gives for a valid status code.
pub uninterp spec fn spec_status_reason(code: u16) -> Option<Seq<char>>;

/// Calls `StatusCode::from_u16` and `StatusCode::canonical_reason`.
/// Trusted: the reason phrase is named `spec_status_reason`; the code must
/// be a valid status (100 to 999), as `from_u16` requires.
#[verifier::external_body]
fn status_reason(code: u16) -> (out: Option<&'static str>)
    requires
        100 <= code <= 999,
    ensures
        crate::web_search::opt_str_view(out) == spec_status_reason(code),
{
    reqwest::StatusCode::from_u16(code).ok().and_then(|status| status.canonical_reason())
}

/// How a status code is displayed: the number and its reason phrase.
pub open spec fn spec_status_text(code: u16) -> Seq<char> {
    crate::text::decimal(code as nat) + " "@ + match spec_status_reason(code) {
        Some(r) => r,
        None => "<unknown status code>"@,
    }
}

/// Maps a response status to success or the matching error: 401 and 403
/// reject the key, 429 is a rate limit, any other status outside 200..=299
/// is reported with its code and reason.
pub fn map_status(status: u16) -> (out: Result<(), crate::web_search::WebSearchError>)
    requires
        100 <= status <= 999,
    ensures
        status == 401 || status == 403 ==> out == Err::<(), _>(crate::web_search::WebSearchError::Unauthorized),
        status == 429 ==> out == Err::<(), _>(crate::web_search::WebSearchError::RateLimited),
        200 <= status <= 299 ==> out is Ok,
        !(status == 401 || status == 403 || status == 429 || 200 <= status <= 299) ==> (
            out matches Err(crate::web_search::WebSearchError::ProviderUnavailable(m))
            && m@ == "HTTP "@ + spec_status_text(status)),
{
    if status == 401 || status == 403 {
        return Err(crate::web_search::WebSearchError::Unauthorized);
    }
    if status == 429 {
        return Err(crate::web_search::WebSearchError::RateLimited);
    }
    if 200 <= status && status <= 299 {
        return Ok(());
    }
    let mut m = crate::text::copy_string("HTTP ");
    let text = status_text(status);
    crate::text::push_str_chars(&mut m, text.as_str());
    Err(crate::web_search::WebSearchError::ProviderUnavailable(m))
}

/// A status code as it is displayed: the number and its reason phrase.
pub fn status_text(status: u16) -> (out: String)
    requires
        100 <= status <= 999,
    ensures
        out@ == spec_status_text(status),
{
    let digits = crate::text::decimal_chars(status as u64);
    let mut m = crate::text::string_of(digits.as_slice());
    crate::text::push_str_chars(&mut m, " ");
    match status_reason(status) {
        Some(r) => crate::text::push_str_chars(&mut m, r),
        None => crate::text::push_str_chars(&mut m, "<unknown status code>"),
    }
    m
}

/// Whether every character is an ASCII digit.
pub open spec fn all_digits(s: Seq<char>) -> bool {
    forall|i: int| 0 <= i < s.len() ==> '0' <= #[trigger] s[i] <= '9'
}

/// The number the decimal digits `s` spell.
pub open spec fn digits_value(s: Seq<char>) -> nat
    decreases s.len(),
{
    if s.len() == 0 {
        0
    } else {
        digits_value(s.drop_last()) * 10 + ((s.last() as u32) - ('0' as u32)) as nat
    }
}

/// What `u64::from_str` accepts: an optional `+`, then at least one ASCII
/// digit, with a value that fits in 64 bits.
pub open spec fn spec_parse_u64(s: Seq<char>) -> Option<u64> {
    let digits = if s.len() > 0 && s[0] == '+' {
        s.drop_first()
    } else {
        s
    };
    if digits.len() > 0 && all_digits(digits) && digits_value(digits) <= u64::MAX {
        Some(digits_value(digits) as u64)
    } else {
        None
    }
}

/// `u64::from_str` on characters.
pub fn parse_u64(s: &[char]) -> (out: Option<u64>)
    ensures
        out == spec_parse_u64(s@),
{
    let start: usize = if s.len() > 0 && s[0] == '+' {
        1
    } else {
        0
    };
    let ghost digits = s@.skip(start as int);
    assert(start == 1 ==> digits == s@.drop_first());
    assert(start == 0 ==> digits == s@);
    if start >= s.len() {
        return None;
    }
    let mut value: u64 = 0;
    let mut i = start;
    while i < s.len()
        invariant
            start <= i <= s.len(),
            digits == s@.skip(start as int),
            digits == (if s@.len() > 0 && s@[0] == '+' {
                s@.drop_first()
            } else {
                s@
            }),
            all_digits(s@.subrange(start as int, i as int)),
            value as nat == digits_value(s@.subrange(start as int, i as int)),
        decreases s.len() - i,
    {
        let ghost prefix = s@.subrange(start as int, i + 1);
        assert(prefix.drop_last() == s@.subrange(start as int, i as int));
        let c = s[i];
        if !('0' <= c && c <= '9') {
            assert(digits[i - start] == c);
            assert(!('0' <= digits[i - start] <= '9'));
            return None;
        }
        let d: u64 = (c as u32 - '0' as u32) as u64;
        if value > (u64::MAX - d) / 10 {
            proof {
                assert(digits_value(prefix) == value * 10 + d);
                assert(value * 10 + d > u64::MAX) by (nonlinear_arith)
                    requires
                        value > (u64::MAX - d) / 10,
                        d <= 9,
                ;
                assert(s@.skip(start as int).take(i + 1 - start) == prefix);
                if all_digits(digits) {
                    lemma_digits_value_grows(digits, i + 1 - start);
                }
            }
            return None;
        }
        assert(value * 10 + d <= u64::MAX) by (nonlinear_arith)
            requires
                value <= (u64::MAX - d) / 10,
                d <= 9,
        ;
        value = value * 10 + d;
        i = i + 1;
        assert(all_digits(s@.subrange(start as int, i as int))) by {
            assert forall|j: int| 0 <= j < prefix.len() implies '0' <= #[trigger] prefix[j] <= '9' by {
                if j < prefix.len() - 1 {
                    assert(prefix[j] == prefix.drop_last()[j]);
                }
            }
        }
    }
    assert(s@.subrange(start as int, s.len() as int) == digits);
    Some(value)
}

/// A longer run of digits never spells a smaller number.
proof fn lemma_digits_value_grows(s: Seq<char>, k: int)
    requires
        0 <= k <= s.len(),
        all_digits(s),
    ensures
        digits_value(s.take(k)) <= digits_value(s),
    decreases s.len() - k,
{
    if k < s.len() {
        lemma_digits_value_grows(s, k + 1);
        let t = s.take(k + 1);
        assert(t.drop_last() == s.take(k));
        assert('0' <= t.last() <= '9');
    } else {
        assert(s.take(k) == s);
    }
}

/// The pause before retry number `attempt` (from 0), in milliseconds: the
/// server's `Retry-After` seconds when it sends a number, else `2^attempt`
/// seconds (at most 8), kept between half a second and fifteen seconds.
pub open spec fn spec_retry_delay_millis(retry_after: Option<Seq<char>>, attempt: usize) -> int {
    let seconds: int = match retry_after {
        Some(v) => match spec_parse_u64(crate::text::trim(v)) {
            Some(n) => n as int,
            None => vstd::arithmetic::power2::pow2(if attempt < 3 { attempt as nat } else { 3 }) as int,
        },
        None => vstd::arithmetic::power2::pow2(if attempt < 3 { attempt as nat } else { 3 }) as int,
    };
    if seconds * 1000 < 500 {
        500
    } else if seconds * 1000 > 15000 {
        15000
    } else {
        seconds * 1000
    }
}

/// The pause before retrying a transient failure, in milliseconds.
pub fn retry_delay_millis(retry_after: Option<&str>, attempt: usize) -> (out: u64)
    ensures
        out as int == spec_retry_delay_millis(crate::web_search::opt_str_view(retry_after), attempt),
{
    let parsed = match retry_after {
        Some(v) => {
            let t = trim_chars(chars_of(v).as_slice());
            parse_u64(t.as_slice())
        },
        None => None,
    };
    let seconds: u64 = match parsed {
        Some(n) => n,
        None => {
            proof {
                vstd::arithmetic::power2::lemma2_to64();
            }
            if attempt == 0 {
                1
            } else if attempt == 1 {
                2
            } else if attempt == 2 {
                4
            } else {
                8
            }
        },
    };
    if seconds == 0 {
        500
    } else if seconds > 15 {
        15000
    } else {
        seconds * 1000
    }
}

// ---------------------------------------------------------------------------
// Character sets
// ---------------------------------------------------------------------------

/// What `encoding_rs::Encoding::for_label` recognizes a label as: the name
/// of the encoding, or `None` for an unknown label.
pub uninterp spec fn spec_encoding_for_label(label: Seq<char>) -> Option<Seq<char>>;

/// What `String::from_utf8_lossy` gives: the bytes as UTF-8, each invalid
/// sequence replaced by U+FFFD.
pub uninterp spec fn spec_utf8_lossy(bytes: Seq<u8>) -> Seq<char>;

/// What decoding `bytes` with the encoding that `Encoding::for_label` finds
/// for the label gives (`Encoding::decode`: BOM sniffing, malformed input
/// replaced).
pub uninterp spec fn spec_decode(label: Seq<char>, bytes: Seq<u8>) -> Seq<char>;

/// Calls `Encoding::for_label` and `Encoding::name`. Trusted: the result is
/// named `spec_encoding_for_label` and depends on the label alone.
#[verifier::external_body]
fn encoding_for_label(label: &str) -> (out: Option<&'static str>)
    ensures
        crate::web_search::opt_str_view(out) == spec_encoding_for_label(label@),
{
    encoding_rs::Encoding::for_label(label.as_bytes()).map(|encoding| encoding.name())
}

/// Calls `String::from_utf8_lossy`. Trusted: the result is named `spec_utf8_lossy`.
#[verifier::external_body]
fn utf8_lossy(bytes: &[u8]) -> (out: String)
    ensures
        out@ == spec_utf8_lossy(bytes@),
{
    String::from_utf8_lossy(bytes).into_owned()
}

/// Calls `Encoding::for_label` and then `Encoding::decode` on the encoding
/// found. Trusted: there is a result exactly when the label is known (as
/// `spec_encoding_for_label` says), and it is named `spec_decode`.
#[verifier::external_body]
fn decode_labeled(encoding: &str, bytes: &[u8]) -> (out: Option<String>)
    ensures
        out is None <==> spec_encoding_for_label(encoding@) is None,
        out matches Some(text) ==> text@ == spec_decode(encoding@, bytes@),
{
    match encoding_rs::Encoding::for_label(encoding.as_bytes()) {
        Some(found) => Some(found.decode(bytes).0.into_owned()),
        None => None,
    }
}

/// The page's text: its bytes decoded with the named encoding, or read as
/// UTF-8 (invalid sequences replaced) when the name is no known label.
pub open spec fn spec_decode_page(encoding: Seq<char>, bytes: Seq<u8>) -> Seq<char> {
    if spec_encoding_for_label(encoding) is Some {
        spec_decode(encoding, bytes)
    } else {
        spec_utf8_lossy(bytes)
    }
}

/// The page's bytes decoded with the named encoding.
pub fn decode_page(encoding: &str, bytes: &[u8]) -> (out: String)
    ensures
        out@ == spec_decode_page(encoding@, bytes@),
{
    match decode_labeled(encoding, bytes) {
        Some(text) => text,
        None => utf8_lossy(bytes),
    }
}

/// `s` without the copies of `c` it starts with.
pub open spec fn trim_start_char(s: Seq<char>, c: char) -> Seq<char>
    decreases s.len(),
{
    if s.len() > 0 && s[0] == c {
        trim_start_char(s.drop_first(), c)
    } else {
        s
    }
}

/// `s` without the copies of `c` it ends with.
pub open spec fn trim_end_char(s: Seq<char>, c: char) -> Seq<char>
    decreases s.len(),
{
    if s.len() > 0 && s.last() == c {
        trim_end_char(s.drop_last(), c)
    } else {
        s
    }
}

/// `str::trim_matches` with one character.
pub open spec fn trim_matching(s: Seq<char>, c: char) -> Seq<char> {
    trim_end_char(trim_start_char(s, c), c)
}

/// The value of a `charset=...` parameter, unquoted.
pub open spec fn charset_param(part: Seq<char>) -> Option<Seq<char>> {
    match find(part, "="@) {
        Some(i) => if ascii_lower(trim(part.take(i))) == "charset"@ {
            Some(trim_matching(trim_matching(trim(part.skip(i + 1)), '"'), '\''))
        } else {
            None
        },
        None => None,
    }
}

pub open spec fn first_charset_param(parts: Seq<Seq<char>>) -> Option<Seq<char>>
    decreases parts.len(),
{
    if parts.len() == 0 {
        None
    } else {
        match charset_param(parts[0]) {
            Some(v) => Some(v),
            None => first_charset_param(parts.drop_first()),
        }
    }
}

/// The first `charset` parameter of a Content-Type value.
pub open spec fn header_charset(content_type: Seq<char>) -> Option<Seq<char>> {
    first_charset_param(crate::web_search::research::split_on(content_type, ';').drop_first())
}

pub open spec fn skips_before_charset(c: char) -> bool {
    c == '=' || is_ws(c)
}

pub open spec fn ends_charset(c: char) -> bool {
    c == '"' || c == '\'' || c == '>' || c == '/' || is_ws(c)
}

pub open spec fn trim_start_assign(s: Seq<char>) -> Seq<char>
    decreases s.len(),
{
    if s.len() > 0 && skips_before_charset(s[0]) {
        trim_start_assign(s.drop_first())
    } else {
        s
    }
}

pub open spec fn charset_token(s: Seq<char>) -> Seq<char>
    decreases s.len(),
{
    if s.len() == 0 || ends_charset(s[0]) {
        Seq::empty()
    } else {
        seq![s[0]] + charset_token(s.drop_first())
    }
}

/// The charset a page's head declares (`<meta charset=...>` or an
/// `http-equiv` Content-Type), from the first `charset` in the lowercased head.
pub open spec fn meta_charset(lower_head: Seq<char>) -> Option<Seq<char>> {
    match find(lower_head, "charset"@) {
        None => None,
        Some(p) => {
            let after = trim_start_char(
                trim_start_char(trim_start_assign(lower_head.skip(p + 7)), '"'),
                '\'',
            );
            let v = charset_token(after);
            if v.len() > 0 {
                Some(v)
            } else {
                None
            }
        },
    }
}

/// The encoding of a page: the Content-Type charset when it names a known
/// encoding, else the charset declared in the first 4 KiB, else UTF-8.
pub open spec fn spec_detect_charset(content_type: Seq<char>, bytes: Seq<u8>) -> Seq<char> {
    let from_header = match header_charset(content_type) {
        Some(label) => spec_encoding_for_label(label),
        None => None,
    };
    match from_header {
        Some(name) => name,
        None => {
            let head = bytes.take(if bytes.len() < 4096 { bytes.len() as int } else { 4096 });
            let from_meta = match meta_charset(ascii_lower(spec_utf8_lossy(head))) {
                Some(label) => spec_encoding_for_label(label),
                None => None,
            };
            match from_meta {
                Some(name) => name,
                None => "UTF-8"@,
            }
        },
    }
}

fn trim_start_char_exec(s: &[char], from: usize, c: char) -> (out: usize)
    requires
        from <= s.len(),
    ensures
        from <= out <= s.len(),
        s@.skip(out as int) == trim_start_char(s@.skip(from as int), c),
{
    let mut i = from;
    while i < s.len() && s[i] == c
        invariant
            from <= i <= s.len(),
            trim_start_char(s@.skip(from as int), c) == trim_start_char(s@.skip(i as int), c),
        decreases s.len() - i,
    {
        assert(s@.skip(i as int).drop_first() == s@.skip(i + 1));
        i = i + 1;
    }
    i
}

fn trim_end_char_exec(s: &[char], from: usize, to: usize, c: char) -> (out: usize)
    requires
        from <= to <= s.len(),
    ensures
        from <= out <= to,
        s@.subrange(from as int, out as int) == trim_end_char(s@.subrange(from as int, to as int), c),
{
    let mut j = to;
    while j > from && s[j - 1] == c
        invariant
            from <= j <= to <= s.len(),
            trim_end_char(s@.subrange(from as int, to as int), c) == trim_end_char(
                s@.subrange(from as int, j as int),
                c,
            ),
        decreases j,
    {
        assert(s@.subrange(from as int, j as int).drop_last() == s@.subrange(from as int, j - 1));
        j = j - 1;
    }
    j
}

/// `trim_matches(c)` of a character range.
fn trim_matching_chars(s: &[char], c: char) -> (out: Vec<char>)
    ensures
        out@ == trim_matching(s@, c),
{
    assert(s@.skip(0) == s@);
    let start = trim_start_char_exec(s, 0, c);
    let end = trim_end_char_exec(s, start, s.len(), c);
    assert(s@.subrange(start as int, s.len() as int) == s@.skip(start as int));
    slice_range(s, start, end)
}

fn charset_param_exec(part: &[char]) -> (out: Option<Vec<char>>)
    ensures
        match out {
            Some(v) => charset_param(part@) == Some(v@),
            None => charset_param(part@) is None,
        },
{
    let eq = chars_of("=");
    proof {
        reveal_strlit("=");
        lemma_found_inside(part@, eq@);
        assert(part@.skip(0) == part@);
    }
    let i = find_from(part, eq.as_slice(), 0)?;
    assert(find(part@, eq@) == Some(i as int));
    assert(i + 1 <= part@.len());
    assert(i < part.len());
    let key = slice_range(part, 0, i);
    assert(key@ == part@.take(i as int));
    let key = ascii_lower_chars(trim_chars(key.as_slice()).as_slice());
    let charset = chars_of("charset");
    if !crate::text::slices_equal(key.as_slice(), charset.as_slice()) {
        return None;
    }
    let value = slice_range(part, i + 1, part.len());
    assert(value@ == part@.skip(i + 1));
    let value = trim_chars(value.as_slice());
    let value = trim_matching_chars(value.as_slice(), '"');
    Some(trim_matching_chars(value.as_slice(), '\''))
}

fn header_charset_exec(content_type: &str) -> (out: Option<Vec<char>>)
    ensures
        match out {
            Some(v) => header_charset(content_type@) == Some(v@),
            None => header_charset(content_type@) is None,
        },
{
    let cs = chars_of(content_type);
    let parts = crate::web_search::research::split_chars(cs.as_slice(), ';');
    let ghost all = crate::web_search::research::views(parts@);
    proof {
        crate::web_search::research::lemma_split_nonempty(cs@, ';');
    }
    let mut i: usize = 1;
    while i < parts.len()
        invariant
            1 <= i <= parts@.len(),
            all == crate::web_search::research::views(parts@),
            all == crate::web_search::research::split_on(content_type@, ';'),
            first_charset_param(all.drop_first()) == first_charset_param(all.skip(i as int)),
        decreases parts@.len() - i,
    {
        assert(all.skip(i as int)[0] == parts@[i as int]@);
        assert(all.skip(i as int).drop_first() == all.skip(i + 1));
        match charset_param_exec(parts[i].as_slice()) {
            Some(v) => {
                return Some(v);
            },
            None => {},
        }
        i = i + 1;
    }
    assert(all.skip(i as int) == Seq::<Seq<char>>::empty());
    None
}

fn meta_charset_exec(lower: &[char]) -> (out: Option<Vec<char>>)
    ensures
        match out {
            Some(v) => meta_charset(lower@) == Some(v@),
            None => meta_charset(lower@) is None,
        },
{
    let needle = chars_of("charset");
    proof {
        reveal_strlit("charset");
        lemma_found_inside(lower@, needle@);
        assert(lower@.skip(0) == lower@);
    }
    let p = find_from(lower, needle.as_slice(), 0)?;
    let mut i = p + 7;
    assert(lower@.skip(i as int) == lower@.skip(p + 7));
    while i < lower.len() && (lower[i] == '=' || is_whitespace(lower[i]))
        invariant
            p + 7 <= i <= lower.len(),
            trim_start_assign(lower@.skip(p + 7)) == trim_start_assign(lower@.skip(i as int)),
        decreases lower.len() - i,
    {
        assert(lower@.skip(i as int).drop_first() == lower@.skip(i + 1));
        i = i + 1;
    }
    let i = trim_start_char_exec(lower, i, '"');
    let i = trim_start_char_exec(lower, i, '\'');
    let mut j = i;
    while j < lower.len() && !(lower[j] == '"' || lower[j] == '\'' || lower[j] == '>' || lower[j]
        == '/' || is_whitespace(lower[j]))
        invariant
            i <= j <= lower.len(),
            charset_token(lower@.skip(i as int)) == lower@.subrange(i as int, j as int)
                + charset_token(lower@.skip(j as int)),
        decreases lower.len() - j,
    {
        assert(lower@.skip(j as int).drop_first() == lower@.skip(j + 1));
        assert(lower@.subrange(i as int, j + 1) == lower@.subrange(i as int, j as int) + seq![
            lower@[j as int],
        ]);
        j = j + 1;
    }
    assert(charset_token(lower@.skip(j as int)) == Seq::<char>::empty());
    if j == i {
        return None;
    }
    Some(slice_range(lower, i, j))
}

/// The encoding a page is decoded with, by name: the Content-Type charset
/// when the label is known, else the charset declared in the first 4 KiB of
/// the page, else UTF-8.
pub fn detect_charset(content_type: &str, bytes: &[u8]) -> (out: String)
    ensures
        out@ == spec_detect_charset(content_type@, bytes@),
{
    match header_charset_exec(content_type) {
        Some(label) => {
            let label = string_of(label.as_slice());
            match encoding_for_label(label.as_str()) {
                Some(name) => return crate::text::copy_string(name),
                None => {},
            }
        },
        None => {},
    }
    let n = if bytes.len() < 4096 {
        bytes.len()
    } else {
        4096
    };
    let head_bytes = vstd::slice::slice_subrange(bytes, 0, n);
    assert(head_bytes@ == bytes@.take(n as int));
    let head = utf8_lossy(head_bytes);
    let lower = ascii_lower_chars(chars_of(head.as_str()).as_slice());
    match meta_charset_exec(lower.as_slice()) {
        Some(label) => {
            let label = string_of(label.as_slice());
            match encoding_for_label(label.as_str()) {
                Some(name) => return crate::text::copy_string(name),
                None => {},
            }
        },
        None => {},
    }
    crate::text::copy_string("UTF-8")
}

// ---------------------------------------------------------------------------
// Pages
// ---------------------------------------------------------------------------

/// The content types a page may have to be read: HTML, plain text, XHTML.
pub open spec fn readable_content_type(lower: Seq<char>) -> bool {
    ||| crate::text::starts_with(lower, "text/html"@)
    ||| crate::text::starts_with(lower, "text/plain"@)
    ||| crate::text::starts_with(lower, "application/xhtml+xml"@)
}

/// The checks on a page response before its body is read: the lowercased
/// Content-Type must be readable and a declared length must fit the page
/// limit. Returns the lowercased Content-Type.
pub fn check_page_response(content_type: &str, content_length: Option<u64>) -> (out: Result<String, crate::web_search::WebSearchError>)
    ensures
        !readable_content_type(ascii_lower(content_type@)) ==> out == Err::<String, _>(
            crate::web_search::WebSearchError::UnsupportedContentType,
        ),
        readable_content_type(ascii_lower(content_type@)) && (content_length matches Some(n) && n
            > crate::web_search::MAX_PAGE_BYTES) ==> out == Err::<String, _>(
            crate::web_search::WebSearchError::ResponseTooLarge,
        ),
        readable_content_type(ascii_lower(content_type@)) && !(content_length matches Some(n) && n
            > crate::web_search::MAX_PAGE_BYTES) ==> (out matches Ok(t) && t@ == ascii_lower(
            content_type@,
        )),
{
    let lower = ascii_lower_chars(chars_of(content_type).as_slice());
    let html = chars_of("text/html");
    let plain = chars_of("text/plain");
    let xhtml = chars_of("application/xhtml+xml");
    if !(crate::text::starts_with_chars(lower.as_slice(), html.as_slice())
        || crate::text::starts_with_chars(lower.as_slice(), plain.as_slice())
        || crate::text::starts_with_chars(lower.as_slice(), xhtml.as_slice())) {
        return Err(crate::web_search::WebSearchError::UnsupportedContentType);
    }
    match content_length {
        Some(n) => if n > crate::web_search::MAX_PAGE_BYTES as u64 {
            return Err(crate::web_search::WebSearchError::ResponseTooLarge);
        },
        None => {},
    }
    Ok(string_of(lower.as_slice()))
}

/// Whether a body chunk still fits the page limit after `received` bytes.
pub fn page_chunk_fits(received: usize, chunk_len: usize) -> (out: bool)
    ensures
        out == (received + chunk_len <= crate::web_search::MAX_PAGE_BYTES || (received
            > crate::web_search::MAX_PAGE_BYTES && chunk_len == 0)),
{
    let room = if received >= crate::web_search::MAX_PAGE_BYTES {
        0
    } else {
        crate::web_search::MAX_PAGE_BYTES - received
    };
    chunk_len <= room
}

/// The content of a fetched page from its decoded text.
pub open spec fn spec_page_text(content_type_lower: Seq<char>, raw: Seq<char>) -> Seq<char> {
    crate::text::prefix_chars(
        if crate::text::starts_with(content_type_lower, "text/plain"@) {
            raw
        } else {
            spec_html_to_text(raw)
        },
        crate::web_search::MAX_PAGE_BYTES as nat,
    )
}

/// The page a body makes: decoded with the detected encoding, titled from
/// its `<title>`, and its readable text (the plain text as is, HTML
/// through `html_to_text`), cut to the page limit in characters.
pub fn page_from_bytes(final_url: String, content_type_lower: &str, bytes: &[u8]) -> (out: crate::web_search::WebPageContent)
    ensures
        out.url == final_url,
        ({
            let raw = spec_decode_page(spec_detect_charset(content_type_lower@, bytes@), bytes@);
            &&& crate::web_search::opt_view(out.title) == spec_html_title(raw)
            &&& out.text@ == spec_page_text(content_type_lower@, raw)
        }),
{
    let encoding = detect_charset(content_type_lower, bytes);
    let raw = decode_page(encoding.as_str(), bytes);
    let title = html_title(raw.as_str());
    let plain = chars_of("text/plain");
    let text = if crate::text::starts_with_chars(chars_of(content_type_lower).as_slice(), plain.as_slice()) {
        chars_of(raw.as_str())
    } else {
        chars_of(html_to_text(raw.as_str()).as_str())
    };
    let limited = crate::text::take_chars(text.as_slice(), crate::web_search::MAX_PAGE_BYTES);
    crate::web_search::WebPageContent { url: final_url, title, text: string_of(limited.as_slice()) }
}

} // verus!
