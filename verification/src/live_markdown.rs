//! Streaming Markdown: while a reply is still arriving, fenced code blocks
//! are lifted out of the text and replaced by numbered image placeholders,
//! so that the Markdown around them can be rendered without highlighting a
//! block that is still growing.
use vstd::prelude::*;
use crate::chat::{extend, line_end, run_length, run_length_exec, skip_ws, trim_line_end, trim_line_end_len};
use crate::text::{
    ascii_lower, ascii_lower_chars, chars_of, contains, contains_chars, copy_string, decimal,
    decimal_chars, find, lemma_find_spec, push_str_chars, slice_range, starts_with,
    starts_with_chars, string_of, trim, trim_chars, trim_start,
};
use crate::web_search::fetch::{parse_u64, spec_parse_u64};
use crate::image_editing::{
    base64_decode, byte_len, read_image_dimensions, spec_base64_decode, spec_image_dimensions,
};
use crate::web_search::opt_view;

verus! {

/// The prefix of a placeholder image's URL; the block's number follows it.
pub const LIVE_CODE_PLACEHOLDER: &'static str = "locoryn-live-code:";

/// The alternative text of a placeholder image.
pub const LIVE_CODE_IMAGE: &'static str = "![locoryn live code](";

/// How many bytes `c` takes in UTF-8.
pub open spec fn utf8_width(c: char) -> nat {
    if (c as u32) < 0x80 {
        1
    } else if (c as u32) < 0x800 {
        2
    } else if (c as u32) < 0x10000 {
        3
    } else {
        4
    }
}

/// How many bytes `s` takes in UTF-8.
pub open spec fn utf8_len(s: Seq<char>) -> nat
    decreases s.len(),
{
    if s.len() == 0 {
        0
    } else {
        utf8_len(s.drop_last()) + utf8_width(s.last())
    }
}

/// The fence a line opens or closes, as `(marker, length, indentation)`:
/// after at most three bytes of indentation, three or more backticks or
/// tildes.
pub open spec fn live_fence(seg: Seq<char>) -> Option<(char, int, int)> {
    let body = trim_line_end(seg);
    let trimmed = trim_start(body);
    let indentation = utf8_len(body.take(body.len() - trimmed.len())) as int;
    if indentation > 3 || trimmed.len() == 0 || !(trimmed[0] == '`' || trimmed[0] == '~') {
        None
    } else if run_length(trimmed, trimmed[0]) >= 3 {
        Some((trimmed[0], run_length(trimmed, trimmed[0]), indentation))
    } else {
        None
    }
}

/// `n` spaces.
pub open spec fn spaces(n: nat) -> Seq<char> {
    Seq::new(n, |i: int| ' ')
}

/// The image that stands for code block number `n`.
pub open spec fn placeholder(n: nat) -> Seq<char> {
    LIVE_CODE_IMAGE@ + LIVE_CODE_PLACEHOLDER@ + decimal(n) + ")"@
}

/// A lifted block: its language, if the fence names one, and its code.
pub type BlockView = (Option<Seq<char>>, Seq<char>);

/// An open fence: marker, length, indentation, language and the code so far.
pub type OpenView = (char, int, int, Option<Seq<char>>, Seq<char>);

/// One line (with its line ending) after the state `open`, when `count`
/// blocks were completed before it: what goes into the masked text, the
/// block the line completes, and the state after it.
pub open spec fn mask_line(seg: Seq<char>, open: Option<OpenView>, count: nat) -> (
    Seq<char>,
    Option<BlockView>,
    Option<OpenView>,
) {
    let body = trim_line_end(seg);
    let ending = seg.skip(body.len() as int);
    let trimmed = trim_start(body);
    match open {
        Some(o) => {
            let closing = match live_fence(seg) {
                Some(f) => f.0 == o.0 && f.1 >= o.1 && trim(trimmed.skip(f.1)).len() == 0,
                None => false,
            };
            if closing {
                (ending, Some((o.3, o.4)), None)
            } else {
                let spaces_run = run_length(body, ' ');
                let removable = if spaces_run < o.2 {
                    spaces_run
                } else {
                    o.2
                };
                (Seq::empty(), None, Some((o.0, o.1, o.2, o.3, o.4 + body.skip(removable) + ending)))
            }
        },
        None => match live_fence(seg) {
            None => (seg, None, None),
            Some(f) => {
                let info = trimmed.skip(f.1);
                if f.0 == '`' && contains(info, "`"@) {
                    (seg, None, None)
                } else {
                    let language = if trim(info).len() == 0 {
                        None
                    } else {
                        Some(trim(info))
                    };
                    (
                        spaces(f.2 as nat) + placeholder(count) + ending,
                        None,
                        Some((f.0, f.1, f.2, language, Seq::empty())),
                    )
                }
            },
        },
    }
}

pub open spec fn opt_block(b: Option<BlockView>) -> Seq<BlockView> {
    match b {
        Some(v) => seq![v],
        None => Seq::empty(),
    }
}

/// `s` line by line through `mask_line`: the masked text and the blocks
/// lifted out, in order; a block still open at the end is lifted too.
pub open spec fn mask_lines(s: Seq<char>, open: Option<OpenView>, count: nat) -> (Seq<char>, Seq<BlockView>)
    decreases s.len(),
{
    if s.len() == 0 {
        (
            Seq::empty(),
            match open {
                Some(o) => seq![(o.3, o.4)],
                None => Seq::empty(),
            },
        )
    } else {
        proof {
            lemma_find_spec(s, "\n"@);
            reveal_strlit("\n");
        }
        let k = line_end(s);
        let r = mask_line(s.take(k), open, count);
        let next_count = if r.1 is Some {
            count + 1
        } else {
            count
        };
        let rest = mask_lines(s.skip(k), r.2, next_count);
        (r.0 + rest.0, opt_block(r.1) + rest.1)
    }
}

/// A code block lifted out of streaming Markdown.
#[derive(Clone, Debug, PartialEq, Eq)]
pub struct LiveCodeBlock {
    pub language: Option<String>,
    pub code: String,
}

pub open spec fn block_view(b: LiveCodeBlock) -> BlockView {
    (opt_view(b.language), b.code@)
}

pub open spec fn block_views(v: Seq<LiveCodeBlock>) -> Seq<BlockView> {
    v.map_values(|b: LiveCodeBlock| block_view(b))
}

pub open spec fn opt_block_view(o: Option<LiveCodeBlock>) -> Option<BlockView> {
    match o {
        Some(b) => Some(block_view(b)),
        None => None,
    }
}

/// A fence that is open while the text is scanned.
struct OpenFence {
    marker: char,
    length: usize,
    indentation: usize,
    language: Option<String>,
    code: Vec<char>,
}

spec fn open_view(o: Option<OpenFence>) -> Option<OpenView> {
    match o {
        Some(f) => Some((f.marker, f.length as int, f.indentation as int, opt_view(f.language), f.code@)),
        None => None,
    }
}

proof fn lemma_utf8_len_prefix(s: Seq<char>, i: int)
    requires
        0 <= i <= s.len(),
    ensures
        utf8_len(s.take(i)) <= utf8_len(s),
    decreases s.len(),
{
    if i < s.len() {
        lemma_utf8_len_prefix(s.drop_last(), i);
        assert(s.drop_last().take(i) == s.take(i));
    } else {
        assert(s.take(i) == s);
    }
}

fn utf8_width_of(c: char) -> (out: usize)
    ensures
        out == utf8_width(c),
{
    let n = c as u32;
    if n < 0x80 {
        1
    } else if n < 0x800 {
        2
    } else if n < 0x10000 {
        3
    } else {
        4
    }
}

/// The fence of a line whose body (the line without its ending) is
/// `seg[..body_len]` and whose text after the indentation starts at `start`.
fn live_fence_of(seg: &[char], body_len: usize, start: usize) -> (out: Option<(char, usize, usize)>)
    requires
        start <= body_len <= seg.len(),
        seg@.take(body_len as int) == trim_line_end(seg@),
        seg@.subrange(start as int, body_len as int) == trim_start(trim_line_end(seg@)),
    ensures
        match out {
            Some((m, l, ind)) => live_fence(seg@) == Some((m, l as int, ind as int)) && start + l
                <= body_len && start < body_len && m == seg@[start as int],
            None => live_fence(seg@) is None,
        },
{
    let ghost body = seg@.take(body_len as int);
    let ghost trimmed = seg@.subrange(start as int, body_len as int);
    assert(body.take(body.len() - trimmed.len()) == seg@.take(start as int));
    let mut width: usize = 0;
    let mut i: usize = 0;
    while i < start
        invariant
            i <= start <= body_len <= seg.len(),
            body.take(body.len() - trimmed.len()) == seg@.take(start as int),
            body == trim_line_end(seg@),
            trimmed == trim_start(body),
            width == utf8_len(seg@.take(i as int)),
            width <= 3,
        decreases start - i,
    {
        let w = utf8_width_of(seg[i]);
        assert(seg@.take(i + 1).drop_last() == seg@.take(i as int));
        if width + w > 3 {
            proof {
                assert(seg@.take(i + 1).last() == seg@[i as int]);
                assert(utf8_len(seg@.take(i + 1)) == width + w);
                lemma_utf8_len_prefix(seg@.take(start as int), i + 1);
                assert(seg@.take(start as int).take(i + 1) == seg@.take(i + 1));
                assert(utf8_len(body.take(body.len() - trimmed.len())) > 3);
            }
            return None;
        }
        assert(seg@.take(i + 1).last() == seg@[i as int]);
        width = width + w;
        i = i + 1;
    }
    if start >= body_len || !(seg[start] == '`' || seg[start] == '~') {
        return None;
    }
    let length = run_length_exec(seg, start, body_len, seg[start]);
    if length >= 3 {
        Some((seg[start], length, width))
    } else {
        None
    }
}

/// `n` spaces followed by the placeholder image for block number `count`.
fn placeholder_line(n: usize, count: usize) -> (out: Vec<char>)
    ensures
        out@ == spaces(n as nat) + placeholder(count as nat),
{
    let mut out: Vec<char> = Vec::new();
    let mut k: usize = 0;
    while k < n
        invariant
            k <= n,
            out@ == spaces(k as nat),
        decreases n - k,
    {
        out.push(' ');
        k = k + 1;
        assert(out@ =~= spaces(k as nat));
    }
    let image = chars_of(LIVE_CODE_IMAGE);
    extend(&mut out, image.as_slice(), 0, image.len());
    let prefix = chars_of(LIVE_CODE_PLACEHOLDER);
    extend(&mut out, prefix.as_slice(), 0, prefix.len());
    let digits = decimal_chars(count as u64);
    extend(&mut out, digits.as_slice(), 0, digits.len());
    let close = chars_of(")");
    extend(&mut out, close.as_slice(), 0, close.len());
    proof {
        assert(image@.subrange(0, image@.len() as int) == image@);
        assert(prefix@.subrange(0, prefix@.len() as int) == prefix@);
        assert(digits@.subrange(0, digits@.len() as int) == digits@);
        assert(close@.subrange(0, close@.len() as int) == close@);
    }
    out
}

#[verifier::rlimit(40)]
fn mask_line_of(seg: &[char], open: Option<OpenFence>, count: usize) -> (out: (
    Vec<char>,
    Option<LiveCodeBlock>,
    Option<OpenFence>,
))
    ensures
        (out.0@, opt_block_view(out.1), open_view(out.2)) == mask_line(seg@, open_view(open), count as nat),
{
    let body_len = trim_line_end_len(seg);
    let start = skip_ws(seg, 0, body_len);
    let ghost body = seg@.take(body_len as int);
    assert(seg@.subrange(0, body_len as int) == body);
    let ghost trimmed = seg@.subrange(start as int, body_len as int);
    let ghost ending = seg@.skip(body_len as int);
    assert(seg@.subrange(body_len as int, seg.len() as int) == ending);
    let fence = live_fence_of(seg, body_len, start);
    let ghost spec_out = mask_line(seg@, open_view(open), count as nat);
    match open {
        Some(o) => {
            let closing = match fence {
                Some((m, l, _)) => if m == o.marker && l >= o.length {
                    assert(trimmed.skip(l as int) == seg@.subrange(start + l, body_len as int));
                    let rest = slice_range(seg, start + l, body_len);
                    trim_chars(rest.as_slice()).len() == 0
                } else {
                    false
                },
                None => false,
            };
            if closing {
                let block = LiveCodeBlock { language: o.language, code: string_of(o.code.as_slice()) };
                (slice_range(seg, body_len, seg.len()), Some(block), None)
            } else {
                let run = run_length_exec(seg, 0, body_len, ' ');
                let removable = if run < o.indentation {
                    run
                } else {
                    o.indentation
                };
                let mut code = o.code;
                extend(&mut code, seg, removable, body_len);
                extend(&mut code, seg, body_len, seg.len());
                assert(body.skip(removable as int) == seg@.subrange(removable as int, body_len as int));
                let next = OpenFence {
                    marker: o.marker,
                    length: o.length,
                    indentation: o.indentation,
                    language: o.language,
                    code,
                };
                assert(next.code@ == o.code@ + body.skip(removable as int) + ending);
                (Vec::new(), None, Some(next))
            }
        },
        None => match fence {
            None => {
                assert(seg@.subrange(0, seg.len() as int) == seg@);
                (slice_range(seg, 0, seg.len()), None, None)
            },
            Some((m, l, ind)) => {
                assert(trimmed.skip(l as int) == seg@.subrange(start + l, body_len as int));
                let info = slice_range(seg, start + l, body_len);
                let tick = chars_of("`");
                if m == '`' && contains_chars(info.as_slice(), tick.as_slice()) {
                    assert(seg@.subrange(0, seg.len() as int) == seg@);
                    return (slice_range(seg, 0, seg.len()), None, None);
                }
                let t = trim_chars(info.as_slice());
                let language = if t.len() == 0 {
                    None
                } else {
                    Some(string_of(t.as_slice()))
                };
                let mut masked = placeholder_line(ind, count);
                extend(&mut masked, seg, body_len, seg.len());
                let next = OpenFence { marker: m, length: l, indentation: ind, language, code: Vec::new() };
                (masked, None, Some(next))
            },
        },
    }
}

/// Lifts the fenced code blocks out of streaming Markdown: each opening
/// fence line becomes a numbered placeholder image (keeping the fence's
/// indentation) and the block's lines, up to a matching closing fence or
/// the end of the text, become a `LiveCodeBlock`; all other text is kept.
pub fn mask_live_code_blocks(input: &str) -> (out: (String, Vec<LiveCodeBlock>))
    ensures
        out.0@ == mask_lines(input@, None, 0).0,
        block_views(out.1@) == mask_lines(input@, None, 0).1,
{
    let s = chars_of(input);
    let mut masked: Vec<char> = Vec::new();
    let mut blocks: Vec<LiveCodeBlock> = Vec::new();
    let mut open: Option<OpenFence> = None;
    let mut pos: usize = 0;
    assert(s@.skip(0) == s@);
    assert(block_views(blocks@) =~= Seq::<BlockView>::empty());
    while pos < s.len()
        invariant
            pos <= s.len(),
            masked@ + mask_lines(s@.skip(pos as int), open_view(open), blocks@.len()).0 == mask_lines(
                s@,
                None,
                0,
            ).0,
            block_views(blocks@) + mask_lines(s@.skip(pos as int), open_view(open), blocks@.len()).1
                == mask_lines(s@, None, 0).1,
        decreases s.len() - pos,
    {
        let ghost rest = s@.skip(pos as int);
        let nl = chars_of("\n");
        proof {
            reveal_strlit("\n");
            lemma_find_spec(rest, nl@);
        }
        let end = match crate::text::find_from(s.as_slice(), nl.as_slice(), pos) {
            Some(i) => i + 1,
            None => s.len(),
        };
        assert(end - pos == line_end(rest));
        let seg = slice_range(s.as_slice(), pos, end);
        assert(seg@ == rest.take(end - pos));
        assert(rest.skip(end - pos) == s@.skip(end as int));
        let ghost before_masked = masked@;
        let ghost before_blocks = block_views(blocks@);
        let ghost r = mask_line(seg@, open_view(open), blocks@.len());
        let ghost tail = mask_lines(s@.skip(end as int), r.2, if r.1 is Some {
            blocks@.len() + 1
        } else {
            blocks@.len()
        });
        let (piece, done, next) = mask_line_of(seg.as_slice(), open, blocks.len());
        extend(&mut masked, piece.as_slice(), 0, piece.len());
        assert(piece@.subrange(0, piece@.len() as int) == piece@);
        match done {
            Some(b) => {
                blocks.push(b);
                assert(block_views(blocks@) =~= before_blocks + seq![block_view(b)]);
            },
            None => {},
        }
        open = next;
        pos = end;
        assert(masked@ + tail.0 =~= before_masked + (r.0 + tail.0));
        assert(block_views(blocks@) + tail.1 =~= before_blocks + (opt_block(r.1) + tail.1));
    }
    assert(s@.skip(s.len() as int) =~= Seq::<char>::empty());
    let ghost before_blocks = block_views(blocks@);
    match open {
        Some(o) => {
            let block = LiveCodeBlock { language: o.language, code: string_of(o.code.as_slice()) };
            blocks.push(block);
            assert(block_views(blocks@) =~= before_blocks + seq![block_view(block)]);
        },
        None => {
            assert(before_blocks + Seq::<BlockView>::empty() =~= before_blocks);
        },
    }
    assert(masked@ + Seq::<char>::empty() =~= masked@);
    (string_of(masked.as_slice()), blocks)
}

/// The block number a placeholder image's URL names: the URL is the
/// placeholder prefix followed by a number that `usize::from_str` accepts.
pub open spec fn spec_placeholder_index(url: Seq<char>) -> Option<usize> {
    if starts_with(url, LIVE_CODE_PLACEHOLDER@) {
        match spec_parse_u64(url.skip(LIVE_CODE_PLACEHOLDER@.len() as int)) {
            Some(n) => if n <= usize::MAX {
                Some(n as usize)
            } else {
                None
            },
            None => None,
        }
    } else {
        None
    }
}

/// Which lifted block an image of the rendered Markdown stands for, if it
/// is a placeholder.
pub fn live_code_placeholder_index(url: &str) -> (out: Option<usize>)
    ensures
        out == spec_placeholder_index(url@),
{
    let u = chars_of(url);
    let prefix = chars_of(LIVE_CODE_PLACEHOLDER);
    if !starts_with_chars(u.as_slice(), prefix.as_slice()) {
        return None;
    }
    let rest = slice_range(u.as_slice(), prefix.len(), u.len());
    assert(rest@ == u@.skip(prefix@.len() as int));
    match parse_u64(rest.as_slice()) {
        Some(n) => if n <= usize::MAX as u64 {
            Some(n as usize)
        } else {
            None
        },
        None => None,
    }
}

/// Whether no line of `s` is a code fence.
pub open spec fn has_no_fence(s: Seq<char>) -> bool
    decreases s.len(),
{
    if s.len() == 0 {
        true
    } else {
        proof {
            lemma_find_spec(s, "\n"@);
            reveal_strlit("\n");
        }
        live_fence(s.take(line_end(s))) is None && has_no_fence(s.skip(line_end(s)))
    }
}

/// Markdown without code fences passes through masking unchanged, and no
/// block is lifted out of it.
pub proof fn law_unfenced_text_is_kept(s: Seq<char>, count: nat)
    requires
        has_no_fence(s),
    ensures
        mask_lines(s, None, count) == (s, Seq::<BlockView>::empty()),
    decreases s.len(),
{
    if s.len() > 0 {
        lemma_find_spec(s, "\n"@);
        reveal_strlit("\n");
        let k = line_end(s);
        law_unfenced_text_is_kept(s.skip(k), count);
        assert(s.take(k) + s.skip(k) == s);
        assert(Seq::<BlockView>::empty() + Seq::<BlockView>::empty() == Seq::<BlockView>::empty());
    }
}

// ---------------------------------------------------------------------------
// Images in rendered Markdown
// ---------------------------------------------------------------------------

/// The largest image rendered Markdown displays, in bytes.
pub const MAX_MARKDOWN_IMAGE_BYTES: usize = 12582912;

/// The most pixels of an image rendered Markdown displays.
pub const MAX_MARKDOWN_IMAGE_PIXELS: u64 = 32000000;

pub const MALFORMED_EMBEDDED_IMAGE: &'static str = "Malformed embedded image.";

pub const NOT_BASE64_IMAGE: &'static str = "Only base64 embedded images are supported.";

pub const EMBEDDED_IMAGE_TOO_LARGE: &'static str = "Embedded image is too large.";

pub const DISPLAY_IMAGE_TOO_LARGE: &'static str = "Image is larger than the 12 MB display limit.";

pub const DISPLAY_IMAGE_TOO_MANY_PIXELS: &'static str = "Image dimensions are too large to display safely.";

/// Whether one of the `;`-separated parts of `s` is `part` (a lowercase
/// ASCII word), ASCII case ignored.
pub open spec fn has_part(s: Seq<char>, part: Seq<char>) -> bool
    decreases s.len(),
{
    match find(s, ";"@) {
        None => ascii_lower(s) == part,
        Some(i) => {
            proof {
                lemma_find_spec(s, ";"@);
                reveal_strlit(";");
            }
            ascii_lower(s.take(i)) == part || has_part(s.skip(i + 1), part)
        },
    }
}

/// The bytes of an image embedded in Markdown as a `data:image/...` URL;
/// `None` for any other URL.
pub open spec fn spec_embedded_image(url: Seq<char>) -> Option<Result<Seq<u8>, Seq<char>>> {
    if !starts_with(url, "data:image/"@) {
        None
    } else {
        let data = url.skip(11);
        match find(data, ","@) {
            None => Some(Err(MALFORMED_EMBEDDED_IMAGE@)),
            Some(c) => {
                let encoded = data.skip(c + 1);
                if !has_part(data.take(c), "base64"@) {
                    Some(Err(NOT_BASE64_IMAGE@))
                } else if byte_len(encoded) > MAX_MARKDOWN_IMAGE_BYTES * 2 {
                    Some(Err(EMBEDDED_IMAGE_TOO_LARGE@))
                } else {
                    match spec_base64_decode(encoded) {
                        Ok(b) => Some(Ok(b)),
                        Err(e) => Some(Err("Could not decode embedded image: "@ + e)),
                    }
                }
            },
        }
    }
}

fn has_part_exec(s: &[char], part: &[char]) -> (out: bool)
    ensures
        out == has_part(s@, part@),
{
    let semicolon = chars_of(";");
    proof {
        reveal_strlit(";");
    }
    let mut start: usize = 0;
    assert(s@.skip(0) == s@);
    while start <= s.len()
        invariant
            start <= s.len(),
            semicolon@ == ";"@,
            has_part(s@, part@) == has_part(s@.skip(start as int), part@),
        decreases s.len() + 1 - start,
    {
        let ghost rest = s@.skip(start as int);
        proof {
            reveal_strlit(";");
            lemma_find_spec(rest, ";"@);
        }
        match crate::text::find_from(s, semicolon.as_slice(), start) {
            None => {
                let piece = slice_range(s, start, s.len());
                assert(piece@ == rest);
                let lower = ascii_lower_chars(piece.as_slice());
                return crate::text::slices_equal(lower.as_slice(), part);
            },
            Some(i) => {
                let piece = slice_range(s, start, i);
                assert(piece@ == rest.take(i - start));
                let lower = ascii_lower_chars(piece.as_slice());
                if crate::text::slices_equal(lower.as_slice(), part) {
                    return true;
                }
                assert(rest.skip(i - start + 1) == s@.skip(i + 1));
                start = i + 1;
            },
        }
    }
    false
}

/// The bytes of an image embedded in Markdown: `None` for a URL that is not
/// a `data:image/` URL; otherwise its metadata (before the first comma) must
/// name base64, its data must be at most twice the display limit, and it
/// must decode.
pub fn embedded_image_bytes(url: &str) -> (out: Option<Result<Vec<u8>, String>>)
    ensures
        match (out, spec_embedded_image(url@)) {
            (None, None) => true,
            (Some(Ok(b)), Some(Ok(v))) => b@ == v,
            (Some(Err(m)), Some(Err(v))) => m@ == v,
            _ => false,
        },
{
    let u = chars_of(url);
    let prefix = chars_of("data:image/");
    proof {
        reveal_strlit("data:image/");
    }
    if !starts_with_chars(u.as_slice(), prefix.as_slice()) {
        return None;
    }
    let data = slice_range(u.as_slice(), 11, u.len());
    assert(data@ == u@.skip(11));
    let comma = chars_of(",");
    let c = match crate::text::find_chars(data.as_slice(), comma.as_slice()) {
        None => return Some(Err(copy_string(MALFORMED_EMBEDDED_IMAGE))),
        Some(c) => c,
    };
    proof {
        reveal_strlit(",");
        lemma_find_spec(data@, comma@);
    }
    let metadata = slice_range(data.as_slice(), 0, c);
    assert(metadata@ == data@.take(c as int));
    let base64 = chars_of("base64");
    if !has_part_exec(metadata.as_slice(), base64.as_slice()) {
        return Some(Err(copy_string(NOT_BASE64_IMAGE)));
    }
    let encoded_chars = slice_range(data.as_slice(), c + 1, data.len());
    assert(encoded_chars@ == data@.skip(c + 1));
    let encoded = string_of(encoded_chars.as_slice());
    if encoded.as_str().len() > MAX_MARKDOWN_IMAGE_BYTES * 2 {
        return Some(Err(copy_string(EMBEDDED_IMAGE_TOO_LARGE)));
    }
    match base64_decode(encoded.as_str()) {
        Ok(bytes) => Some(Ok(bytes)),
        Err(e) => {
            let mut m = copy_string("Could not decode embedded image: ");
            push_str_chars(&mut m, e.as_str());
            Some(Err(m))
        },
    }
}

/// Whether an image may be displayed: at most `MAX_MARKDOWN_IMAGE_BYTES`
/// bytes, a size the image crate can read, and at most
/// `MAX_MARKDOWN_IMAGE_PIXELS` pixels.
pub open spec fn spec_display_image_check(bytes: Seq<u8>) -> Result<(), Seq<char>> {
    if bytes.len() > MAX_MARKDOWN_IMAGE_BYTES {
        Err(DISPLAY_IMAGE_TOO_LARGE@)
    } else {
        match spec_image_dimensions(bytes) {
            Err(e) => Err("Unsupported image: "@ + e),
            Ok((w, h)) => if w * h > MAX_MARKDOWN_IMAGE_PIXELS {
                Err(DISPLAY_IMAGE_TOO_MANY_PIXELS@)
            } else {
                Ok(())
            },
        }
    }
}

/// Checks an image before it is decoded for display.
pub fn check_display_image(bytes: &[u8]) -> (out: Result<(), String>)
    ensures
        match (out, spec_display_image_check(bytes@)) {
            (Ok(()), Ok(())) => true,
            (Err(m), Err(v)) => m@ == v,
            _ => false,
        },
{
    if bytes.len() > MAX_MARKDOWN_IMAGE_BYTES {
        return Err(copy_string(DISPLAY_IMAGE_TOO_LARGE));
    }
    let (w, h) = match read_image_dimensions(bytes) {
        Ok(d) => d,
        Err(e) => {
            let mut m = copy_string("Unsupported image: ");
            push_str_chars(&mut m, e.as_str());
            return Err(m);
        },
    };
    assert((w as u64) * (h as u64) <= 0xffff_ffff_u64 * 0xffff_ffff_u64) by (nonlinear_arith)
        requires
            w <= 0xffff_ffff_u64,
            h <= 0xffff_ffff_u64,
    ;
    if (w as u64) * (h as u64) > MAX_MARKDOWN_IMAGE_PIXELS {
        return Err(copy_string(DISPLAY_IMAGE_TOO_MANY_PIXELS));
    }
    Ok(())
}

} // verus!
