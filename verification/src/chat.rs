//! Text handling around a chat: separating a model's reasoning from its
//! answer, recognizing tool calls printed as text, framing a conversation as
//! a prompt, and normalizing code fence languages.
use vstd::prelude::*;
use crate::text::{
    ascii_lower, ascii_lower_chars, chars_of, contains, copy_string, find, find_from, is_whitespace,
    is_ws, lemma_find_spec, push_chars, push_str_chars, starts_with, string_of, trim, trim_chars,
    trim_start,
};

verus! {

// ---------------------------------------------------------------------------
// Reasoning blocks
// ---------------------------------------------------------------------------

/// `(reasoning, visible text)` of `s`: the text inside `<think>` blocks and
/// the text outside them; an unclosed block runs to the end.
pub open spec fn split_think(s: Seq<char>) -> (Seq<char>, Seq<char>)
    decreases s.len(),
{
    match find(s, "<think>"@) {
        None => (Seq::empty(), s),
        Some(open) => {
            proof {
                lemma_find_spec(s, "<think>"@);
                reveal_strlit("<think>");
            }
            let after = s.skip(open + 7);
            match find(after, "</think>"@) {
                None => (after, s.take(open)),
                Some(close) => {
                    proof {
                        lemma_find_spec(after, "</think>"@);
                        reveal_strlit("</think>");
                    }
                    let rest = split_think(after.skip(close + 8));
                    (after.take(close) + rest.0, s.take(open) + rest.1)
                },
            }
        },
    }
}

/// The reasoning, trimmed, and the answer without leading whitespace.
pub open spec fn spec_split_thinking_text(s: Seq<char>) -> (Seq<char>, Seq<char>) {
    (trim(split_think(s).0), trim_start(split_think(s).1))
}

pub(crate) fn extend(v: &mut Vec<char>, s: &[char], from: usize, to: usize)
    requires
        from <= to <= s.len(),
    ensures
        final(v)@ == old(v)@ + s@.subrange(from as int, to as int),
{
    let mut i = from;
    while i < to
        invariant
            from <= i <= to <= s.len(),
            v@ == old(v)@ + s@.subrange(from as int, i as int),
        decreases to - i,
    {
        v.push(s[i]);
        i = i + 1;
        assert(s@.subrange(from as int, i as int) == s@.subrange(from as int, i - 1).push(
            s@[i - 1],
        ));
    }
}

/// Separates a model's reasoning from its answer: the text of every
/// `<think>...</think>` block (an unclosed block counts to the end, so
/// streamed reasoning stays hidden) and the text around the blocks.
pub fn split_thinking_text(input: &str) -> (out: (String, String))
    ensures
        (out.0@, out.1@) == spec_split_thinking_text(input@),
{
    let s = chars_of(input);
    let open_tag = chars_of("<think>");
    let close_tag = chars_of("</think>");
    proof {
        reveal_strlit("<think>");
        reveal_strlit("</think>");
    }
    let mut thinking: Vec<char> = Vec::new();
    let mut visible: Vec<char> = Vec::new();
    let mut pos: usize = 0;
    let mut done = false;
    assert(s@.skip(0) == s@);
    while !done
        invariant
            pos <= s.len(),
            open_tag@ == "<think>"@,
            close_tag@ == "</think>"@,
            done ==> (thinking@, visible@) == split_think(s@),
            !done ==> (thinking@ + split_think(s@.skip(pos as int)).0, visible@ + split_think(
                s@.skip(pos as int),
            ).1) == split_think(s@),
        decreases s.len() - pos + (if done { 0int } else { 1int }),
    {
        let ghost rest = s@.skip(pos as int);
        proof {
            reveal_strlit("<think>");
            reveal_strlit("</think>");
            lemma_find_spec(rest, open_tag@);
        }
        match find_from(s.as_slice(), open_tag.as_slice(), pos) {
            None => {
                extend(&mut visible, s.as_slice(), pos, s.len());
                assert(s@.subrange(pos as int, s.len() as int) == rest);
                done = true;
            },
            Some(open) => {
                assert(open - pos + 7 <= rest.len());
                assert(open + 7 <= s.len());
                let after_start = open + 7;
                let ghost after = rest.skip(open - pos + 7);
                assert(after == s@.skip(after_start as int));
                proof {
                    lemma_find_spec(after, close_tag@);
                }
                extend(&mut visible, s.as_slice(), pos, open);
                assert(s@.subrange(pos as int, open as int) == rest.take(open - pos));
                match find_from(s.as_slice(), close_tag.as_slice(), after_start) {
                    None => {
                        extend(&mut thinking, s.as_slice(), after_start, s.len());
                        assert(s@.subrange(after_start as int, s.len() as int) == after);
                        done = true;
                    },
                    Some(close) => {
                        extend(&mut thinking, s.as_slice(), after_start, close);
                        assert(s@.subrange(after_start as int, close as int) == after.take(
                            close - after_start,
                        ));
                        let next = close + 8;
                        assert(after.skip(close - after_start + 8) == s@.skip(next as int));
                        let ghost r = split_think(s@.skip(next as int));
                        pos = next;
                    },
                }
            },
        }
    }
    let t = trim_chars(thinking.as_slice());
    let mut start: usize = 0;
    while start < visible.len() && is_whitespace(visible[start])
        invariant
            start <= visible.len(),
            forall|j: int| 0 <= j < start ==> is_ws(#[trigger] visible@[j]),
        decreases visible.len() - start,
    {
        start = start + 1;
    }
    proof {
        crate::text::lemma_trim_start_skip(visible@, start as int);
    }
    let mut v: Vec<char> = Vec::new();
    extend(&mut v, visible.as_slice(), start, visible.len());
    assert(visible@.subrange(start as int, visible.len() as int) == visible@.skip(start as int));
    (string_of(t.as_slice()), string_of(v.as_slice()))
}

// ---------------------------------------------------------------------------
// Tool calls printed as text
// ---------------------------------------------------------------------------

pub open spec fn looks_like_web_tool_call(s: Seq<char>) -> bool {
    let t = trim(s);
    (starts_with(t, "{"@) || starts_with(t, "```json"@)) && (contains(t, "\"web_search\""@)
        || contains(t, "\"fetch_webpage\""@))
}

/// The notice shown in place of a web tool call that a model printed while
/// web search is off.
pub const DISABLED_WEB_TOOL_MESSAGE: &'static str = "Web search is disabled. Enable it in Settings or with the Web toggle for this chat.";

/// When the text is a web tool call printed as JSON (an object, or a
/// `json` code block, naming `web_search` or `fetch_webpage`), the notice
/// that web search is disabled.
pub fn disabled_web_tool_message(input: &str) -> (out: Option<&'static str>)
    ensures
        looks_like_web_tool_call(input@) ==> (out matches Some(m) && m@ == DISABLED_WEB_TOOL_MESSAGE@),
        !looks_like_web_tool_call(input@) ==> out is None,
{
    let t = trim_chars(chars_of(input).as_slice());
    let brace = chars_of("{");
    let fence = chars_of("```json");
    let web = chars_of("\"web_search\"");
    let fetch = chars_of("\"fetch_webpage\"");
    let starts = crate::text::starts_with_chars(t.as_slice(), brace.as_slice())
        || crate::text::starts_with_chars(t.as_slice(), fence.as_slice());
    let names = crate::text::contains_chars(t.as_slice(), web.as_slice())
        || crate::text::contains_chars(t.as_slice(), fetch.as_slice());
    if starts && names {
        Some(DISABLED_WEB_TOOL_MESSAGE)
    } else {
        None
    }
}

// ---------------------------------------------------------------------------
// Conversation prompt
// ---------------------------------------------------------------------------

pub const CONTEXT_INTRO: &'static str = "The following is a conversation between an AI language model and ";

pub const CONTEXT_ROLE: &'static str = ". You are the AI language model:\n    ";

pub const CONTEXT_END: &'static str = "\n    [END CONVERSATION CONTEXT]\n    Now, the user is sending another message: ";

pub const CONTEXT_RESPOND: &'static str = "\n    Respond:\n    ";

/// Who the model is talking to: the profile's user name, trimmed, or "a User".
pub open spec fn conversation_partner(user_name: Seq<char>) -> Seq<char> {
    if trim(user_name).len() == 0 {
        "a User"@
    } else {
        trim(user_name)
    }
}

/// The conversation so far framed as one prompt that names the user.
pub open spec fn spec_conversation_context_prompt(context: Seq<char>, user_name: Seq<char>, prompt: Seq<char>) -> Seq<char> {
    CONTEXT_INTRO@ + conversation_partner(user_name) + CONTEXT_ROLE@ + context + CONTEXT_END@ + prompt
        + CONTEXT_RESPOND@
}

/// Frames the ongoing conversation as a single prompt, naming the person
/// the model talks to (the profile's user name, or "a User").
pub fn conversation_context_prompt(context: &str, user_name: &str, prompt: &str) -> (out: String)
    ensures
        out@ == spec_conversation_context_prompt(context@, user_name@, prompt@),
{
    let name = trim_chars(chars_of(user_name).as_slice());
    let mut out = copy_string(CONTEXT_INTRO);
    if name.len() == 0 {
        push_str_chars(&mut out, "a User");
    } else {
        push_chars(&mut out, name.as_slice());
    }
    push_str_chars(&mut out, CONTEXT_ROLE);
    push_str_chars(&mut out, context);
    push_str_chars(&mut out, CONTEXT_END);
    push_str_chars(&mut out, prompt);
    push_str_chars(&mut out, CONTEXT_RESPOND);
    out
}

// ---------------------------------------------------------------------------
// Code fence languages
// ---------------------------------------------------------------------------

/// The language a popular alias stands for, in the form highlighters know.
pub open spec fn fence_alias(token: Seq<char>) -> Option<Seq<char>> {
    let t = ascii_lower(token);
    if t == "csharp"@ || t == "c-sharp"@ {
        Some("cs"@)
    } else if t == "cplusplus"@ || t == "cxx"@ {
        Some("cpp"@)
    } else if t == "golang"@ {
        Some("go"@)
    } else if t == "javascriptreact"@ {
        Some("jsx"@)
    } else if t == "typescriptreact"@ {
        Some("tsx"@)
    } else if t == "objectivec"@ || t == "objective-c"@ {
        Some("m"@)
    } else if t == "visualbasic"@ || t == "vbnet"@ || t == "vb.net"@ {
        Some("vb"@)
    } else {
        None
    }
}

fn is_literal(s: &[char], lit: &str) -> (out: bool)
    ensures
        out == (s@ == lit@),
{
    let l = chars_of(lit);
    crate::text::slices_equal(s, l.as_slice())
}

/// The usual name of a code fence language given by a popular alias
/// (ASCII case ignored), e.g. `csharp` to `cs`.
pub fn code_fence_language_alias(language: &[char]) -> (out: Option<&'static str>)
    ensures
        crate::web_search::opt_str_view(out) == fence_alias(language@),
{
    let t = ascii_lower_chars(language);
    if is_literal(t.as_slice(), "csharp") || is_literal(t.as_slice(), "c-sharp") {
        Some("cs")
    } else if is_literal(t.as_slice(), "cplusplus") || is_literal(t.as_slice(), "cxx") {
        Some("cpp")
    } else if is_literal(t.as_slice(), "golang") {
        Some("go")
    } else if is_literal(t.as_slice(), "javascriptreact") {
        Some("jsx")
    } else if is_literal(t.as_slice(), "typescriptreact") {
        Some("tsx")
    } else if is_literal(t.as_slice(), "objectivec") || is_literal(t.as_slice(), "objective-c") {
        Some("m")
    } else if is_literal(t.as_slice(), "visualbasic") || is_literal(t.as_slice(), "vbnet")
        || is_literal(t.as_slice(), "vb.net") {
        Some("vb")
    } else {
        None
    }
}

/// `s` without its trailing `\r` and `\n` characters.
pub open spec fn trim_line_end(s: Seq<char>) -> Seq<char>
    decreases s.len(),
{
    if s.len() > 0 && (s.last() == '\r' || s.last() == '\n') {
        trim_line_end(s.drop_last())
    } else {
        s
    }
}

/// How many copies of `c` `s` starts with.
pub open spec fn run_length(s: Seq<char>, c: char) -> int
    decreases s.len(),
{
    if s.len() > 0 && s[0] == c {
        1 + run_length(s.drop_first(), c)
    } else {
        0
    }
}

/// The index of the first whitespace character of `s`.
pub open spec fn find_ws(s: Seq<char>) -> Option<int>
    decreases s.len(),
{
    if s.len() == 0 {
        None
    } else if is_ws(s[0]) {
        Some(0)
    } else {
        match find_ws(s.drop_first()) {
            Some(i) => Some(i + 1),
            None => None,
        }
    }
}

/// One line (with its line ending) after the fence state `open` (the
/// marker and length of the open fence, if any): the line as output and
/// the state after it. An opening fence's language alias is replaced;
/// every other line is kept as it is.
pub open spec fn fence_line(seg: Seq<char>, open: Option<(char, int)>) -> (Seq<char>, Option<(char, int)>) {
    let body = trim_line_end(seg);
    let line_ending = seg.skip(body.len() as int);
    let trimmed = trim_start(body);
    let indent = body.len() - trimmed.len();
    let mlen = if trimmed.len() > 0 {
        run_length(trimmed, trimmed[0])
    } else {
        0
    };
    match open {
        Some((am, al)) => {
            let closing = trimmed.len() > 0 && trimmed[0] == am && mlen >= al && trim(
                trimmed.skip(mlen),
            ).len() == 0;
            (seg, if closing {
                None
            } else {
                open
            })
        },
        None => {
            if !(trimmed.len() > 0 && (trimmed[0] == '`' || trimmed[0] == '~')) || mlen < 3 {
                (seg, None)
            } else {
                let info = trimmed.skip(mlen);
                let lead = info.len() - trim_start(info).len();
                let token_start = indent + mlen + lead;
                let token_len = match find_ws(info.skip(lead)) {
                    Some(i) => i,
                    None => info.len() - lead,
                };
                let token_end = token_start + token_len;
                let state = Some((trimmed[0], mlen));
                match fence_alias(body.subrange(token_start, token_end)) {
                    Some(a) => (body.take(token_start) + a + body.skip(token_end) + line_ending, state),
                    None => (seg, state),
                }
            }
        },
    }
}

/// Where the first line of `s` ends: after its `\n`, or at the end.
pub open spec fn line_end(s: Seq<char>) -> int {
    match find(s, "\n"@) {
        Some(i) => i + 1,
        None => s.len() as int,
    }
}

/// `s` line by line through `fence_line`, starting in state `open`.
pub open spec fn normalize_fences(s: Seq<char>, open: Option<(char, int)>) -> Seq<char>
    decreases s.len(),
{
    if s.len() == 0 {
        Seq::empty()
    } else {
        proof {
            lemma_find_spec(s, "\n"@);
            reveal_strlit("\n");
        }
        let k = line_end(s);
        let r = fence_line(s.take(k), open);
        r.0 + normalize_fences(s.skip(k), r.1)
    }
}

pub open spec fn fence_state(o: Option<(char, usize)>) -> Option<(char, int)> {
    match o {
        Some((c, n)) => Some((c, n as int)),
        None => None,
    }
}

proof fn lemma_trim_start_suffix(s: Seq<char>)
    ensures
        trim_start(s).len() <= s.len(),
        s.skip(s.len() - trim_start(s).len()) == trim_start(s),
    decreases s.len(),
{
    if s.len() > 0 && is_ws(s[0]) {
        lemma_trim_start_suffix(s.drop_first());
        assert(s.drop_first().skip(s.drop_first().len() - trim_start(s).len()) == s.skip(
            s.len() - trim_start(s).len(),
        ));
    } else {
        assert(s.skip(0) == s);
    }
}

proof fn lemma_trim_line_end_prefix(s: Seq<char>)
    ensures
        trim_line_end(s).len() <= s.len(),
        s.take(trim_line_end(s).len() as int) == trim_line_end(s),
    decreases s.len(),
{
    if s.len() > 0 && (s.last() == '\r' || s.last() == '\n') {
        lemma_trim_line_end_prefix(s.drop_last());
        assert(s.drop_last().take(trim_line_end(s).len() as int) == s.take(
            trim_line_end(s).len() as int,
        ));
    } else {
        assert(s.take(s.len() as int) == s);
    }
}

pub(crate) fn trim_line_end_len(seg: &[char]) -> (out: usize)
    ensures
        out == trim_line_end(seg@).len(),
        out <= seg.len(),
        seg@.take(out as int) == trim_line_end(seg@),
{
    let mut n = seg.len();
    assert(seg@.take(n as int) == seg@);
    while n > 0 && (seg[n - 1] == '\r' || seg[n - 1] == '\n')
        invariant
            n <= seg.len(),
            trim_line_end(seg@) == trim_line_end(seg@.take(n as int)),
        decreases n,
    {
        assert(seg@.take(n as int).drop_last() == seg@.take(n - 1));
        n = n - 1;
    }
    assert(seg@.take(n as int).len() == n);
    proof {
        lemma_trim_line_end_prefix(seg@);
    }
    n
}

pub(crate) fn run_length_exec(s: &[char], from: usize, to: usize, c: char) -> (out: usize)
    requires
        from <= to <= s.len(),
    ensures
        from + out <= to,
        out as int == run_length(s@.subrange(from as int, to as int), c),
{
    let mut i = from;
    while i < to && s[i] == c
        invariant
            from <= i <= to <= s.len(),
            run_length(s@.subrange(from as int, to as int), c) == (i - from) + run_length(
                s@.subrange(i as int, to as int),
                c,
            ),
        decreases to - i,
    {
        assert(s@.subrange(i as int, to as int).drop_first() == s@.subrange(i + 1, to as int));
        i = i + 1;
    }
    i - from
}

fn find_ws_exec(s: &[char], from: usize, to: usize) -> (out: Option<usize>)
    requires
        from <= to <= s.len(),
    ensures
        out matches Some(i) ==> from <= i < to && find_ws(s@.subrange(from as int, to as int))
            == Some(i - from),
        out is None ==> find_ws(s@.subrange(from as int, to as int)) is None,
{
    let mut i = from;
    while i < to
        invariant
            from <= i <= to <= s.len(),
            find_ws(s@.subrange(from as int, to as int)) == match find_ws(
                s@.subrange(i as int, to as int),
            ) {
                Some(j) => Some(j + (i - from)),
                None => None::<int>,
            },
        decreases to - i,
    {
        assert(s@.subrange(i as int, to as int).drop_first() == s@.subrange(i + 1, to as int));
        if is_whitespace(s[i]) {
            return Some(i);
        }
        i = i + 1;
    }
    None
}

pub(crate) fn skip_ws(s: &[char], from: usize, to: usize) -> (out: usize)
    requires
        from <= to <= s.len(),
    ensures
        from <= out <= to,
        s@.subrange(out as int, to as int) == trim_start(s@.subrange(from as int, to as int)),
{
    let mut i = from;
    while i < to && is_whitespace(s[i])
        invariant
            from <= i <= to <= s.len(),
            trim_start(s@.subrange(from as int, to as int)) == trim_start(s@.subrange(i as int, to as int)),
        decreases to - i,
    {
        assert(s@.subrange(i as int, to as int).drop_first() == s@.subrange(i + 1, to as int));
        i = i + 1;
    }
    i
}

#[verifier::rlimit(30)]
fn fence_line_exec(seg: &[char], state_in: Option<(char, usize)>) -> (out: (Vec<char>, Option<(char, usize)>))
    ensures
        (out.0@, fence_state(out.1)) == fence_line(seg@, fence_state(state_in)),
{
    let body_len = trim_line_end_len(seg);
    let ghost body = seg@.take(body_len as int);
    let start = skip_ws(seg, 0, body_len);
    assert(seg@.subrange(0, body_len as int) == body);
    let ghost trimmed = seg@.subrange(start as int, body_len as int);
    assert(trimmed == trim_start(body));
    let mlen = if start < body_len {
        run_length_exec(seg, start, body_len, seg[start])
    } else {
        0
    };
    match state_in {
        Some((am, al)) => {
            let closing = if start < body_len && seg[start] == am && mlen >= al {
                assert(trimmed.skip(mlen as int) == seg@.subrange(start + mlen, body_len as int));
                let rest = crate::text::slice_range(seg, start + mlen, body_len);
                let t = trim_chars(rest.as_slice());
                t.len() == 0
            } else {
                false
            };
            assert(seg@.subrange(0, seg.len() as int) == seg@);
            assert(trimmed.len() > 0 ==> trimmed[0] == seg@[start as int]);
            let copy = crate::text::slice_range(seg, 0, seg.len());
            let next: Option<(char, usize)> = if closing {
                None
            } else {
                state_in
            };
            (copy, next)
        },
        None => {
            if !(start < body_len && (seg[start] == '`' || seg[start] == '~')) || mlen < 3 {
                assert(seg@.subrange(0, seg.len() as int) == seg@);
                return (crate::text::slice_range(seg, 0, seg.len()), None);
            }
            let info_start = start + mlen;
            let token_start = skip_ws(seg, info_start, body_len);
            let ghost info = trimmed.skip(mlen as int);
            assert(info == seg@.subrange(info_start as int, body_len as int));
            assert(trim_start(info) == seg@.subrange(token_start as int, body_len as int));
            assert(info.skip(token_start - info_start) == seg@.subrange(token_start as int, body_len as int));
            let token_end = match find_ws_exec(seg, token_start, body_len) {
                Some(i) => i,
                None => body_len,
            };
            assert(body.subrange(token_start as int, token_end as int) == seg@.subrange(
                token_start as int,
                token_end as int,
            ));
            let token = crate::text::slice_range(seg, token_start, token_end);
            let state = Some((seg[start], mlen));
            match code_fence_language_alias(token.as_slice()) {
                Some(a) => {
                    let mut out: Vec<char> = Vec::new();
                    extend(&mut out, seg, 0, token_start);
                    let ac = chars_of(a);
                    extend(&mut out, ac.as_slice(), 0, ac.len());
                    extend(&mut out, seg, token_end, seg.len());
                    proof {
                        assert(ac@.subrange(0, ac@.len() as int) == ac@);
                        assert(seg@.subrange(token_end as int, seg.len() as int) == body.skip(
                            token_end as int,
                        ) + seg@.skip(body_len as int));
                    }
                    (out, state)
                },
                None => {
                    assert(seg@.subrange(0, seg.len() as int) == seg@);
                    (crate::text::slice_range(seg, 0, seg.len()), state)
                },
            }
        },
    }
}

/// Replaces popular language aliases in opening code fence lines (```
/// or ~~~, at least three) with the names highlighters know; everything
/// inside a fenced block, and every other line, is kept as it is.
pub fn normalize_code_fence_languages(input: &str) -> (out: String)
    ensures
        out@ == normalize_fences(input@, None),
{
    let s = chars_of(input);
    let mut out: Vec<char> = Vec::new();
    let mut open: Option<(char, usize)> = None;
    let mut pos: usize = 0;
    assert(s@.skip(0) == s@);
    while pos < s.len()
        invariant
            pos <= s.len(),
            out@ + normalize_fences(s@.skip(pos as int), fence_state(open)) == normalize_fences(
                s@,
                None,
            ),
        decreases s.len() - pos,
    {
        let ghost rest = s@.skip(pos as int);
        let nl = chars_of("\n");
        proof {
            reveal_strlit("\n");
            lemma_find_spec(rest, nl@);
        }
        let end = match find_from(s.as_slice(), nl.as_slice(), pos) {
            Some(i) => i + 1,
            None => s.len(),
        };
        assert(end - pos == line_end(rest));
        let seg = crate::text::slice_range(s.as_slice(), pos, end);
        assert(seg@ == rest.take(end - pos));
        let (line, next) = fence_line_exec(seg.as_slice(), open);
        let ghost before = out@;
        extend(&mut out, line.as_slice(), 0, line.len());
        assert(line@.subrange(0, line@.len() as int) == line@);
        assert(rest.skip(end - pos) == s@.skip(end as int));
        open = next;
        pos = end;
    }
    assert(s@.skip(s.len() as int) =~= Seq::<char>::empty());
    string_of(out.as_slice())
}

} // verus!
