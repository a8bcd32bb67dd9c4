//! The decisions of the research tool loop: budgets, query and source
//! bookkeeping, guidance text and the checks that keep research going.
use vstd::prelude::*;
use crate::text::{
    ascii_lower, ascii_lower_chars, chars_of, collapse_whitespace, collapse_ws, contains,
    contains_chars, copy_string, push_chars, push_str_chars, string_of, to_lowercase, trim,
    trim_bounds, unicode_lowercase,
};
use crate::tool_settings::ToolSettings;
use crate::web_search::{
    WebSource, WebSearchSettings, DEFAULT_PAGES_PER_MESSAGE, DEFAULT_SEARCHES_PER_MESSAGE,
    MAX_STALLED_RESEARCH_REMINDERS, CONVERSATION_SEARCHES_PER_MESSAGE, MAX_PAGE_TEXT_CHARS, clamp,
};

verus! {

/// The counters and limits of one response's tool use.
pub struct ToolBudget {
    pub iterations: usize,
    pub iteration_limit: usize,
    pub searches: usize,
    pub search_limit: usize,
    pub pages: usize,
    pub page_limit: usize,
    pub code_checks: usize,
    pub code_check_limit: usize,
    pub conversation_searches: usize,
    pub conversation_search_limit: usize,
}

/// The limits a budget starts with.
pub open spec fn spec_search_limit(settings: WebSearchSettings) -> int {
    if settings.allow_multiple_searches {
        settings.maximum_searches as int
    } else {
        DEFAULT_SEARCHES_PER_MESSAGE as int
    }
}

pub open spec fn spec_page_limit(settings: WebSearchSettings) -> int {
    if settings.allow_multiple_searches {
        settings.maximum_page_fetches as int
    } else {
        DEFAULT_PAGES_PER_MESSAGE as int
    }
}

pub open spec fn spec_iteration_limit(settings: WebSearchSettings) -> int {
    if settings.allow_multiple_searches {
        settings.tool_iteration_limit as int
    } else {
        DEFAULT_SEARCHES_PER_MESSAGE + DEFAULT_PAGES_PER_MESSAGE + MAX_STALLED_RESEARCH_REMINDERS + 1
    }
}

/// The effect of one "take" on a counter: `(taken, counter after)`.
pub open spec fn spec_take(counter: int, limit: int) -> (bool, int) {
    if counter >= limit {
        (false, counter)
    } else {
        (true, counter + 1)
    }
}

/// The effect of a refund on a counter: one less, never below zero.
pub open spec fn spec_refund(counter: int) -> int {
    if counter > 0 {
        counter - 1
    } else {
        0
    }
}

impl ToolBudget {
    /// Only the counter of the named kind differs between `a` and `b`.
    pub open spec fn same_limits(a: ToolBudget, b: ToolBudget) -> bool {
        &&& a.iteration_limit == b.iteration_limit
        &&& a.search_limit == b.search_limit
        &&& a.page_limit == b.page_limit
        &&& a.code_check_limit == b.code_check_limit
        &&& a.conversation_search_limit == b.conversation_search_limit
    }

    pub fn new(settings: &WebSearchSettings) -> (out: Self)
        ensures
            out.iterations == 0 && out.searches == 0 && out.pages == 0 && out.code_checks == 0
                && out.conversation_searches == 0,
            out.search_limit == spec_search_limit(*settings),
            out.page_limit == spec_page_limit(*settings),
            out.iteration_limit == spec_iteration_limit(*settings),
            out.code_check_limit == 1,
            out.conversation_search_limit == CONVERSATION_SEARCHES_PER_MESSAGE,
    {
        let search_limit = if settings.allow_multiple_searches {
            settings.maximum_searches
        } else {
            DEFAULT_SEARCHES_PER_MESSAGE
        };
        let page_limit = if settings.allow_multiple_searches {
            settings.maximum_page_fetches
        } else {
            DEFAULT_PAGES_PER_MESSAGE
        };
        let iteration_limit = if settings.allow_multiple_searches {
            settings.tool_iteration_limit
        } else {
            DEFAULT_SEARCHES_PER_MESSAGE + DEFAULT_PAGES_PER_MESSAGE + MAX_STALLED_RESEARCH_REMINDERS
                + 1
        };
        ToolBudget {
            iterations: 0,
            iteration_limit,
            searches: 0,
            search_limit,
            pages: 0,
            page_limit,
            code_checks: 0,
            // One check validates the proposed snippet without making a code
            // response wait through multiple compiler round trips.
            code_check_limit: 1,
            conversation_searches: 0,
            conversation_search_limit: CONVERSATION_SEARCHES_PER_MESSAGE,
        }
    }

    pub fn take_iteration(&mut self) -> (out: bool)
        ensures
            (out, final(self).iterations as int) == spec_take(
                old(self).iterations as int,
                old(self).iteration_limit as int,
            ),
            ToolBudget::same_limits(*final(self), *old(self)),
            final(self).searches == old(self).searches,
            final(self).pages == old(self).pages,
            final(self).code_checks == old(self).code_checks,
            final(self).conversation_searches == old(self).conversation_searches,
    {
        if self.iterations >= self.iteration_limit {
            false
        } else {
            self.iterations = self.iterations + 1;
            true
        }
    }

    pub fn take_search(&mut self) -> (out: bool)
        ensures
            (out, final(self).searches as int) == spec_take(
                old(self).searches as int,
                old(self).search_limit as int,
            ),
            ToolBudget::same_limits(*final(self), *old(self)),
            final(self).iterations == old(self).iterations,
            final(self).pages == old(self).pages,
            final(self).code_checks == old(self).code_checks,
            final(self).conversation_searches == old(self).conversation_searches,
    {
        if self.searches >= self.search_limit {
            false
        } else {
            self.searches = self.searches + 1;
            true
        }
    }

    pub fn search_limit(&self) -> (out: usize)
        ensures
            out == self.search_limit,
    {
        self.search_limit
    }

    /// Searches taken so far.
    pub fn searches(&self) -> (out: usize)
        ensures
            out == self.searches,
    {
        self.searches
    }

    /// Page fetches taken so far.
    pub fn pages(&self) -> (out: usize)
        ensures
            out == self.pages,
    {
        self.pages
    }

    /// Code checks taken so far.
    pub fn code_checks(&self) -> (out: usize)
        ensures
            out == self.code_checks,
    {
        self.code_checks
    }

    pub fn has_search_capacity(&self) -> (out: bool)
        ensures
            out == (self.searches < self.search_limit),
    {
        self.searches < self.search_limit
    }

    pub fn take_page(&mut self) -> (out: bool)
        ensures
            (out, final(self).pages as int) == spec_take(
                old(self).pages as int,
                old(self).page_limit as int,
            ),
            ToolBudget::same_limits(*final(self), *old(self)),
            final(self).iterations == old(self).iterations,
            final(self).searches == old(self).searches,
            final(self).code_checks == old(self).code_checks,
            final(self).conversation_searches == old(self).conversation_searches,
    {
        if self.pages >= self.page_limit {
            false
        } else {
            self.pages = self.pages + 1;
            true
        }
    }

    /// Gives back a search whose request failed; never goes below zero.
    pub fn refund_search(&mut self)
        ensures
            final(self).searches == spec_refund(old(self).searches as int),
            ToolBudget::same_limits(*final(self), *old(self)),
            final(self).iterations == old(self).iterations,
            final(self).pages == old(self).pages,
            final(self).code_checks == old(self).code_checks,
            final(self).conversation_searches == old(self).conversation_searches,
    {
        if self.searches > 0 {
            self.searches = self.searches - 1;
        }
    }

    /// Gives back a page fetch that failed; never goes below zero.
    pub fn refund_page(&mut self)
        ensures
            final(self).pages == spec_refund(old(self).pages as int),
            ToolBudget::same_limits(*final(self), *old(self)),
            final(self).iterations == old(self).iterations,
            final(self).searches == old(self).searches,
            final(self).code_checks == old(self).code_checks,
            final(self).conversation_searches == old(self).conversation_searches,
    {
        if self.pages > 0 {
            self.pages = self.pages - 1;
        }
    }

    pub fn page_limit(&self) -> (out: usize)
        ensures
            out == self.page_limit,
    {
        self.page_limit
    }

    pub fn has_page_capacity(&self) -> (out: bool)
        ensures
            out == (self.pages < self.page_limit),
    {
        self.pages < self.page_limit
    }

    pub fn take_code_check(&mut self) -> (out: bool)
        ensures
            (out, final(self).code_checks as int) == spec_take(
                old(self).code_checks as int,
                old(self).code_check_limit as int,
            ),
            ToolBudget::same_limits(*final(self), *old(self)),
            final(self).iterations == old(self).iterations,
            final(self).searches == old(self).searches,
            final(self).pages == old(self).pages,
            final(self).conversation_searches == old(self).conversation_searches,
    {
        if self.code_checks >= self.code_check_limit {
            false
        } else {
            self.code_checks = self.code_checks + 1;
            true
        }
    }

    pub fn code_check_limit(&self) -> (out: usize)
        ensures
            out == self.code_check_limit,
    {
        self.code_check_limit
    }

    pub fn has_code_check_capacity(&self) -> (out: bool)
        ensures
            out == (self.code_checks < self.code_check_limit),
    {
        self.code_checks < self.code_check_limit
    }

    pub fn take_conversation_search(&mut self) -> (out: bool)
        ensures
            (out, final(self).conversation_searches as int) == spec_take(
                old(self).conversation_searches as int,
                old(self).conversation_search_limit as int,
            ),
            ToolBudget::same_limits(*final(self), *old(self)),
            final(self).iterations == old(self).iterations,
            final(self).searches == old(self).searches,
            final(self).pages == old(self).pages,
            final(self).code_checks == old(self).code_checks,
    {
        if self.conversation_searches >= self.conversation_search_limit {
            false
        } else {
            self.conversation_searches = self.conversation_searches + 1;
            true
        }
    }

    pub open spec fn spec_has_tool_capacity(&self, tools: ToolSettings, code_checking_enabled: bool) -> bool {
        tools.enabled && ((tools.web_search && self.searches < self.search_limit) || (
        tools.fetch_webpage && self.pages < self.page_limit) || (tools.code_checking
            && code_checking_enabled && self.code_checks < self.code_check_limit))
    }

    /// Whether any enabled tool can still be used.
    pub fn has_tool_capacity(&self, tool_settings: &ToolSettings, code_checking_enabled: bool) -> (out: bool)
        ensures
            out == self.spec_has_tool_capacity(*tool_settings, code_checking_enabled),
    {
        tool_settings.enabled && ((tool_settings.web_search && self.has_search_capacity()) || (
        tool_settings.fetch_webpage && self.has_page_capacity()) || (tool_settings.code_checking
            && code_checking_enabled && self.has_code_check_capacity()))
    }
}

/// A refund gives back exactly what a successful take used, and a refund at
/// zero stays at zero.
pub proof fn law_refund_undoes_take(counter: int, limit: int)
    requires
        0 <= counter,
    ensures
        spec_take(counter, limit).0 ==> spec_refund(spec_take(counter, limit).1) == counter,
        spec_refund(0) == 0,
        spec_refund(counter) >= 0,
{
}

/// No sequence of takes pushes a counter past its limit once it is within it.
pub proof fn law_take_stays_within_limit(counter: int, limit: int)
    requires
        0 <= counter <= limit,
    ensures
        0 <= spec_take(counter, limit).1 <= limit,
        spec_take(counter, limit).0 <==> counter < limit,
{
}

/// How many characters of one page may be given to the model: twice the
/// context size shared among the page budget, within 2 000..=24 576.
pub open spec fn spec_page_text_limit(context_tokens: u32, page_limit: usize) -> int {
    let divisor = if page_limit < 1 { 1 } else { page_limit as int };
    clamp((context_tokens as int * 2) / divisor, 2000, MAX_PAGE_TEXT_CHARS as int)
}

pub fn page_text_limit(context_tokens: u32, page_limit: usize) -> (out: usize)
    ensures
        out == spec_page_text_limit(context_tokens, page_limit),
{
    let divisor: u64 = if page_limit < 1 {
        1
    } else {
        page_limit as u64
    };
    let doubled: u64 = context_tokens as u64 * 2;
    let share: u64 = doubled / divisor;
    if share < 2000 {
        2000
    } else if share > MAX_PAGE_TEXT_CHARS as u64 {
        MAX_PAGE_TEXT_CHARS
    } else {
        share as usize
    }
}

pub open spec fn spec_combined_thinking(previous: Seq<char>, current: Seq<char>) -> Seq<char> {
    if trim(previous).len() == 0 && trim(current).len() == 0 {
        Seq::<char>::empty()
    } else if trim(previous).len() == 0 {
        trim(current)
    } else if trim(current).len() == 0 {
        trim(previous)
    } else {
        trim(previous) + "\n\n"@ + trim(current)
    }
}

/// Two reasoning texts, trimmed, separated by a blank line when both are
/// non-blank.
pub fn combined_thinking(previous: &str, current: &str) -> (out: String)
    ensures
        out@ == spec_combined_thinking(previous@, current@),
{
    let p = chars_of(previous);
    let c = chars_of(current);
    let (ps, pe) = trim_bounds(p.as_slice());
    let (cs, ce) = trim_bounds(c.as_slice());
    let pt = crate::text::slice_range(p.as_slice(), ps, pe);
    let ct = crate::text::slice_range(c.as_slice(), cs, ce);
    let mut out = String::new();
    if pt.len() == 0 && ct.len() == 0 {
    } else if pt.len() == 0 {
        push_chars(&mut out, ct.as_slice());
    } else if ct.len() == 0 {
        push_chars(&mut out, pt.as_slice());
    } else {
        push_chars(&mut out, pt.as_slice());
        push_str_chars(&mut out, "\n\n");
        push_chars(&mut out, ct.as_slice());
    }
    out
}

pub open spec fn spec_combined_answer(previous: Seq<char>, current: Seq<char>) -> Seq<char> {
    if trim(previous).len() == 0 && trim(current).len() == 0 {
        Seq::<char>::empty()
    } else if trim(previous).len() == 0 {
        current
    } else if trim(current).len() == 0 {
        previous
    } else {
        previous + "\n\n"@ + current
    }
}

/// Two answer drafts, untrimmed, separated by a blank line when both are
/// non-blank; a blank draft is dropped.
pub fn combined_answer(previous: &str, current: &str) -> (out: String)
    ensures
        out@ == spec_combined_answer(previous@, current@),
{
    let p = chars_of(previous);
    let c = chars_of(current);
    let (ps, pe) = trim_bounds(p.as_slice());
    let (cs, ce) = trim_bounds(c.as_slice());
    let mut out = String::new();
    if pe == ps && ce == cs {
    } else if pe == ps {
        push_chars(&mut out, c.as_slice());
    } else if ce == cs {
        push_chars(&mut out, p.as_slice());
    } else {
        push_chars(&mut out, p.as_slice());
        push_str_chars(&mut out, "\n\n");
        push_chars(&mut out, c.as_slice());
    }
    out
}

pub open spec fn spec_normalize_search_query(query: Seq<char>) -> Seq<char> {
    unicode_lowercase(collapse_ws(query))
}

/// A query with its whitespace collapsed to single spaces, lowercased, so
/// that repeated searches compare equal. An ASCII query is lowercased the
/// ASCII way.
pub fn normalize_search_query(query: &str) -> (out: String)
    ensures
        out@ == spec_normalize_search_query(query@),
        crate::text::is_ascii_text(query@) ==> out@ == ascii_lower(collapse_ws(query@)),
{
    let collapsed = collapse_whitespace(chars_of(query).as_slice());
    let s = string_of(collapsed.as_slice());
    proof {
        if crate::text::is_ascii_text(query@) {
            crate::text::lemma_collapse_ws_ascii(query@);
        }
    }
    to_lowercase(s.as_str())
}

/// Whether `detail` contains any of the needles, ignoring ASCII case.
pub open spec fn mentions_any(detail: Seq<char>, needles: Seq<Seq<char>>) -> bool {
    exists|i: int| 0 <= i < needles.len() && contains(ascii_lower(detail), #[trigger] needles[i])
}

fn mentions_any_exec(lowered: &[char], needles: &Vec<&str>) -> (out: bool)
    ensures
        out == exists|i: int| 0 <= i < needles@.len() && contains(lowered@, #[trigger] needles@[i]@),
{
    let mut i: usize = 0;
    while i < needles.len()
        invariant
            i <= needles@.len(),
            forall|j: int| 0 <= j < i ==> !contains(lowered@, #[trigger] needles@[j]@),
        decreases needles@.len() - i,
    {
        if contains_chars(lowered, chars_of(needles[i]).as_slice()) {
            return true;
        }
        i = i + 1;
    }
    false
}

pub open spec fn context_length_needles() -> Seq<Seq<char>> {
    seq![
        "input length exceeds"@,
        "maximum context length"@,
        "context length exceeded"@,
        "context_length_exceeded"@,
        "prompt is too long"@,
        "prompt length exceeds"@,
        "maximum prompt length"@,
        "max_prompt_len"@,
        "too many input tokens"@,
    ]
}

/// Whether an inference error reports that the prompt exceeded the model's
/// context.
pub fn is_context_length_error(detail: &str) -> (out: bool)
    ensures
        out == mentions_any(detail@, context_length_needles()),
{
    let lowered = ascii_lower_chars(chars_of(detail).as_slice());
    let needles: Vec<&str> = vec![
        "input length exceeds",
        "maximum context length",
        "context length exceeded",
        "context_length_exceeded",
        "prompt is too long",
        "prompt length exceeds",
        "maximum prompt length",
        "max_prompt_len",
        "too many input tokens",
    ];
    let r = mentions_any_exec(lowered.as_slice(), &needles);
    assert(needles@.map_values(|s: &str| s@) =~= context_length_needles());
    assert(forall|i: int| 0 <= i < needles@.len() ==> needles@[i]@ == #[trigger] context_length_needles()[i]) by {
        assert forall|i: int| 0 <= i < needles@.len() implies needles@[i]@ == #[trigger] context_length_needles()[i] by {
            assert(needles@.map_values(|s: &str| s@)[i] == needles@[i]@);
        }
    }
    r
}

pub open spec fn tools_unsupported_needles() -> Seq<Seq<char>> {
    seq![
        "does not support tool"@,
        "doesn't support tool"@,
        "tools are not supported"@,
        "tool calling is not supported"@,
        "tool calls are not supported"@,
        "unsupported tool choice"@,
        "tool parser is not configured"@,
        "tool_parser is not configured"@,
        "missing tool parser"@,
    ]
}

/// Whether an inference error reports that the model cannot call tools.
pub fn is_tools_unsupported_error(detail: &str) -> (out: bool)
    ensures
        out == mentions_any(detail@, tools_unsupported_needles()),
{
    let lowered = ascii_lower_chars(chars_of(detail).as_slice());
    let needles: Vec<&str> = vec![
        "does not support tool",
        "doesn't support tool",
        "tools are not supported",
        "tool calling is not supported",
        "tool calls are not supported",
        "unsupported tool choice",
        "tool parser is not configured",
        "tool_parser is not configured",
        "missing tool parser",
    ];
    let r = mentions_any_exec(lowered.as_slice(), &needles);
    assert(needles@.map_values(|s: &str| s@) =~= tools_unsupported_needles());
    assert(forall|i: int| 0 <= i < needles@.len() ==> needles@[i]@ == #[trigger] tools_unsupported_needles()[i]) by {
        assert forall|i: int| 0 <= i < needles@.len() implies needles@[i]@ == #[trigger] tools_unsupported_needles()[i] by {
            assert(needles@.map_values(|s: &str| s@)[i] == needles@[i]@);
        }
    }
    r
}

pub open spec fn web_request_phrases() -> Seq<Seq<char>> {
    seq![
        "web search"@,
        "search the web"@,
        "search online"@,
        "look up online"@,
        "browse the web"@,
        "browse online"@,
    ]
}

/// Whether the user explicitly asked for a web search.
pub fn explicitly_requests_web_search(prompt: &str) -> (out: bool)
    ensures
        out == exists|i: int|
            0 <= i < web_request_phrases().len() && contains(
                spec_normalize_search_query(prompt@),
                #[trigger] web_request_phrases()[i],
            ),
{
    let normalized = normalize_search_query(prompt);
    let lowered = chars_of(normalized.as_str());
    let phrases: Vec<&str> = vec![
        "web search",
        "search the web",
        "search online",
        "look up online",
        "browse the web",
        "browse online",
    ];
    let r = mentions_any_exec(lowered.as_slice(), &phrases);
    assert(phrases@.map_values(|s: &str| s@) =~= web_request_phrases());
    assert(forall|i: int| 0 <= i < phrases@.len() ==> phrases@[i]@ == #[trigger] web_request_phrases()[i]) by {
        assert forall|i: int| 0 <= i < phrases@.len() implies phrases@[i]@ == #[trigger] web_request_phrases()[i] by {
            assert(phrases@.map_values(|s: &str| s@)[i] == phrases@[i]@);
        }
    }
    r
}


// ---------------------------------------------------------------------------
// Hosts and URLs
// ---------------------------------------------------------------------------

/// `s` split at every `sep` (`str::split` with a character pattern); there
/// is always at least one piece.
pub open spec fn split_on(s: Seq<char>, sep: char) -> Seq<Seq<char>>
    decreases s.len(),
{
    if s.len() == 0 {
        seq![Seq::<char>::empty()]
    } else {
        let p = split_on(s.drop_last(), sep);
        if s.last() == sep {
            p.push(Seq::<char>::empty())
        } else {
            p.update(p.len() - 1, p.last().push(s.last()))
        }
    }
}

pub proof fn lemma_split_nonempty(s: Seq<char>, sep: char)
    ensures
        split_on(s, sep).len() >= 1,
    decreases s.len(),
{
    if s.len() > 0 {
        lemma_split_nonempty(s.drop_last(), sep);
    }
}

pub open spec fn views(parts: Seq<Vec<char>>) -> Seq<Seq<char>> {
    parts.map_values(|v: Vec<char>| v@)
}

/// `s` split at every `sep`.
pub fn split_chars(s: &[char], sep: char) -> (out: Vec<Vec<char>>)
    ensures
        views(out@) == split_on(s@, sep),
{
    let mut out: Vec<Vec<char>> = Vec::new();
    out.push(Vec::new());
    let mut i: usize = 0;
    assert(views(out@) =~= split_on(s@.take(0), sep));
    while i < s.len()
        invariant
            i <= s.len(),
            out@.len() >= 1,
            views(out@) == split_on(s@.take(i as int), sep),
        decreases s.len() - i,
    {
        let ghost t = s@.take(i + 1);
        assert(t.drop_last() == s@.take(i as int));
        assert(t.last() == s@[i as int]);
        if s[i] == sep {
            out.push(Vec::new());
            assert(views(out@) =~= split_on(s@.take(i as int), sep).push(Seq::<char>::empty()));
        } else {
            let last = out.len() - 1;
            let mut piece = out[last].clone();
            assert(piece@ == out@[last as int]@);
            piece.push(s[i]);
            out.set(last, piece);
            let ghost p = split_on(s@.take(i as int), sep);
            assert(views(out@) =~= p.update(p.len() - 1, p.last().push(s@[i as int])));
        }
        i = i + 1;
    }
    assert(s@.take(s.len() as int) == s@);
    out
}

/// The pieces from index `start` on, joined with `sep`.
pub fn join_from(parts: &Vec<Vec<char>>, start: usize, sep: &[char]) -> (out: Vec<char>)
    requires
        start <= parts@.len(),
    ensures
        out@ == crate::text::join(views(parts@).skip(start as int), sep@),
{
    let mut out: Vec<char> = Vec::new();
    let mut i = start;
    assert(views(parts@).skip(start as int).take(0) =~= Seq::<Seq<char>>::empty());
    while i < parts.len()
        invariant
            start <= i <= parts@.len(),
            out@ == crate::text::join(views(parts@).skip(start as int).take(i - start), sep@),
        decreases parts@.len() - i,
    {
        let ghost q = views(parts@).skip(start as int).take(i - start);
        let ghost q2 = views(parts@).skip(start as int).take(i + 1 - start);
        assert(q2 == q.push(parts@[i as int]@));
        proof {
            crate::text::lemma_join_push(q, parts@[i as int]@, sep@);
        }
        if i > start {
            let mut k: usize = 0;
            let ghost before = out@;
            while k < sep.len()
                invariant
                    k <= sep.len(),
                    out@ == before + sep@.take(k as int),
                decreases sep.len() - k,
            {
                out.push(sep[k]);
                k = k + 1;
                assert(sep@.take(k as int) == sep@.take(k - 1).push(sep@[k - 1]));
            }
            assert(sep@.take(sep.len() as int) == sep@);
        }
        let piece = &parts[i];
        let ghost before2 = out@;
        let mut k: usize = 0;
        while k < piece.len()
            invariant
                k <= piece@.len(),
                out@ == before2 + piece@.take(k as int),
            decreases piece@.len() - k,
        {
            out.push(piece[k]);
            k = k + 1;
            assert(piece@.take(k as int) == piece@.take(k - 1).push(piece@[k - 1]));
        }
        assert(piece@.take(piece@.len() as int) == piece@);
        i = i + 1;
    }
    assert(views(parts@).skip(start as int).take(parts@.len() - start) == views(parts@).skip(
        start as int,
    ));
    out
}

pub open spec fn known_multi_part_suffixes() -> Seq<(Seq<char>, Seq<char>)> {
    seq![
        ("co"@, "uk"@),
        ("ac"@, "uk"@),
        ("gov"@, "uk"@),
        ("org"@, "uk"@),
        ("me"@, "uk"@),
        ("net"@, "uk"@),
        ("sch"@, "uk"@),
        ("com"@, "au"@),
        ("net"@, "au"@),
        ("org"@, "au"@),
        ("gov"@, "au"@),
        ("edu"@, "au"@),
        ("co"@, "nz"@),
        ("net"@, "nz"@),
        ("org"@, "nz"@),
        ("govt"@, "nz"@),
        ("co"@, "jp"@),
        ("or"@, "jp"@),
        ("ne"@, "jp"@),
        ("ac"@, "jp"@),
        ("go"@, "jp"@),
        ("co"@, "za"@),
        ("web"@, "za"@),
        ("co"@, "in"@),
        ("net"@, "in"@),
        ("org"@, "in"@),
        ("firm"@, "in"@),
        ("gen"@, "in"@),
        ("ind"@, "in"@),
        ("com"@, "br"@),
        ("org"@, "br"@),
        ("net"@, "br"@),
        ("gov"@, "br"@),
        ("co"@, "il"@),
        ("org"@, "il"@),
        ("net"@, "il"@),
        ("ac"@, "il"@),
        ("gov"@, "il"@),
        ("k12"@, "il"@),
        ("muni"@, "il"@)
    ]
}

/// Whether the two labels form a known two-label public suffix, ignoring
/// ASCII case.
pub open spec fn is_known_suffix(a: Seq<char>, b: Seq<char>) -> bool {
    exists|i: int|
        0 <= i < known_multi_part_suffixes().len() && ascii_lower(a)
            == (#[trigger] known_multi_part_suffixes()[i]).0 && ascii_lower(b)
            == known_multi_part_suffixes()[i].1
}

/// The registrable domain (eTLD+1) of a host name: the last three labels
/// when the last two form a known multi-part suffix, else the last two; a
/// single label stays as it is.
pub open spec fn spec_registrable_domain(host: Seq<char>) -> Seq<char> {
    let labels = split_on(host, '.');
    if labels.len() <= 1 {
        host
    } else if labels.len() > 2 && is_known_suffix(labels[labels.len() - 2], labels[labels.len() - 1]) {
        crate::text::join(labels.skip(labels.len() - 3), "."@)
    } else {
        crate::text::join(labels.skip(labels.len() - 2), "."@)
    }
}

fn known_suffix(a: &[char], b: &[char]) -> (out: bool)
    ensures
        out == is_known_suffix(a@, b@),
{
    let la = ascii_lower_chars(a);
    let lb = ascii_lower_chars(b);
    let table: Vec<(&str, &str)> = vec![
        ("co", "uk"),
        ("ac", "uk"),
        ("gov", "uk"),
        ("org", "uk"),
        ("me", "uk"),
        ("net", "uk"),
        ("sch", "uk"),
        ("com", "au"),
        ("net", "au"),
        ("org", "au"),
        ("gov", "au"),
        ("edu", "au"),
        ("co", "nz"),
        ("net", "nz"),
        ("org", "nz"),
        ("govt", "nz"),
        ("co", "jp"),
        ("or", "jp"),
        ("ne", "jp"),
        ("ac", "jp"),
        ("go", "jp"),
        ("co", "za"),
        ("web", "za"),
        ("co", "in"),
        ("net", "in"),
        ("org", "in"),
        ("firm", "in"),
        ("gen", "in"),
        ("ind", "in"),
        ("com", "br"),
        ("org", "br"),
        ("net", "br"),
        ("gov", "br"),
        ("co", "il"),
        ("org", "il"),
        ("net", "il"),
        ("ac", "il"),
        ("gov", "il"),
        ("k12", "il"),
        ("muni", "il")
    ];
    assert(table@.map_values(|p: (&str, &str)| (p.0@, p.1@)) =~= known_multi_part_suffixes());
    let mut i: usize = 0;
    while i < table.len()
        invariant
            i <= table@.len(),
            la@ == ascii_lower(a@),
            lb@ == ascii_lower(b@),
            table@.map_values(|p: (&str, &str)| (p.0@, p.1@)) == known_multi_part_suffixes(),
            forall|j: int|
                0 <= j < i ==> !(la@ == (#[trigger] known_multi_part_suffixes()[j]).0 && lb@
                    == known_multi_part_suffixes()[j].1),
        decreases table@.len() - i,
    {
        let (x, y) = table[i];
        assert(table@.map_values(|p: (&str, &str)| (p.0@, p.1@))[i as int] == (x@, y@));
        if crate::text::slices_equal(la.as_slice(), chars_of(x).as_slice())
            && crate::text::slices_equal(lb.as_slice(), chars_of(y).as_slice()) {
            assert(la@ == known_multi_part_suffixes()[i as int].0);
            return true;
        }
        i = i + 1;
    }
    false
}

/// The registrable domain (eTLD+1) of a host name.
pub fn registrable_domain(host: &str) -> (out: String)
    ensures
        out@ == spec_registrable_domain(host@),
{
    let cs = chars_of(host);
    let labels = split_chars(cs.as_slice(), '.');
    proof {
        lemma_split_nonempty(host@, '.');
    }
    let n = labels.len();
    if n <= 1 {
        return copy_string(host);
    }
    assert(views(labels@)[n - 2] == labels@[n - 2]@);
    assert(views(labels@)[n - 1] == labels@[n - 1]@);
    let start = if n > 2 && known_suffix(labels[n - 2].as_slice(), labels[n - 1].as_slice()) {
        n - 3
    } else {
        n - 2
    };
    let joined = join_from(&labels, start, chars_of(".").as_slice());
    string_of(joined.as_slice())
}

/// What `url::Url::parse` followed by `Url::domain` gives: the host of a URL
/// whose host is a domain name.
pub uninterp spec fn spec_url_domain(url: Seq<char>) -> Option<Seq<char>>;

/// What `url::Url::parse` followed by `Url::query_pairs` gives: the decoded
/// query parameters of a parseable URL.
pub uninterp spec fn spec_url_query_pairs(url: Seq<char>) -> Option<Seq<(Seq<char>, Seq<char>)>>;

/// What parsing `url`, clearing its fragment, replacing its query with
/// `pairs` and serializing gives.
pub uninterp spec fn spec_url_with_query(url: Seq<char>, pairs: Seq<(Seq<char>, Seq<char>)>) -> Option<Seq<char>>;

/// Calls `Url::parse` and `Url::domain`. Trusted: the result is named
/// `spec_url_domain` and depends on the URL text alone.
#[verifier::external_body]
fn url_domain(url: &str) -> (out: Option<String>)
    ensures
        crate::web_search::opt_view(out) == spec_url_domain(url@),
{
    url::Url::parse(url).ok().and_then(|parsed| parsed.domain().map(|d| d.to_string()))
}

pub open spec fn pair_views(pairs: Seq<(String, String)>) -> Seq<(Seq<char>, Seq<char>)> {
    pairs.map_values(|p: (String, String)| (p.0@, p.1@))
}

/// Calls `Url::parse` and `Url::query_pairs`. Trusted: the result is named
/// `spec_url_query_pairs`; it is `None` exactly when the URL does not parse.
#[verifier::external_body]
fn url_query_pairs(url: &str) -> (out: Option<Vec<(String, String)>>)
    ensures
        match out {
            Some(v) => spec_url_query_pairs(url@) == Some(pair_views(v@)),
            None => spec_url_query_pairs(url@) is None,
        },
{
    url::Url::parse(url).ok().map(
        |parsed| parsed.query_pairs().map(|(k, v)| (k.into_owned(), v.into_owned())).collect(),
    )
}

/// Calls `Url::parse`, `Url::set_fragment(None)`, `Url::query_pairs_mut`
/// (`clear` then `extend_pairs`) and `to_string`. Trusted: the result is
/// named `spec_url_with_query`.
#[verifier::external_body]
fn url_with_query(url: &str, pairs: &Vec<(String, String)>) -> (out: Option<String>)
    ensures
        crate::web_search::opt_view(out) == spec_url_with_query(url@, pair_views(pairs@)),
{
    let mut parsed = url::Url::parse(url).ok()?;
    parsed.set_fragment(None);
    parsed.query_pairs_mut().clear().extend_pairs(pairs.iter().map(|(k, v)| (k.as_str(), v.as_str())));
    Some(parsed.to_string())
}

pub open spec fn spec_strip_www(host: Seq<char>) -> Seq<char> {
    if starts_with_www(host) {
        host.skip(4)
    } else {
        host
    }
}

pub open spec fn starts_with_www(host: Seq<char>) -> bool {
    crate::text::starts_with(host, "www."@)
}

/// The registrable domain of a URL's host, lowercased and without `www.`.
pub open spec fn spec_normalized_host(url: Seq<char>) -> Option<Seq<char>> {
    match spec_url_domain(url) {
        Some(d) => Some(spec_registrable_domain(spec_strip_www(ascii_lower(d)))),
        None => None,
    }
}

pub fn normalized_host(url: &str) -> (out: Option<String>)
    ensures
        crate::web_search::opt_view(out) == spec_normalized_host(url@),
{
    let domain = url_domain(url)?;
    let lowered = ascii_lower_chars(chars_of(domain.as_str()).as_slice());
    let www = chars_of("www.");
    proof {
        reveal_strlit("www.");
    }
    let stripped = if crate::text::starts_with_chars(lowered.as_slice(), www.as_slice()) {
        crate::text::slice_range(lowered.as_slice(), 4, lowered.len())
    } else {
        lowered
    };
    let host = string_of(stripped.as_slice());
    Some(registrable_domain(host.as_str()))
}

pub open spec fn tracking_parameters() -> Seq<Seq<char>> {
    seq![
        "utm_source"@,
        "utm_medium"@,
        "utm_campaign"@,
        "utm_term"@,
        "utm_content"@,
        "utm_id"@,
        "fbclid"@,
        "gclid"@,
        "gclsrc"@,
        "dclid"@,
        "msclkid"@,
        "twclid"@,
        "igshid"@,
        "mc_cid"@,
        "mc_eid"@,
        "_ga"@,
        "_gl"@,
        "ref"@,
        "source"@,
        "referrer"@
    ]
}

pub open spec fn is_tracking_parameter(key: Seq<char>) -> bool {
    tracking_parameters().contains(key)
}

/// The pairs whose key is not a tracking parameter, in order.
pub open spec fn kept_pairs(pairs: Seq<(Seq<char>, Seq<char>)>) -> Seq<(Seq<char>, Seq<char>)> {
    pairs.filter(|p: (Seq<char>, Seq<char>)| !is_tracking_parameter(p.0))
}

/// The URL without fragment and tracking parameters, used to recognise the
/// same source under different links.
pub open spec fn spec_normalized_url(url: Seq<char>) -> Option<Seq<char>> {
    match spec_url_query_pairs(url) {
        Some(pairs) => spec_url_with_query(url, kept_pairs(pairs)),
        None => None,
    }
}

fn is_tracking(key: &str) -> (out: bool)
    ensures
        out == is_tracking_parameter(key@),
{
    let k = chars_of(key);
    let names: Vec<&str> = vec![
        "utm_source",
        "utm_medium",
        "utm_campaign",
        "utm_term",
        "utm_content",
        "utm_id",
        "fbclid",
        "gclid",
        "gclsrc",
        "dclid",
        "msclkid",
        "twclid",
        "igshid",
        "mc_cid",
        "mc_eid",
        "_ga",
        "_gl",
        "ref",
        "source",
        "referrer"
    ];
    assert(names@.map_values(|s: &str| s@) =~= tracking_parameters());
    let mut i: usize = 0;
    while i < names.len()
        invariant
            i <= names@.len(),
            k@ == key@,
            names@.map_values(|s: &str| s@) == tracking_parameters(),
            forall|j: int| 0 <= j < i ==> tracking_parameters()[j] != key@,
        decreases names@.len() - i,
    {
        assert(names@.map_values(|s: &str| s@)[i as int] == names@[i as int]@);
        if crate::text::slices_equal(k.as_slice(), chars_of(names[i]).as_slice()) {
            assert(tracking_parameters()[i as int] == key@);
            return true;
        }
        i = i + 1;
    }
    assert(!tracking_parameters().contains(key@));
    false
}

pub fn normalized_url_for_dedup(url: &str) -> (out: Option<String>)
    ensures
        crate::web_search::opt_view(out) == spec_normalized_url(url@),
{
    let pairs = url_query_pairs(url)?;
    let mut keep: Vec<(String, String)> = Vec::new();
    let mut i: usize = 0;
    let ghost all = pair_views(pairs@);
    while i < pairs.len()
        invariant
            i <= pairs@.len(),
            all == pair_views(pairs@),
            pair_views(keep@) == kept_pairs(all.take(i as int)),
        decreases pairs@.len() - i,
    {
        let ghost t = all.take(i + 1);
        assert(t.drop_last() == all.take(i as int));
        assert(t.last() == (pairs@[i as int].0@, pairs@[i as int].1@));
        reveal(Seq::filter);
        if !is_tracking(pairs[i].0.as_str()) {
            let k = copy_string(pairs[i].0.as_str());
            let v = copy_string(pairs[i].1.as_str());
            keep.push((k, v));
            assert(pair_views(keep@) =~= kept_pairs(all.take(i as int)).push(t.last()));
        } else {
            assert(pair_views(keep@) =~= kept_pairs(t));
        }
        i = i + 1;
    }
    assert(all.take(pairs@.len() as int) == all);
    url_with_query(url, &keep)
}


// ---------------------------------------------------------------------------
// Sources and hosts
// ---------------------------------------------------------------------------

/// The text that identifies a source: its normalized URL, or the URL as
/// given when it does not parse.
pub open spec fn spec_dedup_key(url: Seq<char>) -> Seq<char> {
    match spec_normalized_url(url) {
        Some(n) => n,
        None => url,
    }
}

/// The index of the first source whose normalized URL is `key`.
pub open spec fn find_source(sources: Seq<WebSource>, key: Seq<char>) -> Option<int>
    decreases sources.len(),
{
    if sources.len() == 0 {
        None
    } else {
        match find_source(sources.drop_last(), key) {
            Some(i) => Some(i),
            None => if spec_normalized_url(sources.last().url@) == Some(key) {
                Some(sources.len() - 1)
            } else {
                None
            },
        }
    }
}

/// Adding a source: the existing number when the same page is already
/// listed, else the source is appended and numbered.
pub open spec fn spec_add_source(sources: Seq<WebSource>, title: String, url: String) -> (Seq<WebSource>, int) {
    match find_source(sources, spec_dedup_key(url@)) {
        Some(i) => (sources, i + 1),
        None => (sources.push(WebSource { title, url }), sources.len() as int + 1),
    }
}

pub proof fn lemma_find_source_bounds(sources: Seq<WebSource>, key: Seq<char>)
    ensures
        find_source(sources, key) matches Some(i) ==> 0 <= i < sources.len()
            && spec_normalized_url(sources[i].url@) == Some(key),
    decreases sources.len(),
{
    if sources.len() > 0 {
        lemma_find_source_bounds(sources.drop_last(), key);
    }
}

pub proof fn lemma_find_source_push(sources: Seq<WebSource>, s: WebSource, key: Seq<char>)
    ensures
        find_source(sources.push(s), key) == match find_source(sources, key) {
            Some(i) => Some(i),
            None => if spec_normalized_url(s.url@) == Some(key) {
                Some(sources.len() as int)
            } else {
                None
            },
        },
{
    assert(sources.push(s).drop_last() == sources);
}

/// Numbers a source, reusing the number of an already listed page.
pub fn add_source(sources: &mut Vec<WebSource>, title: String, url: String) -> (out: usize)
    ensures
        (final(sources)@, out as int) == spec_add_source(old(sources)@, title, url),
{
    let key = match normalized_url_for_dedup(url.as_str()) {
        Some(n) => n,
        None => copy_string(url.as_str()),
    };
    let mut i: usize = 0;
    while i < sources.len()
        invariant
            i <= sources@.len(),
            sources@ == old(sources)@,
            key@ == spec_dedup_key(url@),
            find_source(sources@.take(i as int), key@) is None,
        decreases sources@.len() - i,
    {
        let candidate = normalized_url_for_dedup(sources[i].url.as_str());
        proof {
            lemma_find_source_push(sources@.take(i as int), sources@[i as int], key@);
            assert(sources@.take(i + 1) == sources@.take(i as int).push(sources@[i as int]));
        }
        let same = match &candidate {
            Some(c) => crate::text::same_text(c.as_str(), key.as_str()),
            None => false,
        };
        if same {
            proof {
                let j = i as int;
                assert(find_source(sources@.take(i + 1), key@) == Some(j));
                lemma_find_prefix_extends(sources@, key@, i + 1);
            }
            return i + 1;
        }
        i = i + 1;
    }
    assert(sources@.take(sources@.len() as int) == sources@);
    sources.push(WebSource { title, url });
    sources.len()
}

/// Adding a source never shortens the list and numbers it within the list.
pub proof fn lemma_add_source_bounds(sources: Seq<WebSource>, title: String, url: String)
    ensures
        ({
            let (s1, k) = spec_add_source(sources, title, url);
            &&& 1 <= k <= s1.len()
            &&& s1.len() >= sources.len()
        }),
{
    lemma_find_source_bounds(sources, spec_dedup_key(url@));
}

/// A match found in a prefix is the match of the whole sequence.
pub proof fn lemma_find_prefix_extends(sources: Seq<WebSource>, key: Seq<char>, n: int)
    requires
        0 <= n <= sources.len(),
        find_source(sources.take(n), key) is Some,
    ensures
        find_source(sources, key) == find_source(sources.take(n), key),
    decreases sources.len() - n,
{
    if n < sources.len() {
        lemma_find_source_push(sources.take(n), sources[n], key);
        assert(sources.take(n + 1) == sources.take(n).push(sources[n]));
        lemma_find_prefix_extends(sources, key, n + 1);
    } else {
        assert(sources.take(n) == sources);
    }
}

/// Source numbers are stable: adding a page that is already listed (its URL
/// parses) returns its number again and leaves the list unchanged, and every
/// number is a position in the list.
pub proof fn law_source_numbers_are_stable(sources: Seq<WebSource>, title: String, url: String, title2: String)
    requires
        spec_normalized_url(url@) is Some,
    ensures
        ({
            let (s1, k1) = spec_add_source(sources, title, url);
            let (s2, k2) = spec_add_source(s1, title2, url);
            &&& 1 <= k1 <= s1.len()
            &&& k2 == k1
            &&& s2 == s1
            &&& s1.len() >= sources.len()
            &&& s1.take(sources.len() as int) == sources
        }),
{
    let key = spec_dedup_key(url@);
    lemma_find_source_bounds(sources, key);
    lemma_find_source_push(sources, WebSource { title, url }, key);
    let (s1, k1) = spec_add_source(sources, title, url);
    lemma_find_source_bounds(s1, key);
    assert(sources.push(WebSource { title, url }).take(sources.len() as int) == sources);
}

pub open spec fn host_views(hosts: Seq<String>) -> Seq<Seq<char>> {
    hosts.map_values(|h: String| h@)
}

/// Records the registrable domain of `url` once.
pub fn add_distinct_host(hosts: &mut Vec<String>, url: &str)
    ensures
        host_views(final(hosts)@) == match spec_normalized_host(url@) {
            Some(h) => if host_views(old(hosts)@).contains(h) {
                host_views(old(hosts)@)
            } else {
                host_views(old(hosts)@).push(h)
            },
            None => host_views(old(hosts)@),
        },
{
    let host = match normalized_host(url) {
        Some(h) => h,
        None => return,
    };
    let mut i: usize = 0;
    while i < hosts.len()
        invariant
            i <= hosts@.len(),
            hosts@ == old(hosts)@,
            spec_normalized_host(url@) == Some(host@),
            forall|j: int| 0 <= j < i ==> hosts@[j]@ != host@,
        decreases hosts@.len() - i,
    {
        if crate::text::same_text(hosts[i].as_str(), host.as_str()) {
            assert(host_views(hosts@)[i as int] == host@);
            assert(host_views(hosts@).contains(host@));
            return;
        }
        i = i + 1;
    }
    assert(!host_views(hosts@).contains(host@)) by {
        if host_views(hosts@).contains(host@) {
            let j = choose|j: int| 0 <= j < host_views(hosts@).len() && host_views(hosts@)[j] == host@;
            assert(hosts@[j]@ == host@);
        }
    }
    hosts.push(host);
    assert(host_views(hosts@) =~= host_views(old(hosts)@).push(host@));
}

// ---------------------------------------------------------------------------
// Research checkpoint
// ---------------------------------------------------------------------------

pub open spec fn dec(n: usize) -> Seq<char> {
    crate::text::decimal(n as nat)
}

/// The reminder that keeps deep research going before an answer, if one is due.
pub open spec fn spec_research_checkpoint(
    searches_taken: usize,
    has_search_capacity: bool,
    has_page_capacity: bool,
    successful_searches: usize,
    result_host_count: usize,
    page_host_count: usize,
    minimum_searches: usize,
    minimum_pages: usize,
) -> Option<Seq<char>> {
    if searches_taken == 0 {
        None
    } else if successful_searches < minimum_searches && has_search_capacity {
        Some("Research checkpoint: only "@ + dec(successful_searches)
            + " distinct searches have succeeded. Before answering, run at least "@ + dec(
            (minimum_searches - successful_searches) as usize,
        )
            + " more targeted follow-up search(es), using different facets or source types. For current claims, use a suitable freshness filter."@)
    } else if page_host_count < minimum_pages {
        if result_host_count < minimum_pages && has_search_capacity {
            Some("Research checkpoint: the results do not yet cover "@ + dec(minimum_pages)
                + " independent domain(s). Run a targeted search for another primary or authoritative source before answering."@)
        } else if has_page_capacity {
            Some("Research checkpoint: inspect relevant pages from at least "@ + dec(minimum_pages)
                + " independent domains before answering. You have successfully read "@ + dec(
                page_host_count,
            )
                + " so far; choose the most authoritative results and compare what they report."@)
        } else {
            None
        }
    } else {
        None
    }
}

fn push_decimal(s: &mut String, n: usize)
    ensures
        final(s)@ == old(s)@ + dec(n),
{
    let d = crate::text::decimal_chars(n as u64);
    push_chars(s, d.as_slice());
}

/// The research reminder due after a draft answer, if any: first for too
/// few distinct searches, then for too few independent domains.
pub fn research_checkpoint(
    budget: &ToolBudget,
    successful_searches: usize,
    result_hosts: &[String],
    page_hosts: &[String],
    settings: &WebSearchSettings,
) -> (out: Option<String>)
    ensures
        match spec_research_checkpoint(
            budget.searches,
            budget.searches < budget.search_limit,
            budget.pages < budget.page_limit,
            successful_searches,
            result_hosts@.len() as usize,
            page_hosts@.len() as usize,
            settings.minimum_successful_searches,
            settings.minimum_independent_pages,
        ) {
            Some(m) => out matches Some(o) && o@ == m,
            None => out is None,
        },
{
    if budget.searches == 0 {
        return None;
    }
    if successful_searches < settings.minimum_successful_searches && budget.has_search_capacity() {
        let mut m = copy_string("Research checkpoint: only ");
        push_decimal(&mut m, successful_searches);
        push_str_chars(&mut m, " distinct searches have succeeded. Before answering, run at least ");
        push_decimal(&mut m, settings.minimum_successful_searches - successful_searches);
        push_str_chars(&mut m, " more targeted follow-up search(es), using different facets or source types. For current claims, use a suitable freshness filter.");
        return Some(m);
    }
    if page_hosts.len() < settings.minimum_independent_pages {
        if result_hosts.len() < settings.minimum_independent_pages && budget.has_search_capacity() {
            let mut m = copy_string("Research checkpoint: the results do not yet cover ");
            push_decimal(&mut m, settings.minimum_independent_pages);
            push_str_chars(&mut m, " independent domain(s). Run a targeted search for another primary or authoritative source before answering.");
            return Some(m);
        }
        if budget.has_page_capacity() {
            let mut m = copy_string("Research checkpoint: inspect relevant pages from at least ");
            push_decimal(&mut m, settings.minimum_independent_pages);
            push_str_chars(&mut m, " independent domains before answering. You have successfully read ");
            push_decimal(&mut m, page_hosts.len());
            push_str_chars(&mut m, " so far; choose the most authoritative results and compare what they report.");
            return Some(m);
        }
    }
    None
}

/// No reminder is due before the first search of a response.
pub proof fn law_no_checkpoint_before_research(
    has_search_capacity: bool,
    has_page_capacity: bool,
    successful_searches: usize,
    result_host_count: usize,
    page_host_count: usize,
    minimum_searches: usize,
    minimum_pages: usize,
)
    ensures
        spec_research_checkpoint(
            0,
            has_search_capacity,
            has_page_capacity,
            successful_searches,
            result_host_count,
            page_host_count,
            minimum_searches,
            minimum_pages,
        ) is None,
{
}

/// Once the required searches have succeeded and enough independent pages
/// were read, no reminder holds the answer back.
pub proof fn law_checkpoint_released_when_evidence_suffices(
    searches_taken: usize,
    has_search_capacity: bool,
    has_page_capacity: bool,
    successful_searches: usize,
    result_host_count: usize,
    page_host_count: usize,
    minimum_searches: usize,
    minimum_pages: usize,
)
    requires
        successful_searches >= minimum_searches,
        page_host_count >= minimum_pages,
    ensures
        spec_research_checkpoint(
            searches_taken,
            has_search_capacity,
            has_page_capacity,
            successful_searches,
            result_host_count,
            page_host_count,
            minimum_searches,
            minimum_pages,
        ) is None,
{
}

} // verus!
