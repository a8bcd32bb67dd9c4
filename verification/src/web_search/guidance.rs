//! The instructions and tool descriptions the model is given for a
//! response with tools.
use vstd::prelude::*;
use crate::text::{decimal, push_str_chars};
use crate::tool_settings::ToolSettings;
use crate::web_search::{WebSearchSettings, MAX_RESULT_LIMIT};
use crate::web_search::research::ToolBudget;

verus! {

pub const INTRO_A: &'static str = "The current local date is ";

pub const INTRO_B: &'static str = ". You have the following tools available. When a tool is needed, invoke its native function call with an arguments object that matches its schema; do not print a JSON tool call in your answer. After receiving a tool result, use that result to continue or answer the user directly:";

pub const CONV: &'static str = "\n- search_locoryn_conversations: Search the user's past conversations saved in this app. Use it when the user references a previous discussion, asks what you talked about before, asks you to recall something, or when context from earlier chats would help. Always check past conversations first before searching the web for topics the user may have discussed with you before. Pass 1-5 distinctive topic words, not a question or instruction.";

pub const WEB: &'static str = "\n- web_search: Search the public web for current information you don't know.";

pub const FETCH: &'static str = "\n- fetch_webpage: Read the full content of a webpage found by search.";

pub const CODE: &'static str = "\n- check_code: Check a self-contained code snippet for compile or syntax errors before presenting it. Use this only when compiler feedback is useful; it never runs the snippet.";

pub const PAGES_OFF: &'static str = "Full webpage fetching is disabled for this request.";

pub const PAGES_A: &'static str = "Read up to ";

pub const PAGES_B: &'static str = " relevant pages when snippets are not sufficient.";

pub const PAGES_C: &'static str = " relevant pages as needed and cross-reference at least ";

pub const PAGES_D: &'static str = " independent domain(s) before answering.";

pub const DEEP_A: &'static str = " Deep follow-up web research is enabled. If you use web search, treat the first search as discovery rather than sufficient evidence. Run ";

pub const DEEP_B: &'static str = " to ";

pub const DEEP_C: &'static str = " meaningfully distinct, targeted queries in total, adapting the number to the question's breadth, uncertainty, and conflicting results. Do not merely rephrase one broad query: investigate separate facets, seek disconfirming evidence, and include a date-aware query with an appropriate freshness filter for time-sensitive claims. Prefer recent primary or authoritative sources. ";

pub const DEEP_D: &'static str = " Compare publication/update dates, reconcile disagreements explicitly, and stop when the evidence is sufficient or a configured tool limit is reached. If a limit is reached, produce the best complete answer from the evidence already available instead of requesting another tool.";

pub const CUSTOM: &'static str = "\n\nAdditional user-configured research guidance:\n";

pub const SINGLE: &'static str = " You may search the web at most once for this response. Use one focused query and select a freshness filter when the question is time-sensitive.";

pub const SEARCH_MULTI_A: &'static str = "Search the public web as one step in multi-source research. If research is needed, use ";

pub const SEARCH_MULTI_B: &'static str = " distinct targeted queries in total, including recency-focused and disconfirming queries where relevant; do not stop after one broad search.";

pub const SEARCH_ONCE: &'static str = "Search the public web once when current or external information is required.";

pub const FETCH_DESC: &'static str = "Read a public HTTP(S) webpage returned by search.";

pub const FETCH_MULTI_A: &'static str = " Inspect up to ";

pub const FETCH_MULTI_B: &'static str = " relevant pages depending on complexity and verify important claims across at least ";

pub const FETCH_MULTI_C: &'static str = " independent domain(s).";


/// `s` when `b` holds, else nothing.
pub open spec fn when(b: bool, s: Seq<char>) -> Seq<char> {
    if b { s } else { Seq::empty() }
}

pub open spec fn num(n: usize) -> Seq<char> {
    decimal(n as nat)
}

/// How deep research describes page reading.
pub open spec fn spec_page_guidance(settings: WebSearchSettings, tools: ToolSettings) -> Seq<char> {
    if !tools.fetch_webpage || settings.maximum_page_fetches == 0 {
        PAGES_OFF@
    } else if settings.minimum_independent_pages == 0 {
        PAGES_A@ + num(settings.maximum_page_fetches) + PAGES_B@
    } else {
        PAGES_A@ + num(settings.maximum_page_fetches) + PAGES_C@ + num(
            settings.minimum_independent_pages,
        ) + PAGES_D@
    }
}

/// The paragraph on how to use the web tools.
pub open spec fn spec_research_guidance(settings: WebSearchSettings, tools: ToolSettings) -> Seq<char> {
    if !(tools.web_search || tools.fetch_webpage) {
        Seq::empty()
    } else if settings.allow_multiple_searches {
        DEEP_A@ + num(settings.minimum_successful_searches) + DEEP_B@ + num(settings.maximum_searches)
            + DEEP_C@ + spec_page_guidance(settings, tools) + DEEP_D@ + when(
            settings.custom_research_instructions@.len() > 0,
            CUSTOM@ + settings.custom_research_instructions@,
        )
    } else {
        SINGLE@
    }
}

/// The instructions that introduce the tools of a response.
pub open spec fn spec_tool_loop_guidance(
    settings: WebSearchSettings,
    tools: ToolSettings,
    code_checking_enabled: bool,
    current_date: Seq<char>,
) -> Seq<char> {
    INTRO_A@ + current_date + INTRO_B@
        + when(tools.conversation_search, CONV@)
        + when(tools.web_search, WEB@)
        + when(tools.fetch_webpage, FETCH@)
        + when(tools.code_checking && code_checking_enabled, CODE@)
        + spec_research_guidance(settings, tools)
}

fn push_number(s: &mut String, n: usize)
    ensures
        final(s)@ == old(s)@ + num(n),
{
    let d = crate::text::decimal_chars(n as u64);
    crate::text::push_chars(s, d.as_slice());
}

fn page_guidance(settings: &WebSearchSettings, tools: &ToolSettings) -> (out: String)
    ensures
        out@ == spec_page_guidance(*settings, *tools),
{
    if !tools.fetch_webpage || settings.maximum_page_fetches == 0 {
        return crate::text::copy_string(PAGES_OFF);
    }
    let mut out = crate::text::copy_string(PAGES_A);
    push_number(&mut out, settings.maximum_page_fetches);
    if settings.minimum_independent_pages == 0 {
        push_str_chars(&mut out, PAGES_B);
    } else {
        push_str_chars(&mut out, PAGES_C);
        push_number(&mut out, settings.minimum_independent_pages);
        push_str_chars(&mut out, PAGES_D);
    }
    out
}

fn research_guidance(settings: &WebSearchSettings, tool_settings: &ToolSettings) -> (out: String)
    ensures
        out@ == spec_research_guidance(*settings, *tool_settings),
{
    let mut g = String::new();
    if tool_settings.web_search || tool_settings.fetch_webpage {
        if settings.allow_multiple_searches {
            push_str_chars(&mut g, DEEP_A);
            push_number(&mut g, settings.minimum_successful_searches);
            push_str_chars(&mut g, DEEP_B);
            push_number(&mut g, settings.maximum_searches);
            push_str_chars(&mut g, DEEP_C);
            let pages = page_guidance(settings, tool_settings);
            push_str_chars(&mut g, pages.as_str());
            push_str_chars(&mut g, DEEP_D);
            let ghost g5 = g@;
            if !settings.custom_research_instructions.as_str().is_empty() {
                push_str_chars(&mut g, CUSTOM);
                push_str_chars(&mut g, settings.custom_research_instructions.as_str());
            }
            assert(g@ =~= g5 + when(
                settings.custom_research_instructions@.len() > 0,
                CUSTOM@ + settings.custom_research_instructions@,
            ));
        } else {
            push_str_chars(&mut g, SINGLE);
        }
    }
    assert(g@ =~= spec_research_guidance(*settings, *tool_settings));
    g
}

fn push_when(g: &mut String, b: bool, line: &str)
    ensures
        final(g)@ == old(g)@ + when(b, line@),
{
    if b {
        push_str_chars(g, line);
    }
    assert(final(g)@ =~= old(g)@ + when(b, line@));
}

/// The instructions that introduce the tools of a response: the date, one
/// line per enabled tool, then how to research with the web tools.
pub fn tool_loop_guidance(
    settings: &WebSearchSettings,
    tool_settings: &ToolSettings,
    code_checking_enabled: bool,
    current_date: &str,
) -> (out: String)
    ensures
        out@ == spec_tool_loop_guidance(*settings, *tool_settings, code_checking_enabled, current_date@),
{
    let mut g = crate::text::copy_string(INTRO_A);
    push_str_chars(&mut g, current_date);
    push_str_chars(&mut g, INTRO_B);
    push_when(&mut g, tool_settings.conversation_search, CONV);
    push_when(&mut g, tool_settings.web_search, WEB);
    push_when(&mut g, tool_settings.fetch_webpage, FETCH);
    push_when(&mut g, tool_settings.code_checking && code_checking_enabled, CODE);
    let research = research_guidance(settings, tool_settings);
    push_str_chars(&mut g, research.as_str());
    g
}

/// The description of the search tool.
pub open spec fn spec_search_description(settings: WebSearchSettings) -> Seq<char> {
    if settings.allow_multiple_searches {
        SEARCH_MULTI_A@ + num(settings.minimum_successful_searches) + DEEP_B@ + num(
            settings.maximum_searches,
        ) + SEARCH_MULTI_B@
    } else {
        SEARCH_ONCE@
    }
}

/// The description of the page tool.
pub open spec fn spec_fetch_description(settings: WebSearchSettings) -> Seq<char> {
    if settings.allow_multiple_searches && settings.minimum_independent_pages > 0 {
        FETCH_DESC@ + FETCH_MULTI_A@ + num(settings.maximum_page_fetches) + FETCH_MULTI_B@ + num(
            settings.minimum_independent_pages,
        ) + FETCH_MULTI_C@
    } else {
        FETCH_DESC@
    }
}

/// What the web tools' schemas say, as plain values.
pub struct WebToolDescriptions {
    pub search_description: String,
    pub fetch_description: String,
    /// The largest `result_count` a search call may ask for.
    pub result_count_maximum: usize,
    /// Whether the page tool is offered at all.
    pub offers_fetch: bool,
}

/// The descriptions and bounds of the web tools for these settings.
pub fn web_tool_descriptions(settings: &WebSearchSettings) -> (out: WebToolDescriptions)
    ensures
        out.search_description@ == spec_search_description(*settings),
        out.fetch_description@ == spec_fetch_description(*settings),
        out.result_count_maximum as int == crate::web_search::clamp(
            settings.result_limit as int,
            1,
            MAX_RESULT_LIMIT as int,
        ),
        out.offers_fetch == (!settings.allow_multiple_searches || settings.maximum_page_fetches > 0),
{
    let search_description = if settings.allow_multiple_searches {
        let mut s = crate::text::copy_string(SEARCH_MULTI_A);
        push_number(&mut s, settings.minimum_successful_searches);
        push_str_chars(&mut s, DEEP_B);
        push_number(&mut s, settings.maximum_searches);
        push_str_chars(&mut s, SEARCH_MULTI_B);
        s
    } else {
        crate::text::copy_string(SEARCH_ONCE)
    };
    let mut fetch_description = crate::text::copy_string(FETCH_DESC);
    if settings.allow_multiple_searches && settings.minimum_independent_pages > 0 {
        push_str_chars(&mut fetch_description, FETCH_MULTI_A);
        push_number(&mut fetch_description, settings.maximum_page_fetches);
        push_str_chars(&mut fetch_description, FETCH_MULTI_B);
        push_number(&mut fetch_description, settings.minimum_independent_pages);
        push_str_chars(&mut fetch_description, FETCH_MULTI_C);
    }
    let result_count_maximum = if settings.result_limit < 1 {
        1
    } else if settings.result_limit > MAX_RESULT_LIMIT {
        MAX_RESULT_LIMIT
    } else {
        settings.result_limit
    };
    WebToolDescriptions {
        search_description,
        fetch_description,
        result_count_maximum,
        offers_fetch: !settings.allow_multiple_searches || settings.maximum_page_fetches > 0,
    }
}

/// The tools a model can be offered.
#[derive(Clone, Copy, Debug, PartialEq, Eq, Structural)]
pub enum ToolName {
    WebSearch,
    FetchWebpage,
    SearchConversations,
    CheckCode,
}

impl ToolName {
    pub open spec fn spec_name(self) -> Seq<char> {
        match self {
            ToolName::WebSearch => "web_search"@,
            ToolName::FetchWebpage => "fetch_webpage"@,
            ToolName::SearchConversations => "search_locoryn_conversations"@,
            ToolName::CheckCode => "check_code"@,
        }
    }

    /// The name the tool has in its schema and in the model's calls.
    pub fn name(self) -> (out: &'static str)
        ensures
            out@ == self.spec_name(),
    {
        match self {
            ToolName::WebSearch => "web_search",
            ToolName::FetchWebpage => "fetch_webpage",
            ToolName::SearchConversations => "search_locoryn_conversations",
            ToolName::CheckCode => "check_code",
        }
    }
}

/// Whether a tool may still be offered: the master switch and its own
/// switch are on and its budget is not spent.
pub open spec fn spec_tool_offered(
    tool: ToolName,
    tools: ToolSettings,
    code_checking_enabled: bool,
    budget: ToolBudget,
) -> bool {
    tools.enabled && match tool {
        ToolName::WebSearch => tools.web_search && budget.searches < budget.search_limit,
        ToolName::FetchWebpage => tools.fetch_webpage && budget.pages < budget.page_limit,
        ToolName::SearchConversations => tools.conversation_search,
        ToolName::CheckCode => tools.code_checking && code_checking_enabled
            && budget.code_checks < budget.code_check_limit,
    }
}

/// Every tool schema in the order the schemas are listed.
pub open spec fn spec_defined_tools(settings: WebSearchSettings) -> Seq<ToolName> {
    if !settings.allow_multiple_searches || settings.maximum_page_fetches > 0 {
        seq![ToolName::WebSearch, ToolName::FetchWebpage, ToolName::SearchConversations, ToolName::CheckCode]
    } else {
        seq![ToolName::WebSearch, ToolName::SearchConversations, ToolName::CheckCode]
    }
}

/// The tools offered for the next model turn, in schema order.
pub open spec fn spec_available_tools(
    settings: WebSearchSettings,
    tools: ToolSettings,
    code_checking_enabled: bool,
    budget: ToolBudget,
) -> Seq<ToolName> {
    spec_defined_tools(settings).filter(|t: ToolName| spec_tool_offered(t, tools, code_checking_enabled, budget))
}

fn tool_offered(
    tool: ToolName,
    tools: &ToolSettings,
    code_checking_enabled: bool,
    budget: &ToolBudget,
) -> (out: bool)
    ensures
        out == spec_tool_offered(tool, *tools, code_checking_enabled, *budget),
{
    tools.enabled && match tool {
        ToolName::WebSearch => tools.web_search && budget.searches < budget.search_limit,
        ToolName::FetchWebpage => tools.fetch_webpage && budget.pages < budget.page_limit,
        ToolName::SearchConversations => tools.conversation_search,
        ToolName::CheckCode => tools.code_checking && code_checking_enabled
            && budget.code_checks < budget.code_check_limit,
    }
}

/// The tools to offer the model next: those whose switches are on and
/// whose budgets are not spent, so an exhausted tool is never offered again.
pub fn available_tools(
    settings: &WebSearchSettings,
    tool_settings: &ToolSettings,
    code_checking_enabled: bool,
    budget: &ToolBudget,
) -> (out: Vec<ToolName>)
    ensures
        out@ == spec_available_tools(*settings, *tool_settings, code_checking_enabled, *budget),
{
    let mut defined: Vec<ToolName> = Vec::new();
    defined.push(ToolName::WebSearch);
    if !settings.allow_multiple_searches || settings.maximum_page_fetches > 0 {
        defined.push(ToolName::FetchWebpage);
    }
    defined.push(ToolName::SearchConversations);
    defined.push(ToolName::CheckCode);
    assert(defined@ =~= spec_defined_tools(*settings));
    let ghost f = |t: ToolName| spec_tool_offered(t, *tool_settings, code_checking_enabled, *budget);
    let mut out: Vec<ToolName> = Vec::new();
    let mut i: usize = 0;
    while i < defined.len()
        invariant
            i <= defined@.len(),
            defined@ == spec_defined_tools(*settings),
            f == (|t: ToolName| spec_tool_offered(t, *tool_settings, code_checking_enabled, *budget)),
            out@ == defined@.take(i as int).filter(f),
        decreases defined@.len() - i,
    {
        reveal(Seq::filter);
        assert(defined@.take(i + 1).drop_last() =~= defined@.take(i as int));
        let t = defined[i];
        if tool_offered(t, tool_settings, code_checking_enabled, budget) {
            out.push(t);
        }
        i = i + 1;
    }
    assert(defined@.take(defined@.len() as int) =~= defined@);
    out
}

proof fn lemma_offered_iff(
    settings: WebSearchSettings,
    tools: ToolSettings,
    code_checking_enabled: bool,
    budget: ToolBudget,
    tool: ToolName,
)
    ensures
        spec_available_tools(settings, tools, code_checking_enabled, budget).contains(tool) <==> (
        spec_defined_tools(settings).contains(tool) && spec_tool_offered(
            tool,
            tools,
            code_checking_enabled,
            budget,
        )),
{
    broadcast use vstd::seq_lib::group_filter_ensures;

    let f = |t: ToolName| spec_tool_offered(t, tools, code_checking_enabled, budget);
    let defined = spec_defined_tools(settings);
    let avail = defined.filter(f);
    assert(avail == spec_available_tools(settings, tools, code_checking_enabled, budget));
    if avail.contains(tool) {
        defined.lemma_filter_contains_rev(f, tool);
        let i = choose|i: int| 0 <= i < avail.len() && avail[i] == tool;
        assert(f(avail[i]));
    }
    if defined.contains(tool) && f(tool) {
        let j = choose|j: int| 0 <= j < defined.len() && defined[j] == tool;
        defined.lemma_filter_contains(f, j);
    }
}

/// A tool whose budget is spent, or whose switches are off, is never
/// offered again: every offered tool has its master and own switch on and
/// budget left, and code checking needs the advanced switch as well. A tool
/// that is defined and still allowed is offered.
pub proof fn law_exhausted_tools_are_not_offered(
    settings: WebSearchSettings,
    tools: ToolSettings,
    code_checking_enabled: bool,
    budget: ToolBudget,
    tool: ToolName,
)
    ensures
        spec_available_tools(settings, tools, code_checking_enabled, budget).contains(tool) <==> (
        spec_defined_tools(settings).contains(tool) && spec_tool_offered(
            tool,
            tools,
            code_checking_enabled,
            budget,
        )),
        spec_available_tools(settings, tools, code_checking_enabled, budget).contains(ToolName::WebSearch)
            ==> tools.enabled && tools.web_search && budget.searches < budget.search_limit,
        spec_available_tools(settings, tools, code_checking_enabled, budget).contains(ToolName::FetchWebpage)
            ==> tools.enabled && tools.fetch_webpage && budget.pages < budget.page_limit,
        spec_available_tools(settings, tools, code_checking_enabled, budget).contains(ToolName::CheckCode)
            ==> tools.enabled && tools.code_checking && code_checking_enabled && budget.code_checks
            < budget.code_check_limit,
        !tools.enabled ==> spec_available_tools(settings, tools, code_checking_enabled, budget).len() == 0,
{
    lemma_offered_iff(settings, tools, code_checking_enabled, budget, tool);
    lemma_offered_iff(settings, tools, code_checking_enabled, budget, ToolName::WebSearch);
    lemma_offered_iff(settings, tools, code_checking_enabled, budget, ToolName::FetchWebpage);
    lemma_offered_iff(settings, tools, code_checking_enabled, budget, ToolName::CheckCode);
    let avail = spec_available_tools(settings, tools, code_checking_enabled, budget);
    if !tools.enabled && avail.len() > 0 {
        assert(avail.contains(avail[0]));
        lemma_offered_iff(settings, tools, code_checking_enabled, budget, avail[0]);
    }
}

} // verus!
