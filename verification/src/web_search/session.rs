//! The decisions of one tool-using response, as a state machine: the caller
//! talks to the model and runs the tools, and this session decides what
//! happens next after each model reply and each tool result.
use vstd::prelude::*;
use crate::text::{chars_of, copy_string, push_str_chars, string_of, trim, trim_chars};
use crate::tool_settings::ToolSettings;
use crate::web_search::stream::{
    final_evaluation_statistics, spec_final_evaluation_statistics, FinalStatistics, GenerationDetails,
};
use crate::web_search::guidance::{available_tools, spec_available_tools, ToolName};
use crate::web_search::research::{
    add_distinct_host, add_source, combined_answer, explicitly_requests_web_search, host_views,
    normalize_search_query, page_text_limit, research_checkpoint, spec_add_source,
    spec_combined_answer, spec_normalize_search_query, spec_normalized_host,
    spec_page_text_limit, spec_research_checkpoint, web_request_phrases, ToolBudget,
};
use crate::web_search::{
    is_normalization_of, opt_view, WebPageContent, WebSearchError, WebSearchResult,
    WebSearchSettings, WebSource, MAX_STALLED_RESEARCH_REMINDERS,
};

verus! {

/// Everything one tool-using response has gathered so far.
pub struct ResearchSession {
    /// The normalized settings of the response.
    pub settings: WebSearchSettings,
    pub budget: ToolBudget,
    /// The last query searched.
    pub latest_query: String,
    /// The normalized queries searched, to refuse repeats.
    pub used_queries: Vec<String>,
    pub successful_searches: usize,
    /// The registrable domains of search results and of pages read.
    pub result_hosts: Vec<String>,
    pub page_hosts: Vec<String>,
    /// Reminders given without any research progress in between.
    pub stalled_research_reminders: usize,
    /// `(successful searches, pages read)` when the last reminder was given.
    pub last_reminder_progress: Option<(usize, usize)>,
    pub accumulated_thinking: String,
    pub accumulated_answer: String,
    pub sources: Vec<WebSource>,
    /// How many characters of a page the model is shown.
    pub page_excerpt_limit: usize,
}

pub open spec fn query_views(v: Seq<String>) -> Seq<Seq<char>> {
    v.map_values(|s: String| s@)
}

/// The reminder the session's state calls for, if any.
pub open spec fn session_checkpoint(s: ResearchSession) -> Option<Seq<char>> {
    spec_research_checkpoint(
        s.budget.searches,
        s.budget.searches < s.budget.search_limit,
        s.budget.pages < s.budget.page_limit,
        s.successful_searches,
        s.result_hosts@.len() as usize,
        s.page_hosts@.len() as usize,
        s.settings.minimum_successful_searches,
        s.settings.minimum_independent_pages,
    )
}

/// Whether the user asked for a web search that, with web search on and
/// offered, was never made.
pub open spec fn spec_search_not_performed(
    s: ResearchSession,
    web_search_enabled: bool,
    web_search_tool: bool,
    user_prompt: Seq<char>,
) -> bool {
    &&& web_search_enabled
    &&& web_search_tool
    &&& s.budget.searches == 0
    &&& exists|i: int|
        0 <= i < web_request_phrases().len() && crate::text::contains(
            spec_normalize_search_query(user_prompt),
            #[trigger] web_request_phrases()[i],
        )
}

/// The research progress a reminder is measured against: successful
/// searches and pages read from distinct hosts.
pub open spec fn session_progress(s: ResearchSession) -> (usize, usize) {
    (s.successful_searches, s.page_hosts@.len() as usize)
}

/// Whether deep research owes the model a reminder instead of accepting
/// its answer: the evidence is not yet enough, and fewer than
/// `MAX_STALLED_RESEARCH_REMINDERS` reminders were given since research
/// last made progress.
pub open spec fn spec_reminder_due(s: ResearchSession) -> bool {
    &&& s.settings.allow_multiple_searches
    &&& session_checkpoint(s) is Some
    &&& (s.last_reminder_progress == Some(session_progress(s)) ==> s.stalled_research_reminders
        < MAX_STALLED_RESEARCH_REMINDERS)
}

/// What to do at the start of a round.
pub enum RoundStart {
    /// Ask the model, offering these tools.
    AskModel(Vec<ToolName>),
    /// The iterations or every tool budget are spent: write the final
    /// answer from what was gathered.
    FinishAfterLimit,
}

/// The parts of a model reply the decisions read.
pub struct ModelReply {
    /// Its reasoning (`thinking` or `reasoning_content`), if any.
    pub thinking: Option<String>,
    /// Its visible text.
    pub content: String,
    /// How many tool calls it makes.
    pub tool_call_count: usize,
}

/// What to do after a model reply.
#[derive(Debug)]
pub enum ReplyOutcome {
    /// Run the reply's tool calls.
    RunTools,
    /// Add this reminder as a system message and ask again.
    Remind(String),
    /// The reply is the final answer.
    Complete(String),
    /// The response fails.
    Fail(WebSearchError),
}

/// What a search call leads to.
#[derive(Debug, PartialEq, Eq)]
pub enum SearchPlan {
    /// The query was already searched.
    Duplicate,
    /// The search budget is spent; the limit is reported.
    LimitReached(usize),
    /// Search now.
    Run,
}

/// A search result with its source number.
#[derive(Clone, Debug)]
pub struct NumberedResult {
    pub source: usize,
    pub title: String,
    pub url: String,
    pub snippet: String,
}

/// The tool result of a successful search.
pub struct SearchReport {
    pub results: Vec<NumberedResult>,
    pub successful_searches: usize,
    pub minimum_searches: usize,
    pub maximum_searches: usize,
    pub independent_result_domains: usize,
    /// The reminder to include, in deep research.
    pub next_step: Option<String>,
}

/// The tool result of a failed search.
#[derive(Debug)]
pub enum SearchFailure {
    /// Nothing was found; the search is refunded.
    NoResults { successful_searches: usize, maximum_searches: usize },
    /// The search failed with this message; the search is refunded.
    Failed { message: String, successful_searches: usize, remaining_searches: usize },
    /// The response was cancelled.
    Cancel,
    /// Web search is disabled: the response fails.
    Abort(WebSearchError),
}

/// The tool result of a page that was read.
pub struct PageReport {
    pub source: usize,
    pub title: String,
    pub url: String,
    /// The first `page_excerpt_limit` characters of the page text.
    pub text: String,
    pub truncated: bool,
    pub successful_searches: usize,
    pub independent_pages_read: usize,
    pub minimum_independent_pages: usize,
    pub maximum_page_fetches: usize,
    pub next_step: Option<String>,
}

/// The tool result of a page that could not be read.
#[derive(Debug)]
pub enum FetchFailure {
    /// The page failed with this message; the fetch is refunded.
    Failed { message: String, independent_pages_read: usize, remaining_page_fetches: usize },
    Cancel,
    Abort(WebSearchError),
}

/// What a code check call leads to.
#[derive(Debug, PartialEq, Eq)]
pub enum CodeCheckPlan {
    /// Code checking is off in the tool or advanced settings.
    Disabled,
    /// The check budget is spent; the limit is reported.
    LimitReached(usize),
    /// Check now.
    Run,
}

/// The counters the session keeps within their limits.
pub open spec fn session_ok(s: ResearchSession) -> bool {
    &&& s.budget.searches <= s.budget.search_limit
    &&& s.budget.pages <= s.budget.page_limit
    &&& s.budget.code_checks <= s.budget.code_check_limit
    &&& s.budget.iterations <= s.budget.iteration_limit
    &&& s.stalled_research_reminders <= MAX_STALLED_RESEARCH_REMINDERS
}

/// A budget with nothing spent and the limits `settings` give.
pub open spec fn fresh_budget(b: ToolBudget, settings: WebSearchSettings) -> bool {
    &&& b.iterations == 0 && b.searches == 0 && b.pages == 0 && b.code_checks == 0
    &&& b.conversation_searches == 0
    &&& b.search_limit == crate::web_search::research::spec_search_limit(settings)
    &&& b.page_limit == crate::web_search::research::spec_page_limit(settings)
    &&& b.iteration_limit == crate::web_search::research::spec_iteration_limit(settings)
    &&& b.code_check_limit == 1
}

/// The domains after recording a result's URL: its registrable domain is
/// added unless it is already listed or the URL has none.
pub open spec fn spec_host_step(hosts: Seq<Seq<char>>, url: Seq<char>) -> Seq<Seq<char>> {
    match spec_normalized_host(url) {
        Some(h) => if hosts.contains(h) {
            hosts
        } else {
            hosts.push(h)
        },
        None => hosts,
    }
}

/// The domains after recording every result's URL in order.
pub open spec fn spec_hosts_after(hosts: Seq<Seq<char>>, results: Seq<WebSearchResult>) -> Seq<Seq<char>>
    decreases results.len(),
{
    if results.len() == 0 {
        hosts
    } else {
        spec_host_step(spec_hosts_after(hosts, results.drop_last()), results.last().url@)
    }
}

/// The sources after adding every result in order.
pub open spec fn spec_sources_after(sources: Seq<WebSource>, results: Seq<WebSearchResult>) -> Seq<WebSource>
    decreases results.len(),
{
    if results.len() == 0 {
        sources
    } else {
        spec_add_source(
            spec_sources_after(sources, results.drop_last()),
            results.last().title,
            results.last().url,
        ).0
    }
}

/// The source number result `i` gets when the results are added in order.
pub open spec fn spec_result_source(sources: Seq<WebSource>, results: Seq<WebSearchResult>, i: int) -> int {
    spec_add_source(spec_sources_after(sources, results.take(i)), results[i].title, results[i].url).1
}

impl ResearchSession {
    /// A session for a response with these settings and model context size.
    pub fn new(settings: &WebSearchSettings, context_tokens: u32) -> (out: Self)
        ensures
            is_normalization_of(out.settings, *settings),
            fresh_budget(out.budget, out.settings),
            out.page_excerpt_limit == spec_page_text_limit(context_tokens, out.budget.page_limit),
            out.latest_query@.len() == 0,
            out.used_queries@.len() == 0,
            out.successful_searches == 0,
            out.result_hosts@.len() == 0,
            out.page_hosts@.len() == 0,
            out.stalled_research_reminders == 0,
            out.last_reminder_progress is None,
            out.accumulated_thinking@.len() == 0,
            out.accumulated_answer@.len() == 0,
            out.sources@.len() == 0,
            session_ok(out),
    {
        let normalized = settings.duplicate().normalized();
        let budget = ToolBudget::new(&normalized);
        let page_excerpt_limit = page_text_limit(context_tokens, budget.page_limit);
        ResearchSession {
            settings: normalized,
            budget,
            latest_query: String::new(),
            used_queries: Vec::new(),
            successful_searches: 0,
            result_hosts: Vec::new(),
            page_hosts: Vec::new(),
            stalled_research_reminders: 0,
            last_reminder_progress: None,
            accumulated_thinking: String::new(),
            accumulated_answer: String::new(),
            sources: Vec::new(),
            page_excerpt_limit,
        }
    }

    /// Starts a round: counts an iteration and offers the tools that are
    /// still available, or finishes when the iterations or tools run out.
    pub fn begin_round(&mut self, tool_settings: &ToolSettings, code_checking_enabled: bool) -> (out: RoundStart)
        requires
            session_ok(*old(self)),
        ensures
            session_ok(*final(self)),
            old(self).budget.iterations >= old(self).budget.iteration_limit ==> out
                is FinishAfterLimit && *final(self) == *old(self),
            old(self).budget.iterations < old(self).budget.iteration_limit ==> {
                &&& final(self).budget.iterations == old(self).budget.iterations + 1
                &&& final(self).budget.searches == old(self).budget.searches
                &&& final(self).budget.pages == old(self).budget.pages
                &&& final(self).budget.code_checks == old(self).budget.code_checks
                &&& ToolBudget::same_limits(final(self).budget, old(self).budget)
                &&& match out {
                    RoundStart::AskModel(tools) => tools@ == spec_available_tools(
                        final(self).settings,
                        *tool_settings,
                        code_checking_enabled,
                        final(self).budget,
                    ) && tools@.len() > 0,
                    RoundStart::FinishAfterLimit => spec_available_tools(
                        final(self).settings,
                        *tool_settings,
                        code_checking_enabled,
                        final(self).budget,
                    ).len() == 0,
                }
            },
            final(self).settings == old(self).settings,
            final(self).sources == old(self).sources,
            final(self).accumulated_answer == old(self).accumulated_answer,
    {
        if !self.budget.take_iteration() {
            return RoundStart::FinishAfterLimit;
        }
        let tools = available_tools(&self.settings, tool_settings, code_checking_enabled, &self.budget);
        if tools.len() == 0 {
            RoundStart::FinishAfterLimit
        } else {
            RoundStart::AskModel(tools)
        }
    }

    /// Takes in a model reply. Its reasoning is added to the reasoning so
    /// far. A reply without tool calls is the answer, unless it is empty
    /// (the model cannot use tools), the user asked for a web search that
    /// was never made, or deep research still needs evidence and fewer than
    /// `MAX_STALLED_RESEARCH_REMINDERS` reminders were given without
    /// progress (then the reminder is given and the draft kept). A reply
    /// with tool calls adds its text to the answer so far.
    pub fn on_model_reply(
        &mut self,
        reply: &ModelReply,
        web_search_enabled: bool,
        web_search_tool: bool,
        user_prompt: &str,
    ) -> (out: ReplyOutcome)
        requires
            session_ok(*old(self)),
        ensures
            session_ok(*final(self)),
            final(self).budget == old(self).budget,
            final(self).settings == old(self).settings,
            final(self).sources == old(self).sources,
            final(self).accumulated_thinking@ == match reply.thinking {
                Some(t) => if trim(t@).len() == 0 {
                    old(self).accumulated_thinking@
                } else if old(self).accumulated_thinking@.len() == 0 {
                    trim(t@)
                } else {
                    old(self).accumulated_thinking@ + "\n\n"@ + trim(t@)
                },
                None => old(self).accumulated_thinking@,
            },
            reply.tool_call_count > 0 ==> out is RunTools && final(self).accumulated_answer@ == (
            if trim(reply.content@).len() == 0 {
                old(self).accumulated_answer@
            } else {
                spec_combined_answer(old(self).accumulated_answer@, trim(reply.content@))
            }),
            reply.tool_call_count == 0 && trim(reply.content@).len() == 0 ==> (out matches ReplyOutcome::Fail(
                e,
            ) && e == WebSearchError::ModelToolsUnsupported),
            reply.tool_call_count == 0 && trim(reply.content@).len() > 0 && spec_search_not_performed(
                *old(self),
                web_search_enabled,
                web_search_tool,
                user_prompt@,
            ) ==> (out matches ReplyOutcome::Fail(e) && e == WebSearchError::WebSearchNotPerformed),
            reply.tool_call_count == 0 && trim(reply.content@).len() > 0 && !spec_search_not_performed(
                *old(self),
                web_search_enabled,
                web_search_tool,
                user_prompt@,
            ) && spec_reminder_due(*old(self)) ==> {
                &&& out matches ReplyOutcome::Remind(m)
                &&& Some(m@) == session_checkpoint(*old(self))
                &&& final(self).accumulated_answer@ == trim(reply.content@)
                &&& final(self).last_reminder_progress == Some(session_progress(*old(self)))
                &&& final(self).stalled_research_reminders == (if old(self).last_reminder_progress
                    == Some(session_progress(*old(self))) {
                    old(self).stalled_research_reminders + 1
                } else {
                    1
                })
            },
            reply.tool_call_count == 0 && trim(reply.content@).len() > 0 && !spec_search_not_performed(
                *old(self),
                web_search_enabled,
                web_search_tool,
                user_prompt@,
            ) && !spec_reminder_due(*old(self)) ==> (out matches ReplyOutcome::Complete(a) && a@ == trim(
                reply.content@,
            ) && final(self).accumulated_answer == old(self).accumulated_answer),
    {
        match &reply.thinking {
            Some(t) => {
                let trimmed = crate::text::trimmed(t.as_str());
                if !trimmed.as_str().is_empty() {
                    if !self.accumulated_thinking.as_str().is_empty() {
                        push_str_chars(&mut self.accumulated_thinking, "\n\n");
                    }
                    push_str_chars(&mut self.accumulated_thinking, trimmed.as_str());
                }
            },
            None => {},
        }
        let answer = crate::text::trimmed(reply.content.as_str());
        if reply.tool_call_count == 0 {
            if answer.as_str().is_empty() {
                return ReplyOutcome::Fail(WebSearchError::ModelToolsUnsupported);
            }
            if web_search_enabled && web_search_tool && self.budget.searches == 0
                && explicitly_requests_web_search(user_prompt) {
                return ReplyOutcome::Fail(WebSearchError::WebSearchNotPerformed);
            }
            if self.settings.allow_multiple_searches {
                match research_checkpoint(
                    &self.budget,
                    self.successful_searches,
                    self.result_hosts.as_slice(),
                    self.page_hosts.as_slice(),
                    &self.settings,
                ) {
                    Some(instruction) => {
                        let progress = (self.successful_searches, self.page_hosts.len());
                        let same = match self.last_reminder_progress {
                            Some((a, b)) => a == progress.0 && b == progress.1,
                            None => false,
                        };
                        if !same {
                            self.stalled_research_reminders = 0;
                        }
                        if self.stalled_research_reminders < MAX_STALLED_RESEARCH_REMINDERS {
                            self.stalled_research_reminders = self.stalled_research_reminders + 1;
                            self.last_reminder_progress = Some(progress);
                            self.accumulated_answer = answer;
                            return ReplyOutcome::Remind(instruction);
                        }
                    },
                    None => {},
                }
            }
            return ReplyOutcome::Complete(answer);
        }
        if !answer.as_str().is_empty() {
            self.accumulated_answer = combined_answer(self.accumulated_answer.as_str(), answer.as_str());
        }
        ReplyOutcome::RunTools
    }

    /// Decides a search call: a query already searched (compared after
    /// collapsing whitespace and lowercasing) is refused, a spent budget is
    /// reported, else the search is counted and remembered.
    pub fn plan_search(&mut self, query: &str) -> (out: SearchPlan)
        requires
            session_ok(*old(self)),
        ensures
            session_ok(*final(self)),
            final(self).settings == old(self).settings,
            final(self).sources == old(self).sources,
            query_views(old(self).used_queries@).contains(spec_normalize_search_query(query@))
                ==> out == SearchPlan::Duplicate && *final(self) == *old(self),
            !query_views(old(self).used_queries@).contains(spec_normalize_search_query(query@))
                && old(self).budget.searches >= old(self).budget.search_limit ==> out
                == SearchPlan::LimitReached(old(self).budget.search_limit) && *final(self) == *old(self),
            !query_views(old(self).used_queries@).contains(spec_normalize_search_query(query@))
                && old(self).budget.searches < old(self).budget.search_limit ==> {
                &&& out == SearchPlan::Run
                &&& final(self).budget.searches == old(self).budget.searches + 1
                &&& query_views(final(self).used_queries@) == query_views(
                    old(self).used_queries@,
                ).push(spec_normalize_search_query(query@))
                &&& final(self).latest_query@ == query@
            },
    {
        let normalized = normalize_search_query(query);
        let mut i: usize = 0;
        while i < self.used_queries.len()
            invariant
                i <= self.used_queries@.len(),
                *self == *old(self),
                session_ok(*self),
                normalized@ == spec_normalize_search_query(query@),
                forall|j: int| 0 <= j < i ==> query_views(self.used_queries@)[j] != normalized@,
            decreases self.used_queries@.len() - i,
        {
            if crate::text::same_text(self.used_queries[i].as_str(), normalized.as_str()) {
                assert(query_views(self.used_queries@)[i as int] == normalized@);
                return SearchPlan::Duplicate;
            }
            i = i + 1;
        }
        assert(!query_views(self.used_queries@).contains(normalized@));
        if !self.budget.take_search() {
            return SearchPlan::LimitReached(self.budget.search_limit);
        }
        let ghost before = query_views(self.used_queries@);
        self.used_queries.push(normalized);
        assert(query_views(self.used_queries@) =~= before.push(spec_normalize_search_query(query@)));
        self.latest_query = copy_string(query);
        SearchPlan::Run
    }

    /// Takes in the results of a search: each result's domain and source
    /// are recorded (a page already listed keeps its number), the search
    /// counts as successful, and the report carries the research progress.
    pub fn record_search_results(&mut self, results: Vec<WebSearchResult>) -> (out: SearchReport)
        requires
            session_ok(*old(self)),
            old(self).successful_searches < usize::MAX,
        ensures
            session_ok(*final(self)),
            final(self).budget == old(self).budget,
            final(self).settings == old(self).settings,
            final(self).successful_searches == old(self).successful_searches + 1,
            out.results@.len() == results@.len(),
            final(self).sources@ == spec_sources_after(old(self).sources@, results@),
            host_views(final(self).result_hosts@) == spec_hosts_after(
                host_views(old(self).result_hosts@),
                results@,
            ),
            final(self).page_hosts == old(self).page_hosts,
            forall|i: int|
                0 <= i < results@.len() ==> {
                    let r = #[trigger] out.results@[i];
                    &&& r.title == results@[i].title
                    &&& r.url == results@[i].url
                    &&& r.snippet == results@[i].snippet
                    &&& r.source == spec_result_source(old(self).sources@, results@, i)
                    &&& 1 <= r.source <= final(self).sources@.len()
                },
            out.successful_searches == final(self).successful_searches,
            out.minimum_searches == old(self).settings.minimum_successful_searches,
            out.maximum_searches == old(self).budget.search_limit,
            out.independent_result_domains == final(self).result_hosts@.len(),
            old(self).settings.allow_multiple_searches ==> opt_view(out.next_step)
                == session_checkpoint(*final(self)),
            !old(self).settings.allow_multiple_searches ==> out.next_step is None,
    {
        let mut numbered: Vec<NumberedResult> = Vec::new();
        let mut i: usize = 0;
        while i < results.len()
            invariant
                i <= results@.len(),
                numbered@.len() == i,
                session_ok(*self),
                self.budget == old(self).budget,
                self.settings == old(self).settings,
                self.successful_searches == old(self).successful_searches,
                self.page_hosts == old(self).page_hosts,
                self.sources@.len() >= old(self).sources@.len(),
                self.sources@ == spec_sources_after(old(self).sources@, results@.take(i as int)),
                host_views(self.result_hosts@) == spec_hosts_after(
                    host_views(old(self).result_hosts@),
                    results@.take(i as int),
                ),
                forall|j: int|
                    0 <= j < i ==> {
                        let r = #[trigger] numbered@[j];
                        &&& r.title == results@[j].title
                        &&& r.url == results@[j].url
                        &&& r.snippet == results@[j].snippet
                        &&& r.source == spec_result_source(old(self).sources@, results@, j)
                        &&& 1 <= r.source <= self.sources@.len()
                    },
            decreases results@.len() - i,
        {
            let r = &results[i];
            assert(results@.take(i + 1).drop_last() == results@.take(i as int));
            assert(results@.take(i + 1).last() == results@[i as int]);
            add_distinct_host(&mut self.result_hosts, r.url.as_str());
            let ghost before = self.sources@;
            let number = add_source(&mut self.sources, r.title.clone(), r.url.clone());
            proof {
                crate::web_search::research::lemma_add_source_bounds(before, r.title, r.url);
            }
            numbered.push(NumberedResult {
                source: number,
                title: r.title.clone(),
                url: r.url.clone(),
                snippet: r.snippet.clone(),
            });
            i = i + 1;
        }
        assert(results@.take(results@.len() as int) == results@);
        self.successful_searches = self.successful_searches + 1;
        let next_step = if self.settings.allow_multiple_searches {
            research_checkpoint(
                &self.budget,
                self.successful_searches,
                self.result_hosts.as_slice(),
                self.page_hosts.as_slice(),
                &self.settings,
            )
        } else {
            None
        };
        SearchReport {
            results: numbered,
            successful_searches: self.successful_searches,
            minimum_searches: self.settings.minimum_successful_searches,
            maximum_searches: self.budget.search_limit,
            independent_result_domains: self.result_hosts.len(),
            next_step,
        }
    }

    /// Takes in a failed search: no results and other failures refund the
    /// search; cancelling and a disabled search end the response.
    pub fn record_search_failure(&mut self, error: WebSearchError) -> (out: SearchFailure)
        requires
            session_ok(*old(self)),
        ensures
            session_ok(*final(self)),
            final(self).settings == old(self).settings,
            error == WebSearchError::Cancelled ==> out is Cancel && *final(self) == *old(self),
            error == WebSearchError::Disabled ==> (out matches SearchFailure::Abort(e) && e
                == WebSearchError::Disabled && *final(self) == *old(self)),
            error != WebSearchError::Cancelled && error != WebSearchError::Disabled ==> {
                &&& final(self).budget.searches == crate::web_search::research::spec_refund(
                    old(self).budget.searches as int,
                )
                &&& ToolBudget::same_limits(final(self).budget, old(self).budget)
                &&& error == WebSearchError::EmptyResults ==> out == (SearchFailure::NoResults {
                    successful_searches: old(self).successful_searches,
                    maximum_searches: old(self).budget.search_limit,
                })
                &&& error != WebSearchError::EmptyResults ==> (out matches SearchFailure::Failed {
                    message,
                    successful_searches,
                    remaining_searches,
                } && message@ == error.spec_user_message() && successful_searches
                    == old(self).successful_searches && remaining_searches
                    == final(self).budget.search_limit - final(self).budget.searches)
            },
    {
        match error {
            WebSearchError::Cancelled => SearchFailure::Cancel,
            WebSearchError::Disabled => SearchFailure::Abort(WebSearchError::Disabled),
            WebSearchError::EmptyResults => {
                self.budget.refund_search();
                SearchFailure::NoResults {
                    successful_searches: self.successful_searches,
                    maximum_searches: self.budget.search_limit,
                }
            },
            other => {
                self.budget.refund_search();
                SearchFailure::Failed {
                    message: copy_string(other.user_message()),
                    successful_searches: self.successful_searches,
                    remaining_searches: self.budget.search_limit - self.budget.searches,
                }
            },
        }
    }

    /// Decides a page fetch: counts it, or reports the spent budget's limit.
    pub fn plan_fetch(&mut self) -> (out: Option<usize>)
        requires
            session_ok(*old(self)),
        ensures
            session_ok(*final(self)),
            final(self).settings == old(self).settings,
            old(self).budget.pages >= old(self).budget.page_limit ==> out == Some(
                old(self).budget.page_limit,
            ) && *final(self) == *old(self),
            old(self).budget.pages < old(self).budget.page_limit ==> out is None
                && final(self).budget.pages == old(self).budget.pages + 1,
    {
        if self.budget.take_page() {
            None
        } else {
            Some(self.budget.page_limit)
        }
    }

    /// Takes in a page that was read: its domain and source are recorded,
    /// and the model is shown the first `page_excerpt_limit` characters.
    pub fn record_page(&mut self, page: WebPageContent) -> (out: PageReport)
        requires
            session_ok(*old(self)),
        ensures
            session_ok(*final(self)),
            final(self).budget == old(self).budget,
            final(self).settings == old(self).settings,
            out.title@ == match page.title {
                Some(t) => t@,
                None => page.url@,
            },
            out.url == page.url,
            (final(self).sources@, out.source as int) == spec_add_source(
                old(self).sources@,
                out.title,
                page.url,
            ),
            host_views(final(self).page_hosts@) == match spec_normalized_host(page.url@) {
                Some(h) => if host_views(old(self).page_hosts@).contains(h) {
                    host_views(old(self).page_hosts@)
                } else {
                    host_views(old(self).page_hosts@).push(h)
                },
                None => host_views(old(self).page_hosts@),
            },
            out.text@ == crate::text::prefix_chars(page.text@, old(self).page_excerpt_limit as nat),
            out.truncated == (page.text@.len() > old(self).page_excerpt_limit),
            out.successful_searches == old(self).successful_searches,
            out.independent_pages_read == final(self).page_hosts@.len(),
            out.minimum_independent_pages == old(self).settings.minimum_independent_pages,
            out.maximum_page_fetches == old(self).budget.page_limit,
            old(self).settings.allow_multiple_searches ==> opt_view(out.next_step)
                == session_checkpoint(*final(self)),
            !old(self).settings.allow_multiple_searches ==> out.next_step is None,
    {
        let title = match &page.title {
            Some(t) => t.clone(),
            None => page.url.clone(),
        };
        add_distinct_host(&mut self.page_hosts, page.url.as_str());
        let source = add_source(&mut self.sources, title.clone(), page.url.clone());
        let text_chars = chars_of(page.text.as_str());
        let truncated = text_chars.len() > self.page_excerpt_limit;
        let excerpt = crate::text::take_chars(text_chars.as_slice(), self.page_excerpt_limit);
        let next_step = if self.settings.allow_multiple_searches {
            research_checkpoint(
                &self.budget,
                self.successful_searches,
                self.result_hosts.as_slice(),
                self.page_hosts.as_slice(),
                &self.settings,
            )
        } else {
            None
        };
        PageReport {
            source,
            title,
            url: page.url,
            text: string_of(excerpt.as_slice()),
            truncated,
            successful_searches: self.successful_searches,
            independent_pages_read: self.page_hosts.len(),
            minimum_independent_pages: self.settings.minimum_independent_pages,
            maximum_page_fetches: self.budget.page_limit,
            next_step,
        }
    }

    /// Takes in a page that could not be read: the fetch is refunded unless
    /// the response was cancelled or web search is disabled.
    pub fn record_fetch_failure(&mut self, error: WebSearchError) -> (out: FetchFailure)
        requires
            session_ok(*old(self)),
        ensures
            session_ok(*final(self)),
            final(self).settings == old(self).settings,
            error == WebSearchError::Cancelled ==> out is Cancel && *final(self) == *old(self),
            error == WebSearchError::Disabled ==> (out matches FetchFailure::Abort(e) && e
                == WebSearchError::Disabled && *final(self) == *old(self)),
            error != WebSearchError::Cancelled && error != WebSearchError::Disabled ==> {
                &&& final(self).budget.pages == crate::web_search::research::spec_refund(
                    old(self).budget.pages as int,
                )
                &&& ToolBudget::same_limits(final(self).budget, old(self).budget)
                &&& out matches FetchFailure::Failed {
                    message,
                    independent_pages_read,
                    remaining_page_fetches,
                } && message@ == error.spec_user_message() && independent_pages_read
                    == old(self).page_hosts@.len() && remaining_page_fetches
                    == final(self).budget.page_limit - final(self).budget.pages
            },
    {
        match error {
            WebSearchError::Cancelled => FetchFailure::Cancel,
            WebSearchError::Disabled => FetchFailure::Abort(WebSearchError::Disabled),
            other => {
                self.budget.refund_page();
                FetchFailure::Failed {
                    message: copy_string(other.user_message()),
                    independent_pages_read: self.page_hosts.len(),
                    remaining_page_fetches: self.budget.page_limit - self.budget.pages,
                }
            },
        }
    }

    /// Decides a code check: refused unless code checking is on in both the
    /// tool and advanced settings, then counted against its budget.
    pub fn plan_code_check(&mut self, tool_settings: &ToolSettings, code_checking_enabled: bool) -> (out: CodeCheckPlan)
        requires
            session_ok(*old(self)),
        ensures
            session_ok(*final(self)),
            final(self).settings == old(self).settings,
            !(tool_settings.enabled && tool_settings.code_checking && code_checking_enabled) ==> out
                == CodeCheckPlan::Disabled && *final(self) == *old(self),
            tool_settings.enabled && tool_settings.code_checking && code_checking_enabled
                && old(self).budget.code_checks >= old(self).budget.code_check_limit ==> out
                == CodeCheckPlan::LimitReached(old(self).budget.code_check_limit) && *final(self)
                == *old(self),
            tool_settings.enabled && tool_settings.code_checking && code_checking_enabled
                && old(self).budget.code_checks < old(self).budget.code_check_limit ==> out
                == CodeCheckPlan::Run && final(self).budget.code_checks == old(self).budget.code_checks
                + 1,
    {
        if !tool_settings.enabled || !tool_settings.code_checking || !code_checking_enabled {
            return CodeCheckPlan::Disabled;
        }
        if self.budget.take_code_check() {
            CodeCheckPlan::Run
        } else {
            CodeCheckPlan::LimitReached(self.budget.code_check_limit)
        }
    }

    /// Whether another round may follow the tool results: some enabled
    /// tool still has budget.
    pub fn may_continue(&self, tool_settings: &ToolSettings, code_checking_enabled: bool) -> (out: bool)
        ensures
            out == self.budget.spec_has_tool_capacity(*tool_settings, code_checking_enabled),
    {
        self.budget.has_tool_capacity(tool_settings, code_checking_enabled)
    }
    /// Ends the response with its answer and reasoning, the sources gathered
    /// and the statistics of the final model reply.
    pub fn finish(self, answer: String, thinking: String, stats: &FinalStatistics) -> (out: ToolLoopResponse)
        ensures
            out.answer == answer,
            out.thinking == thinking,
            out.sources@ == self.sources@,
            (out.eval_count, out.eval_duration, out.generation_details)
                == spec_final_evaluation_statistics(*stats),
    {
        let (eval_count, eval_duration, generation_details) = final_evaluation_statistics(stats);
        ToolLoopResponse { answer, thinking, sources: self.sources, eval_count, eval_duration, generation_details }
    }
}

/// A finished tool-using response.
#[derive(Clone, Debug)]
pub struct ToolLoopResponse {
    pub answer: String,
    pub thinking: String,
    pub sources: Vec<WebSource>,
    /// The evaluation statistics of the final model reply, kept apart from
    /// the chat messages so that they are never sent back in a later turn.
    pub eval_count: Option<u64>,
    pub eval_duration: Option<u64>,
    pub generation_details: GenerationDetails,
}

} // verus!
