//! Web-search settings, providers' identities, errors and their messages.
use vstd::prelude::*;
use crate::text::{concat_str, push_chars, push_str_chars, replace_all, replace_str, chars_of, copy_string, prefix_chars, string_of, take_chars, trim, trim_chars};

pub mod guidance;
pub mod arguments;
pub mod dispatch;
pub mod fetch;
pub mod providers;
pub mod research;
pub mod session;
pub mod stream;
pub mod synthesis;

verus! {

pub const DEFAULT_RESULT_LIMIT: usize = 5;
pub const MAX_RESULT_LIMIT: usize = 10;
pub const DEFAULT_SEARCHES_PER_MESSAGE: usize = 1;
pub const DEFAULT_PAGES_PER_MESSAGE: usize = 2;
pub const DEFAULT_MIN_FOLLOW_UP_SEARCHES: usize = 3;
pub const DEFAULT_MAX_SEARCHES_PER_MESSAGE: usize = 6;
pub const DEFAULT_MIN_CROSS_REFERENCE_PAGES: usize = 2;
pub const DEFAULT_MAX_PAGES_PER_MESSAGE: usize = 6;
pub const DEFAULT_TOOL_ITERATION_LIMIT: usize = 15;
pub const MAX_CONFIGURABLE_SEARCHES: usize = 20;
pub const MAX_CONFIGURABLE_PAGES: usize = 20;
pub const MAX_CONFIGURABLE_TOOL_ITERATIONS: usize = 64;
pub const MAX_CUSTOM_RESEARCH_INSTRUCTIONS_CHARS: usize = 2000;
pub const MAX_STALLED_RESEARCH_REMINDERS: usize = 2;
pub const CONVERSATION_SEARCHES_PER_MESSAGE: usize = 3;
pub const MAX_TOOL_ITERATIONS: usize = 15;
pub const MAX_PAGE_BYTES: usize = 524288;
pub const MAX_PAGE_TEXT_CHARS: usize = 24576;
pub const MAX_REDIRECTS: usize = 5;
pub const MAX_RATE_LIMIT_RETRIES: usize = 2;

/// The search services Locoryn can query.
#[derive(Clone, Copy, Debug, PartialEq, Eq, Structural)]
pub enum WebSearchProviderKind {
    Brave,
    Tavily,
    Exa,
}

impl WebSearchProviderKind {
    /// Every provider, in the order the settings list them.
    pub fn all() -> (out: [WebSearchProviderKind; 3])
        ensures
            out@ == seq![
                WebSearchProviderKind::Brave,
                WebSearchProviderKind::Tavily,
                WebSearchProviderKind::Exa,
            ],
    {
        let out = [WebSearchProviderKind::Brave, WebSearchProviderKind::Tavily, WebSearchProviderKind::Exa];
        assert(out@ =~= seq![
            WebSearchProviderKind::Brave,
            WebSearchProviderKind::Tavily,
            WebSearchProviderKind::Exa,
        ]);
        out
    }

    pub open spec fn spec_environment_variable(self) -> Seq<char> {
        match self {
            WebSearchProviderKind::Brave => "BRAVE_SEARCH_API_KEY"@,
            WebSearchProviderKind::Tavily => "TAVILY_API_KEY"@,
            WebSearchProviderKind::Exa => "EXA_API_KEY"@,
        }
    }

    pub fn api_key_environment_variable(self) -> (out: &'static str)
        ensures
            out@ == self.spec_environment_variable(),
    {
        match self {
            WebSearchProviderKind::Brave => "BRAVE_SEARCH_API_KEY",
            WebSearchProviderKind::Tavily => "TAVILY_API_KEY",
            WebSearchProviderKind::Exa => "EXA_API_KEY",
        }
    }

    pub fn api_key_placeholder(self) -> (out: &'static str)
        ensures
            out@ == match self {
                WebSearchProviderKind::Brave => "Brave Search API key"@,
                WebSearchProviderKind::Tavily => "Tavily API key"@,
                WebSearchProviderKind::Exa => "Exa API key"@,
            },
    {
        match self {
            WebSearchProviderKind::Brave => "Brave Search API key",
            WebSearchProviderKind::Tavily => "Tavily API key",
            WebSearchProviderKind::Exa => "Exa API key",
        }
    }

    pub fn api_key_help(self) -> (out: &'static str)
        ensures
            out@ == match self {
                WebSearchProviderKind::Brave => "Prefer BRAVE_SEARCH_API_KEY for secret storage. A key entered here is stored in the local settings file and never printed in logs."@,
                WebSearchProviderKind::Tavily => "Prefer TAVILY_API_KEY for secret storage. Tavily support is experimental; a key entered here is stored locally and never printed in logs."@,
                WebSearchProviderKind::Exa => "Prefer EXA_API_KEY for secret storage. Exa support is experimental; a key entered here is stored locally and never printed in logs."@,
            },
    {
        match self {
            WebSearchProviderKind::Brave => "Prefer BRAVE_SEARCH_API_KEY for secret storage. A key entered here is stored in the local settings file and never printed in logs.",
            WebSearchProviderKind::Tavily => "Prefer TAVILY_API_KEY for secret storage. Tavily support is experimental; a key entered here is stored locally and never printed in logs.",
            WebSearchProviderKind::Exa => "Prefer EXA_API_KEY for secret storage. Exa support is experimental; a key entered here is stored locally and never printed in logs.",
        }
    }

    /// The name shown in the settings list.
    pub fn display_name(self) -> (out: &'static str)
        ensures
            out@ == match self {
                WebSearchProviderKind::Brave => "Brave Search"@,
                WebSearchProviderKind::Tavily => "Tavily (experimental)"@,
                WebSearchProviderKind::Exa => "Exa (experimental)"@,
            },
    {
        match self {
            WebSearchProviderKind::Brave => "Brave Search",
            WebSearchProviderKind::Tavily => "Tavily (experimental)",
            WebSearchProviderKind::Exa => "Exa (experimental)",
        }
    }
}

/// How recent search results must be.
#[derive(Clone, Copy, Debug, PartialEq, Eq, Structural)]
pub enum WebSearchFreshness {
    Any,
    Day,
    Week,
    Month,
    Year,
}

impl WebSearchFreshness {
    /// Brave's `freshness` parameter.
    pub fn brave_value(self) -> (out: Option<&'static str>)
        ensures
            match self {
                WebSearchFreshness::Any => out is None,
                WebSearchFreshness::Day => out matches Some(v) && v@ == "pd"@,
                WebSearchFreshness::Week => out matches Some(v) && v@ == "pw"@,
                WebSearchFreshness::Month => out matches Some(v) && v@ == "pm"@,
                WebSearchFreshness::Year => out matches Some(v) && v@ == "py"@,
            },
    {
        match self {
            WebSearchFreshness::Any => None,
            WebSearchFreshness::Day => Some("pd"),
            WebSearchFreshness::Week => Some("pw"),
            WebSearchFreshness::Month => Some("pm"),
            WebSearchFreshness::Year => Some("py"),
        }
    }

    /// Tavily's `time_range` parameter.
    pub fn tavily_value(self) -> (out: Option<&'static str>)
        ensures
            match self {
                WebSearchFreshness::Any => out is None,
                _ => out matches Some(v) && v@ == self.spec_tool_value(),
            },
    {
        match self {
            WebSearchFreshness::Any => None,
            WebSearchFreshness::Day => Some("day"),
            WebSearchFreshness::Week => Some("week"),
            WebSearchFreshness::Month => Some("month"),
            WebSearchFreshness::Year => Some("year"),
        }
    }

    pub open spec fn spec_lookback_days(self) -> Option<i64> {
        match self {
            WebSearchFreshness::Any => None,
            WebSearchFreshness::Day => Some(1),
            WebSearchFreshness::Week => Some(7),
            WebSearchFreshness::Month => Some(31),
            WebSearchFreshness::Year => Some(365),
        }
    }

    /// How many days back Exa's `startPublishedDate` lies.
    pub fn exa_lookback_days(self) -> (out: Option<i64>)
        ensures
            out == self.spec_lookback_days(),
    {
        match self {
            WebSearchFreshness::Any => None,
            WebSearchFreshness::Day => Some(1),
            WebSearchFreshness::Week => Some(7),
            WebSearchFreshness::Month => Some(31),
            WebSearchFreshness::Year => Some(365),
        }
    }

    pub open spec fn spec_tool_value(self) -> Seq<char> {
        match self {
            WebSearchFreshness::Any => "any"@,
            WebSearchFreshness::Day => "day"@,
            WebSearchFreshness::Week => "week"@,
            WebSearchFreshness::Month => "month"@,
            WebSearchFreshness::Year => "year"@,
        }
    }

    /// The value the tool schema uses for this freshness.
    pub fn tool_value(self) -> (out: &'static str)
        ensures
            out@ == self.spec_tool_value(),
    {
        match self {
            WebSearchFreshness::Any => "any",
            WebSearchFreshness::Day => "day",
            WebSearchFreshness::Week => "week",
            WebSearchFreshness::Month => "month",
            WebSearchFreshness::Year => "year",
        }
    }
}

/// The user's web-search preferences.
#[derive(Clone, Debug)]
pub struct WebSearchSettings {
    pub enabled: bool,
    /// Opts into multi-query, multi-source research during the same response.
    pub allow_multiple_searches: bool,
    pub provider: WebSearchProviderKind,
    /// Brave's saved key.
    pub api_key: Option<String>,
    pub tavily_api_key: Option<String>,
    pub exa_api_key: Option<String>,
    pub result_limit: usize,
    pub request_timeout_seconds: u64,
    pub maximum_searches: usize,
    pub maximum_page_fetches: usize,
    pub minimum_successful_searches: usize,
    pub minimum_independent_pages: usize,
    pub tool_iteration_limit: usize,
    pub custom_research_instructions: String,
}

fn copy_opt(o: &Option<String>) -> (out: Option<String>)
    ensures
        out == *o,
{
    match o {
        Some(s) => Some(s.clone()),
        None => None,
    }
}

pub open spec fn opt_view(o: Option<String>) -> Option<Seq<char>> {
    match o {
        Some(s) => Some(s@),
        None => None,
    }
}

pub open spec fn opt_str_view(o: Option<&str>) -> Option<Seq<char>> {
    match o {
        Some(s) => Some(s@),
        None => None,
    }
}

/// A saved key, trimmed; a blank key counts as absent.
pub open spec fn spec_normalize_key(key: Option<Seq<char>>) -> Option<Seq<char>> {
    match key {
        Some(k) => if trim(k).len() == 0 {
            None
        } else {
            Some(trim(k))
        },
        None => None,
    }
}

pub open spec fn clamp(x: int, lo: int, hi: int) -> int {
    if x < lo {
        lo
    } else if x > hi {
        hi
    } else {
        x
    }
}

pub open spec fn min(x: int, y: int) -> int {
    if x < y {
        x
    } else {
        y
    }
}

/// Every field of `out` is what `normalized` derives from `s`.
pub open spec fn is_normalization_of(out: WebSearchSettings, s: WebSearchSettings) -> bool {
    &&& out.enabled == s.enabled
    &&& out.allow_multiple_searches == s.allow_multiple_searches
    &&& out.provider == s.provider
    &&& opt_view(out.api_key) == spec_normalize_key(opt_view(s.api_key))
    &&& opt_view(out.tavily_api_key) == spec_normalize_key(opt_view(s.tavily_api_key))
    &&& opt_view(out.exa_api_key) == spec_normalize_key(opt_view(s.exa_api_key))
    &&& out.result_limit == clamp(s.result_limit as int, 1, MAX_RESULT_LIMIT as int)
    &&& out.request_timeout_seconds == clamp(s.request_timeout_seconds as int, 3, 60)
    &&& out.maximum_searches == clamp(s.maximum_searches as int, 1, MAX_CONFIGURABLE_SEARCHES as int)
    &&& out.maximum_page_fetches == min(s.maximum_page_fetches as int, MAX_CONFIGURABLE_PAGES as int)
    &&& out.minimum_successful_searches == clamp(
        s.minimum_successful_searches as int,
        1,
        out.maximum_searches as int,
    )
    &&& out.minimum_independent_pages == min(
        s.minimum_independent_pages as int,
        out.maximum_page_fetches as int,
    )
    &&& out.tool_iteration_limit == clamp(
        s.tool_iteration_limit as int,
        2,
        MAX_CONFIGURABLE_TOOL_ITERATIONS as int,
    )
    &&& out.custom_research_instructions@ == prefix_chars(
        trim(s.custom_research_instructions@),
        MAX_CUSTOM_RESEARCH_INSTRUCTIONS_CHARS as nat,
    )
}

/// The same settings: equal flags and limits, and keys and instructions
/// with equal text.
pub open spec fn same_settings(a: WebSearchSettings, b: WebSearchSettings) -> bool {
    &&& a.enabled == b.enabled
    &&& a.allow_multiple_searches == b.allow_multiple_searches
    &&& a.provider == b.provider
    &&& opt_view(a.api_key) == opt_view(b.api_key)
    &&& opt_view(a.tavily_api_key) == opt_view(b.tavily_api_key)
    &&& opt_view(a.exa_api_key) == opt_view(b.exa_api_key)
    &&& a.result_limit == b.result_limit
    &&& a.request_timeout_seconds == b.request_timeout_seconds
    &&& a.maximum_searches == b.maximum_searches
    &&& a.maximum_page_fetches == b.maximum_page_fetches
    &&& a.minimum_successful_searches == b.minimum_successful_searches
    &&& a.minimum_independent_pages == b.minimum_independent_pages
    &&& a.tool_iteration_limit == b.tool_iteration_limit
    &&& a.custom_research_instructions@ == b.custom_research_instructions@
}

proof fn lemma_normalize_key_idempotent(k: Option<Seq<char>>)
    ensures
        spec_normalize_key(spec_normalize_key(k)) == spec_normalize_key(k),
{
    if let Some(key) = k {
        crate::text::lemma_trim_idempotent(key);
    }
}

/// Normalizing settings a second time changes nothing, as long as the
/// trimmed custom instructions fit within their maximum length (a longer
/// text is cut, and the cut may end in whitespace that a second pass trims).
pub proof fn law_normalizing_twice_is_normalizing_once(
    s: WebSearchSettings,
    once: WebSearchSettings,
    twice: WebSearchSettings,
)
    requires
        is_normalization_of(once, s),
        is_normalization_of(twice, once),
        trim(s.custom_research_instructions@).len() <= MAX_CUSTOM_RESEARCH_INSTRUCTIONS_CHARS,
    ensures
        same_settings(twice, once),
{
    lemma_normalize_key_idempotent(opt_view(s.api_key));
    lemma_normalize_key_idempotent(opt_view(s.tavily_api_key));
    lemma_normalize_key_idempotent(opt_view(s.exa_api_key));
    crate::text::lemma_trim_idempotent(s.custom_research_instructions@);
}

/// The default settings: web search off, Brave, no saved keys, no custom
/// instructions, a 15-second timeout and the default research limits.
pub open spec fn is_default_settings(s: WebSearchSettings) -> bool {
    &&& !s.enabled
    &&& !s.allow_multiple_searches
    &&& s.provider == WebSearchProviderKind::Brave
    &&& s.api_key is None && s.tavily_api_key is None && s.exa_api_key is None
    &&& s.result_limit == DEFAULT_RESULT_LIMIT
    &&& s.request_timeout_seconds == 15
    &&& s.maximum_searches == DEFAULT_MAX_SEARCHES_PER_MESSAGE
    &&& s.maximum_page_fetches == DEFAULT_MAX_PAGES_PER_MESSAGE
    &&& s.minimum_successful_searches == DEFAULT_MIN_FOLLOW_UP_SEARCHES
    &&& s.minimum_independent_pages == DEFAULT_MIN_CROSS_REFERENCE_PAGES
    &&& s.tool_iteration_limit == DEFAULT_TOOL_ITERATION_LIMIT
    &&& s.custom_research_instructions@.len() == 0
}

/// The default settings are already normalized: normalizing them changes
/// nothing.
pub proof fn law_default_settings_are_normalized(d: WebSearchSettings, n: WebSearchSettings)
    requires
        is_default_settings(d),
        is_normalization_of(n, d),
    ensures
        same_settings(n, d),
{
    assert(trim(d.custom_research_instructions@) =~= d.custom_research_instructions@);
}

/// The bounds that normalized settings keep: every limit in its configured
/// range and each required minimum within its maximum.
pub open spec fn within_limits(s: WebSearchSettings) -> bool {
    &&& 1 <= s.result_limit <= MAX_RESULT_LIMIT
    &&& 3 <= s.request_timeout_seconds <= 60
    &&& 1 <= s.maximum_searches <= MAX_CONFIGURABLE_SEARCHES
    &&& s.maximum_page_fetches <= MAX_CONFIGURABLE_PAGES
    &&& 1 <= s.minimum_successful_searches <= s.maximum_searches
    &&& s.minimum_independent_pages <= s.maximum_page_fetches
    &&& 2 <= s.tool_iteration_limit <= MAX_CONFIGURABLE_TOOL_ITERATIONS
    &&& s.custom_research_instructions@.len() <= MAX_CUSTOM_RESEARCH_INSTRUCTIONS_CHARS
}

fn clamp_usize(x: usize, lo: usize, hi: usize) -> (out: usize)
    requires
        lo <= hi,
    ensures
        out == clamp(x as int, lo as int, hi as int),
{
    if x < lo {
        lo
    } else if x > hi {
        hi
    } else {
        x
    }
}

/// Trims a saved key; a blank key counts as absent.
pub fn normalize_api_key(api_key: Option<String>) -> (out: Option<String>)
    ensures
        opt_view(out) == spec_normalize_key(opt_view(api_key)),
{
    match api_key {
        Some(key) => {
            let t = trim_chars(chars_of(key.as_str()).as_slice());
            if t.len() == 0 {
                None
            } else {
                Some(string_of(t.as_slice()))
            }
        },
        None => None,
    }
}

impl WebSearchSettings {
    /// The defaults: web search off, Brave, and the default research limits.
    pub fn new_default() -> (out: Self)
        ensures
            !out.enabled,
            !out.allow_multiple_searches,
            out.provider == WebSearchProviderKind::Brave,
            out.api_key is None && out.tavily_api_key is None && out.exa_api_key is None,
            out.result_limit == DEFAULT_RESULT_LIMIT,
            out.request_timeout_seconds == 15,
            out.maximum_searches == DEFAULT_MAX_SEARCHES_PER_MESSAGE,
            out.maximum_page_fetches == DEFAULT_MAX_PAGES_PER_MESSAGE,
            out.minimum_successful_searches == DEFAULT_MIN_FOLLOW_UP_SEARCHES,
            out.minimum_independent_pages == DEFAULT_MIN_CROSS_REFERENCE_PAGES,
            out.tool_iteration_limit == DEFAULT_TOOL_ITERATION_LIMIT,
            out.custom_research_instructions@.len() == 0,
    {
        WebSearchSettings {
            enabled: false,
            allow_multiple_searches: false,
            provider: WebSearchProviderKind::Brave,
            api_key: None,
            tavily_api_key: None,
            exa_api_key: None,
            result_limit: DEFAULT_RESULT_LIMIT,
            request_timeout_seconds: 15,
            maximum_searches: DEFAULT_MAX_SEARCHES_PER_MESSAGE,
            maximum_page_fetches: DEFAULT_MAX_PAGES_PER_MESSAGE,
            minimum_successful_searches: DEFAULT_MIN_FOLLOW_UP_SEARCHES,
            minimum_independent_pages: DEFAULT_MIN_CROSS_REFERENCE_PAGES,
            tool_iteration_limit: DEFAULT_TOOL_ITERATION_LIMIT,
            custom_research_instructions: String::new(),
        }
    }

    /// An equal copy of the settings.
    pub fn duplicate(&self) -> (out: Self)
        ensures
            out == *self,
    {
        WebSearchSettings {
            enabled: self.enabled,
            allow_multiple_searches: self.allow_multiple_searches,
            provider: self.provider,
            api_key: copy_opt(&self.api_key),
            tavily_api_key: copy_opt(&self.tavily_api_key),
            exa_api_key: copy_opt(&self.exa_api_key),
            result_limit: self.result_limit,
            request_timeout_seconds: self.request_timeout_seconds,
            maximum_searches: self.maximum_searches,
            maximum_page_fetches: self.maximum_page_fetches,
            minimum_successful_searches: self.minimum_successful_searches,
            minimum_independent_pages: self.minimum_independent_pages,
            tool_iteration_limit: self.tool_iteration_limit,
            custom_research_instructions: self.custom_research_instructions.clone(),
        }
    }

    /// Keys trimmed, every limit clamped into its range and each minimum
    /// kept within its maximum, and the custom instructions trimmed and cut
    /// to their maximum length.
    pub fn normalized(self) -> (out: Self)
        ensures
            is_normalization_of(out, self),
            within_limits(out),
    {
        let maximum_searches = clamp_usize(self.maximum_searches, 1, MAX_CONFIGURABLE_SEARCHES);
        let maximum_page_fetches = if self.maximum_page_fetches < MAX_CONFIGURABLE_PAGES {
            self.maximum_page_fetches
        } else {
            MAX_CONFIGURABLE_PAGES
        };
        let minimum_independent_pages = if self.minimum_independent_pages < maximum_page_fetches {
            self.minimum_independent_pages
        } else {
            maximum_page_fetches
        };
        let instructions = chars_of(self.custom_research_instructions.as_str());
        let instructions = trim_chars(instructions.as_slice());
        let instructions = take_chars(instructions.as_slice(), MAX_CUSTOM_RESEARCH_INSTRUCTIONS_CHARS);
        WebSearchSettings {
            enabled: self.enabled,
            allow_multiple_searches: self.allow_multiple_searches,
            provider: self.provider,
            api_key: normalize_api_key(self.api_key),
            tavily_api_key: normalize_api_key(self.tavily_api_key),
            exa_api_key: normalize_api_key(self.exa_api_key),
            result_limit: clamp_usize(self.result_limit, 1, MAX_RESULT_LIMIT),
            request_timeout_seconds: if self.request_timeout_seconds < 3 {
                3
            } else if self.request_timeout_seconds > 60 {
                60
            } else {
                self.request_timeout_seconds
            },
            maximum_searches,
            maximum_page_fetches,
            minimum_successful_searches: clamp_usize(
                self.minimum_successful_searches,
                1,
                maximum_searches,
            ),
            minimum_independent_pages,
            tool_iteration_limit: clamp_usize(
                self.tool_iteration_limit,
                2,
                MAX_CONFIGURABLE_TOOL_ITERATIONS,
            ),
            custom_research_instructions: string_of(instructions.as_slice()),
        }
    }

    pub open spec fn spec_api_key_for(&self, provider: WebSearchProviderKind) -> Option<Seq<char>> {
        match provider {
            WebSearchProviderKind::Brave => opt_view(self.api_key),
            WebSearchProviderKind::Tavily => opt_view(self.tavily_api_key),
            WebSearchProviderKind::Exa => opt_view(self.exa_api_key),
        }
    }

    /// The key saved for the selected provider.
    pub fn selected_api_key(&self) -> (out: Option<&str>)
        ensures
            opt_str_view(out) == self.spec_api_key_for(self.provider),
    {
        self.api_key_for(self.provider)
    }

    /// The key saved for `provider`.
    pub fn api_key_for(&self, provider: WebSearchProviderKind) -> (out: Option<&str>)
        ensures
            opt_str_view(out) == self.spec_api_key_for(provider),
    {
        let key = match provider {
            WebSearchProviderKind::Brave => &self.api_key,
            WebSearchProviderKind::Tavily => &self.tavily_api_key,
            WebSearchProviderKind::Exa => &self.exa_api_key,
        };
        match key {
            Some(k) => Some(k.as_str()),
            None => None,
        }
    }

    /// The key to use for `provider`: the saved key, or else the value of the
    /// provider's environment variable (`environment_value`, read by the
    /// caller), trimmed; blank counts as absent.
    pub fn resolved_api_key_for(
        &self,
        provider: WebSearchProviderKind,
        environment_value: Option<String>,
    ) -> (out: Option<String>)
        ensures
            opt_view(out) == spec_normalize_key(
                match self.spec_api_key_for(provider) {
                    Some(k) => Some(k),
                    None => opt_view(environment_value),
                },
            ),
    {
        let saved = match self.api_key_for(provider) {
            Some(k) => Some(copy_string(k)),
            None => environment_value,
        };
        normalize_api_key(saved)
    }

    /// The key to use for the selected provider; `environment_value` is the
    /// value of its environment variable, read by the caller.
    pub fn resolved_api_key(&self, environment_value: Option<String>) -> (out: Option<String>)
        ensures
            opt_view(out) == spec_normalize_key(
                match self.spec_api_key_for(self.provider) {
                    Some(k) => Some(k),
                    None => opt_view(environment_value),
                },
            ),
    {
        self.resolved_api_key_for(self.provider, environment_value)
    }

    /// Saves a key for the selected provider only.
    pub fn set_selected_api_key(&mut self, api_key: Option<String>)
        ensures
            final(self).spec_api_key_for(old(self).provider) == spec_normalize_key(opt_view(api_key)),
            forall|p: WebSearchProviderKind|
                p != old(self).provider ==> #[trigger] final(self).spec_api_key_for(p)
                    == old(self).spec_api_key_for(p),
            final(self).provider == old(self).provider,
            final(self).enabled == old(self).enabled,
            final(self).allow_multiple_searches == old(self).allow_multiple_searches,
            final(self).result_limit == old(self).result_limit,
            final(self).request_timeout_seconds == old(self).request_timeout_seconds,
            final(self).maximum_searches == old(self).maximum_searches,
            final(self).maximum_page_fetches == old(self).maximum_page_fetches,
            final(self).minimum_successful_searches == old(self).minimum_successful_searches,
            final(self).minimum_independent_pages == old(self).minimum_independent_pages,
            final(self).tool_iteration_limit == old(self).tool_iteration_limit,
            final(self).custom_research_instructions@ == old(self).custom_research_instructions@,
    {
        let key = normalize_api_key(api_key);
        match self.provider {
            WebSearchProviderKind::Brave => self.api_key = key,
            WebSearchProviderKind::Tavily => self.tavily_api_key = key,
            WebSearchProviderKind::Exa => self.exa_api_key = key,
        }
    }
}

impl Default for WebSearchSettings {
    fn default() -> (out: Self)
        ensures
            !out.enabled,
            !out.allow_multiple_searches,
            out.provider == WebSearchProviderKind::Brave,
            out.result_limit == DEFAULT_RESULT_LIMIT,
            out.maximum_searches == DEFAULT_MAX_SEARCHES_PER_MESSAGE,
            out.maximum_page_fetches == DEFAULT_MAX_PAGES_PER_MESSAGE,
            out.minimum_successful_searches == DEFAULT_MIN_FOLLOW_UP_SEARCHES,
            out.minimum_independent_pages == DEFAULT_MIN_CROSS_REFERENCE_PAGES,
            out.tool_iteration_limit == DEFAULT_TOOL_ITERATION_LIMIT,
            out.request_timeout_seconds == 15,
            out.api_key is None && out.tavily_api_key is None && out.exa_api_key is None,
            out.custom_research_instructions@.len() == 0,
            is_default_settings(out),
    {
        WebSearchSettings::new_default()
    }
}


/// Why a web-search or tool-loop step failed.
#[derive(Clone, Debug)]
pub enum WebSearchError {
    Disabled,
    MissingApiKey,
    InvalidUrl,
    UnsupportedScheme,
    UnsafeAddress,
    TooManyRedirects,
    ResponseTooLarge,
    UnsupportedContentType,
    Unauthorized,
    RateLimited,
    Timeout,
    EmptyResults,
    InvalidToolCall,
    ModelToolsUnsupported,
    /// Native function calling was accepted by the server, but the model
    /// returned neither a tool call nor a usable answer.
    WebSearchNotPerformed,
    /// Kept distinct from ordinary inference failures so deployments with a
    /// small prompt limit can retry with a compact, no-tools request.
    ContextLengthExceeded(String),
    InferenceUnavailable(String),
    ProviderUnavailable(String),
    Cancelled,
}

impl WebSearchError {
    pub open spec fn spec_user_message(&self) -> Seq<char> {
        match self {
            WebSearchError::Disabled => "Web search is disabled. Enable it in Settings or for this chat."@,
            WebSearchError::MissingApiKey => "Add a search API key in Settings."@,
            WebSearchError::InvalidUrl => "The requested webpage URL is invalid."@,
            WebSearchError::UnsupportedScheme => "Only HTTP and HTTPS webpages can be opened."@,
            WebSearchError::UnsafeAddress => "Local and private-network webpages are blocked."@,
            WebSearchError::TooManyRedirects => "The webpage redirected too many times."@,
            WebSearchError::ResponseTooLarge => "The webpage is too large to read safely."@,
            WebSearchError::UnsupportedContentType => "The webpage is not readable text or HTML."@,
            WebSearchError::Unauthorized => "The search API key was rejected."@,
            WebSearchError::RateLimited => "The search provider rate limit was reached."@,
            WebSearchError::Timeout => "The web request timed out."@,
            WebSearchError::EmptyResults => "The search returned no results."@,
            WebSearchError::InvalidToolCall => "The model requested web access with invalid arguments."@,
            WebSearchError::ModelToolsUnsupported => "The selected model or inference server does not support tool calling."@,
            WebSearchError::WebSearchNotPerformed => "The model did not perform the requested web search."@,
            WebSearchError::ContextLengthExceeded(_) => "The inference request exceeded the model server's prompt-length limit. For OpenVINO on NPU, increase --max_prompt_len or shorten the active chat context."@,
            WebSearchError::InferenceUnavailable(_) => "The inference backend could not complete the tool-enabled response."@,
            WebSearchError::ProviderUnavailable(_) => "The web-search provider is unavailable."@,
            WebSearchError::Cancelled => "Web search was cancelled."@,
        }
    }

    /// The message shown to the user.
    pub fn user_message(&self) -> (out: &'static str)
        ensures
            out@ == self.spec_user_message(),
    {
        match self {
            WebSearchError::Disabled => "Web search is disabled. Enable it in Settings or for this chat.",
            WebSearchError::MissingApiKey => "Add a search API key in Settings.",
            WebSearchError::InvalidUrl => "The requested webpage URL is invalid.",
            WebSearchError::UnsupportedScheme => "Only HTTP and HTTPS webpages can be opened.",
            WebSearchError::UnsafeAddress => "Local and private-network webpages are blocked.",
            WebSearchError::TooManyRedirects => "The webpage redirected too many times.",
            WebSearchError::ResponseTooLarge => "The webpage is too large to read safely.",
            WebSearchError::UnsupportedContentType => "The webpage is not readable text or HTML.",
            WebSearchError::Unauthorized => "The search API key was rejected.",
            WebSearchError::RateLimited => "The search provider rate limit was reached.",
            WebSearchError::Timeout => "The web request timed out.",
            WebSearchError::EmptyResults => "The search returned no results.",
            WebSearchError::InvalidToolCall => "The model requested web access with invalid arguments.",
            WebSearchError::ModelToolsUnsupported => "The selected model or inference server does not support tool calling.",
            WebSearchError::WebSearchNotPerformed => "The model did not perform the requested web search.",
            WebSearchError::ContextLengthExceeded(_) => "The inference request exceeded the model server's prompt-length limit. For OpenVINO on NPU, increase --max_prompt_len or shorten the active chat context.",
            WebSearchError::InferenceUnavailable(_) => "The inference backend could not complete the tool-enabled response.",
            WebSearchError::ProviderUnavailable(_) => "The web-search provider is unavailable.",
            WebSearchError::Cancelled => "Web search was cancelled.",
        }
    }

    pub open spec fn spec_variant_name(&self) -> Seq<char> {
        match self {
            WebSearchError::Disabled => "Disabled"@,
            WebSearchError::MissingApiKey => "MissingApiKey"@,
            WebSearchError::InvalidUrl => "InvalidUrl"@,
            WebSearchError::UnsupportedScheme => "UnsupportedScheme"@,
            WebSearchError::UnsafeAddress => "UnsafeAddress"@,
            WebSearchError::TooManyRedirects => "TooManyRedirects"@,
            WebSearchError::ResponseTooLarge => "ResponseTooLarge"@,
            WebSearchError::UnsupportedContentType => "UnsupportedContentType"@,
            WebSearchError::Unauthorized => "Unauthorized"@,
            WebSearchError::RateLimited => "RateLimited"@,
            WebSearchError::Timeout => "Timeout"@,
            WebSearchError::EmptyResults => "EmptyResults"@,
            WebSearchError::InvalidToolCall => "InvalidToolCall"@,
            WebSearchError::ModelToolsUnsupported => "ModelToolsUnsupported"@,
            WebSearchError::WebSearchNotPerformed => "WebSearchNotPerformed"@,
            WebSearchError::ContextLengthExceeded(_) => "ContextLengthExceeded"@,
            WebSearchError::InferenceUnavailable(_) => "InferenceUnavailable"@,
            WebSearchError::ProviderUnavailable(_) => "ProviderUnavailable"@,
            WebSearchError::Cancelled => "Cancelled"@,
        }
    }

    /// The variant's name, as `Debug` prints a variant without details.
    pub fn variant_name(&self) -> (out: &'static str)
        ensures
            out@ == self.spec_variant_name(),
    {
        match self {
            WebSearchError::Disabled => "Disabled",
            WebSearchError::MissingApiKey => "MissingApiKey",
            WebSearchError::InvalidUrl => "InvalidUrl",
            WebSearchError::UnsupportedScheme => "UnsupportedScheme",
            WebSearchError::UnsafeAddress => "UnsafeAddress",
            WebSearchError::TooManyRedirects => "TooManyRedirects",
            WebSearchError::ResponseTooLarge => "ResponseTooLarge",
            WebSearchError::UnsupportedContentType => "UnsupportedContentType",
            WebSearchError::Unauthorized => "Unauthorized",
            WebSearchError::RateLimited => "RateLimited",
            WebSearchError::Timeout => "Timeout",
            WebSearchError::EmptyResults => "EmptyResults",
            WebSearchError::InvalidToolCall => "InvalidToolCall",
            WebSearchError::ModelToolsUnsupported => "ModelToolsUnsupported",
            WebSearchError::WebSearchNotPerformed => "WebSearchNotPerformed",
            WebSearchError::ContextLengthExceeded(_) => "ContextLengthExceeded",
            WebSearchError::InferenceUnavailable(_) => "InferenceUnavailable",
            WebSearchError::ProviderUnavailable(_) => "ProviderUnavailable",
            WebSearchError::Cancelled => "Cancelled",
        }
    }

    /// The detail text of the variants that carry one.
    pub open spec fn spec_detail(&self) -> Option<Seq<char>> {
        match self {
            WebSearchError::ContextLengthExceeded(d) => Some(d@),
            WebSearchError::InferenceUnavailable(d) => Some(d@),
            WebSearchError::ProviderUnavailable(d) => Some(d@),
            _ => None,
        }
    }

    pub open spec fn spec_diagnostic(&self, api_key: Option<Seq<char>>) -> Seq<char> {
        spec_redact_secret(
            match self {
                WebSearchError::InferenceUnavailable(d) => "inference backend unavailable: "@ + d@,
                WebSearchError::ContextLengthExceeded(d) => "inference backend unavailable: "@ + d@,
                WebSearchError::ProviderUnavailable(d) => "provider unavailable: "@ + d@,
                _ => self.spec_variant_name(),
            },
            api_key,
        )
    }

    /// A log line for this error with the API key redacted.
    pub fn diagnostic(&self, api_key: Option<&str>) -> (out: String)
        ensures
            out@ == self.spec_diagnostic(opt_str_view(api_key)),
    {
        let detail = match self {
            WebSearchError::InferenceUnavailable(d) => concat_str(
                "inference backend unavailable: ",
                d.as_str(),
            ),
            WebSearchError::ContextLengthExceeded(d) => concat_str(
                "inference backend unavailable: ",
                d.as_str(),
            ),
            WebSearchError::ProviderUnavailable(d) => concat_str(
                "provider unavailable: ",
                d.as_str(),
            ),
            _ => copy_string(self.variant_name()),
        };
        redact_secret(detail.as_str(), api_key)
    }

    pub open spec fn spec_detailed_user_message(&self, api_key: Option<Seq<char>>) -> Seq<char> {
        let detail = match self.spec_detail() {
            Some(d) => prefix_chars(trim(spec_redact_secret(d, api_key)), 320),
            None => Seq::<char>::empty(),
        };
        if detail.len() == 0 {
            self.spec_user_message()
        } else {
            self.spec_user_message() + " Details: "@ + detail
        }
    }

    /// The user message followed by the (redacted, trimmed, at most 320
    /// characters long) detail, when the error carries a non-blank one.
    pub fn detailed_user_message(&self, api_key: Option<&str>) -> (out: String)
        ensures
            out@ == self.spec_detailed_user_message(opt_str_view(api_key)),
    {
        let detail: Vec<char> = match self {
            WebSearchError::InferenceUnavailable(d)
            | WebSearchError::ProviderUnavailable(d)
            | WebSearchError::ContextLengthExceeded(d) => {
                let redacted = redact_secret(d.as_str(), api_key);
                let t = trim_chars(chars_of(redacted.as_str()).as_slice());
                take_chars(t.as_slice(), 320)
            },
            _ => Vec::new(),
        };
        let mut out = copy_string(self.user_message());
        if detail.len() > 0 {
            push_str_chars(&mut out, " Details: ");
            push_chars(&mut out, detail.as_slice());
        }
        out
    }
}

pub open spec fn spec_redact_secret(text: Seq<char>, secret: Option<Seq<char>>) -> Seq<char> {
    match secret {
        Some(k) => if k.len() > 0 {
            replace_all(text, k, "<redacted>"@)
        } else {
            text
        },
        None => text,
    }
}

/// `text` with every occurrence of a non-empty `secret` replaced by
/// `<redacted>`.
pub fn redact_secret(text: &str, secret: Option<&str>) -> (out: String)
    ensures
        out@ == spec_redact_secret(text@, opt_str_view(secret)),
{
    match secret {
        Some(k) => {
            if chars_of(k).len() > 0 {
                replace_str(text, k, "<redacted>")
            } else {
                copy_string(text)
            }
        },
        None => copy_string(text),
    }
}


/// One search hit.
#[derive(Clone, Debug, PartialEq, Eq)]
pub struct WebSearchResult {
    pub title: String,
    pub url: String,
    pub snippet: String,
}

impl WebSearchResult {
    /// An equal copy of the result.
    pub fn duplicate(&self) -> (out: Self)
        ensures
            out == *self,
    {
        WebSearchResult { title: self.title.clone(), url: self.url.clone(), snippet: self.snippet.clone() }
    }
}

/// The readable text of a fetched page.
#[derive(Clone, Debug)]
pub struct WebPageContent {
    pub url: String,
    pub title: Option<String>,
    pub text: String,
}

/// A numbered source shown with the answer.
#[derive(Clone, Debug, PartialEq, Eq)]
pub struct WebSource {
    pub title: String,
    pub url: String,
}

/// What the research loop is doing, for the user interface.
#[derive(Clone, Debug)]
pub enum WebSearchState {
    Idle,
    Searching { query: String, websites: Vec<WebSource> },
    Results { query: String, websites: Vec<WebSource> },
    Fetching { url: String, query: String, websites: Vec<WebSource> },
    /// The web tools have returned control to the model; research context
    /// stays attached so the accumulated results remain visible.
    Synthesizing { thinking: String, query: String, websites: Vec<WebSource> },
    Completed,
    Failed { message: String },
}

} // verus!
