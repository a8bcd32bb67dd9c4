//! The search providers' requests and replies: what is sent to Brave,
//! Tavily and Exa, and which of their results are kept.
use vstd::prelude::*;
use crate::text::{chars_of, copy_string, trim, trimmed};
use crate::web_search::{
    clamp, opt_view, WebSearchError, WebSearchFreshness, WebSearchProviderKind, WebSearchResult,
    WebSearchSettings, MAX_RESULT_LIMIT,
};

verus! {

// ---------------------------------------------------------------------------
// Replies
// ---------------------------------------------------------------------------

/// Brave's reply: the web results, when there are any.
#[derive(Clone, Debug)]
pub struct BraveResponse {
    pub web: Option<BraveWebResults>,
}

#[derive(Clone, Debug)]
pub struct BraveWebResults {
    pub results: Vec<BraveResult>,
}

#[derive(Clone, Debug)]
pub struct BraveResult {
    pub title: String,
    pub url: String,
    pub description: String,
}

/// Tavily's reply.
#[derive(Clone, Debug)]
pub struct TavilyResponse {
    pub results: Vec<TavilyResult>,
}

#[derive(Clone, Debug)]
pub struct TavilyResult {
    pub title: String,
    pub url: String,
    pub content: String,
}

/// Exa's reply.
#[derive(Clone, Debug)]
pub struct ExaResponse {
    pub results: Vec<ExaResult>,
}

#[derive(Clone, Debug)]
pub struct ExaResult {
    pub title: Option<String>,
    pub url: String,
    pub highlights: Vec<String>,
    pub text: String,
    pub summary: String,
}

/// What `url::Url::parse` followed by `Url::scheme` gives.
pub uninterp spec fn spec_url_scheme(url: Seq<char>) -> Option<Seq<char>>;

/// Calls `Url::parse` and `Url::scheme`. Trusted: the result is named
/// `spec_url_scheme`; it is `None` exactly when the URL does not parse.
#[verifier::external_body]
fn url_scheme(url: &str) -> (out: Option<String>)
    ensures
        opt_view(out) == spec_url_scheme(url@),
{
    url::Url::parse(url).ok().map(|parsed| parsed.scheme().to_string())
}

/// A result link worth keeping: it parses as an HTTP(S) URL.
pub open spec fn is_web_link(url: Seq<char>) -> bool {
    spec_url_scheme(url) == Some("http"@) || spec_url_scheme(url) == Some("https"@)
}

fn web_link(url: &str) -> (out: bool)
    ensures
        out == is_web_link(url@),
{
    match url_scheme(url) {
        Some(s) => crate::text::same_text(s.as_str(), "http") || crate::text::same_text(
            s.as_str(),
            "https",
        ),
        None => false,
    }
}

/// How many results a search asks for: `limit` kept within 1 and the maximum.
pub open spec fn result_count(limit: usize) -> int {
    clamp(limit as int, 1, MAX_RESULT_LIMIT as int)
}

pub fn clamp_result_count(limit: usize) -> (out: usize)
    ensures
        out as int == result_count(limit),
{
    if limit < 1 {
        1
    } else if limit > MAX_RESULT_LIMIT {
        MAX_RESULT_LIMIT
    } else {
        limit
    }
}

/// The first `n` items of `s` (all of them when there are fewer).
pub open spec fn first_n<A>(s: Seq<A>, n: int) -> Seq<A> {
    if s.len() <= n {
        s
    } else {
        s.take(n)
    }
}

/// Results found, or no results.
pub open spec fn nonempty_results(r: Seq<WebSearchResult>) -> Result<Seq<WebSearchResult>, WebSearchError> {
    if r.len() == 0 {
        Err(WebSearchError::EmptyResults)
    } else {
        Ok(r)
    }
}

pub open spec fn result_view(out: Result<Vec<WebSearchResult>, WebSearchError>) -> Result<Seq<WebSearchResult>, WebSearchError> {
    match out {
        Ok(v) => Ok(v@),
        Err(e) => Err(e),
    }
}

/// The web links among the results, in order, at most `result_count(limit)`.
pub open spec fn spec_collect_valid_results(results: Seq<WebSearchResult>, limit: usize) -> Result<Seq<WebSearchResult>, WebSearchError> {
    nonempty_results(
        first_n(results.filter(|r: WebSearchResult| is_web_link(r.url@)), result_count(limit)),
    )
}

/// Keeps the results whose link is an HTTP(S) URL, at most the clamped
/// limit of them; no result left is an error.
pub fn collect_valid_results(results: Vec<WebSearchResult>, limit: usize) -> (out: Result<Vec<WebSearchResult>, WebSearchError>)
    ensures
        result_view(out) == spec_collect_valid_results(results@, limit),
{
    let n = clamp_result_count(limit);
    let ghost f = |r: WebSearchResult| is_web_link(r.url@);
    let mut kept: Vec<WebSearchResult> = Vec::new();
    let mut i: usize = 0;
    while i < results.len()
        invariant
            i <= results@.len(),
            f == (|r: WebSearchResult| is_web_link(r.url@)),
            kept@ == results@.take(i as int).filter(f),
        decreases results@.len() - i,
    {
        reveal(Seq::filter);
        assert(results@.take(i + 1).drop_last() =~= results@.take(i as int));
        if web_link(results[i].url.as_str()) {
            kept.push(results[i].duplicate());
        }
        i = i + 1;
    }
    assert(results@.take(results@.len() as int) =~= results@);
    let mut out: Vec<WebSearchResult> = Vec::new();
    let mut j: usize = 0;
    while j < kept.len() && j < n
        invariant
            j <= kept@.len(),
            j <= n,
            out@ == kept@.take(j as int),
        decreases kept@.len() - j,
    {
        out.push(kept[j].duplicate());
        j = j + 1;
        assert(kept@.take(j as int) =~= kept@.take(j - 1).push(kept@[j - 1]));
    }
    assert(out@ =~= first_n(kept@, n as int));
    if out.len() == 0 {
        Err(WebSearchError::EmptyResults)
    } else {
        Ok(out)
    }
}

pub open spec fn brave_items(body: BraveResponse) -> Seq<BraveResult> {
    match body.web {
        Some(w) => w.results@,
        None => Seq::empty(),
    }
}

pub open spec fn brave_result(r: BraveResult) -> WebSearchResult {
    WebSearchResult { title: r.title, url: r.url, snippet: r.description }
}

/// Brave's results: the first `result_count(limit)` of them, then only the
/// web links among those.
pub open spec fn spec_parse_brave_results(body: BraveResponse, limit: usize) -> Result<Seq<WebSearchResult>, WebSearchError> {
    nonempty_results(
        first_n(brave_items(body), result_count(limit)).filter(
            |r: BraveResult| is_web_link(r.url@),
        ).map_values(|r: BraveResult| brave_result(r)),
    )
}

/// The results of a Brave reply: the first clamped-limit results, of which
/// the HTTP(S) links are kept; none left is an error.
pub fn parse_brave_results(body: BraveResponse, limit: usize) -> (out: Result<Vec<WebSearchResult>, WebSearchError>)
    ensures
        result_view(out) == spec_parse_brave_results(body, limit),
{
    let n = clamp_result_count(limit);
    let ghost items = brave_items(body);
    let items_vec: Vec<BraveResult> = match body.web {
        Some(w) => w.results,
        None => Vec::new(),
    };
    assert(items_vec@ == items);
    let ghost taken = first_n(items, n as int);
    let ghost f = |r: BraveResult| is_web_link(r.url@);
    let ghost g = |r: BraveResult| brave_result(r);
    let mut out: Vec<WebSearchResult> = Vec::new();
    let mut i: usize = 0;
    let end = if items_vec.len() < n {
        items_vec.len()
    } else {
        n
    };
    assert(taken =~= items.take(end as int));
    while i < end
        invariant
            i <= end <= items_vec@.len(),
            items_vec@ == items,
            taken == items.take(end as int),
            f == (|r: BraveResult| is_web_link(r.url@)),
            g == (|r: BraveResult| brave_result(r)),
            out@ == taken.take(i as int).filter(f).map_values(g),
        decreases end - i,
    {
        reveal(Seq::filter);
        assert(taken.take(i + 1).drop_last() =~= taken.take(i as int));
        assert(taken[i as int] == items_vec@[i as int]);
        let r = &items_vec[i];
        if web_link(r.url.as_str()) {
            let ghost before = taken.take(i as int).filter(f);
            out.push(WebSearchResult {
                title: r.title.clone(),
                url: r.url.clone(),
                snippet: r.description.clone(),
            });
            assert(before.push(items_vec@[i as int]).map_values(g) =~= before.map_values(g).push(
                g(items_vec@[i as int]),
            ));
        }
        i = i + 1;
    }
    assert(taken.take(end as int) =~= taken);
    if out.len() == 0 {
        Err(WebSearchError::EmptyResults)
    } else {
        Ok(out)
    }
}

pub open spec fn tavily_result(r: TavilyResult) -> WebSearchResult {
    WebSearchResult { title: r.title, url: r.url, snippet: r.content }
}

/// The results of a Tavily reply, through `collect_valid_results`.
pub fn parse_tavily_results(body: TavilyResponse, limit: usize) -> (out: Result<Vec<WebSearchResult>, WebSearchError>)
    ensures
        result_view(out) == spec_collect_valid_results(
            body.results@.map_values(|r: TavilyResult| tavily_result(r)),
            limit,
        ),
{
    let mut all: Vec<WebSearchResult> = Vec::new();
    let mut i: usize = 0;
    while i < body.results.len()
        invariant
            i <= body.results@.len(),
            all@ == body.results@.take(i as int).map_values(|r: TavilyResult| tavily_result(r)),
        decreases body.results@.len() - i,
    {
        let r = &body.results[i];
        all.push(WebSearchResult { title: r.title.clone(), url: r.url.clone(), snippet: r.content.clone() });
        i = i + 1;
        assert(body.results@.take(i as int).map_values(|r: TavilyResult| tavily_result(r))
            =~= body.results@.take(i - 1).map_values(|r: TavilyResult| tavily_result(r)).push(
            tavily_result(body.results@[i - 1]),
        ));
    }
    assert(body.results@.take(body.results@.len() as int) =~= body.results@);
    collect_valid_results(all, limit)
}

pub open spec fn string_views(v: Seq<String>) -> Seq<Seq<char>> {
    v.map_values(|s: String| s@)
}

/// The excerpt an Exa result is shown with: its highlights joined with
/// ` [...] `, else its text, else its summary.
pub open spec fn exa_snippet(r: ExaResult) -> Seq<char> {
    if r.highlights@.len() == 0 {
        if r.text@.len() == 0 {
            r.summary@
        } else {
            r.text@
        }
    } else {
        crate::text::join(string_views(r.highlights@), " [...] "@)
    }
}

/// An Exa result as a search result; an untitled one gets a placeholder title.
pub open spec fn exa_result_matches(out: WebSearchResult, r: ExaResult) -> bool {
    &&& out.title@ == match r.title {
        Some(t) => t@,
        None => "Untitled result"@,
    }
    &&& out.url == r.url
    &&& out.snippet@ == exa_snippet(r)
}

fn join_strings(parts: &Vec<String>, sep: &str) -> (out: String)
    ensures
        out@ == crate::text::join(string_views(parts@), sep@),
{
    let mut out = String::new();
    let mut i: usize = 0;
    while i < parts.len()
        invariant
            i <= parts@.len(),
            out@ == crate::text::join(string_views(parts@.take(i as int)), sep@),
        decreases parts@.len() - i,
    {
        let ghost before = string_views(parts@.take(i as int));
        assert(string_views(parts@.take(i + 1)) =~= before.push(parts@[i as int]@));
        proof {
            crate::text::lemma_join_push(before, parts@[i as int]@, sep@);
        }
        if i > 0 {
            crate::text::push_str_chars(&mut out, sep);
        }
        crate::text::push_str_chars(&mut out, parts[i].as_str());
        i = i + 1;
    }
    assert(parts@.take(parts@.len() as int) =~= parts@);
    out
}

fn exa_to_result(r: &ExaResult) -> (out: WebSearchResult)
    ensures
        exa_result_matches(out, *r),
{
    let snippet = if r.highlights.len() == 0 {
        if r.text.as_str().is_empty() {
            copy_string(r.summary.as_str())
        } else {
            copy_string(r.text.as_str())
        }
    } else {
        join_strings(&r.highlights, " [...] ")
    };
    let title = match &r.title {
        Some(t) => copy_string(t.as_str()),
        None => copy_string("Untitled result"),
    };
    WebSearchResult { title, url: r.url.clone(), snippet }
}

/// The results of an Exa reply, through `collect_valid_results`.
pub fn parse_exa_results(body: ExaResponse, limit: usize) -> (out: Result<Vec<WebSearchResult>, WebSearchError>)
    ensures
        exists|converted: Seq<WebSearchResult>|
            #![trigger converted.len()]
            converted.len() == body.results@.len() && (forall|i: int|
                0 <= i < converted.len() ==> exa_result_matches(#[trigger] converted[i], body.results@[i]))
                && result_view(out) == spec_collect_valid_results(converted, limit),
{
    let mut all: Vec<WebSearchResult> = Vec::new();
    let mut i: usize = 0;
    while i < body.results.len()
        invariant
            i <= body.results@.len(),
            all@.len() == i,
            forall|j: int| 0 <= j < i ==> exa_result_matches(#[trigger] all@[j], body.results@[j]),
        decreases body.results@.len() - i,
    {
        let r = exa_to_result(&body.results[i]);
        all.push(r);
        i = i + 1;
    }
    let ghost converted = all@;
    let out = collect_valid_results(all, limit);
    assert(converted.len() == body.results@.len());
    out
}

// ---------------------------------------------------------------------------
// Requests
// ---------------------------------------------------------------------------

/// The query a search sends: trimmed; a blank query finds nothing.
pub fn search_query(query: &str) -> (out: Result<String, WebSearchError>)
    ensures
        trim(query@).len() == 0 ==> out == Err::<String, _>(WebSearchError::EmptyResults),
        trim(query@).len() > 0 ==> (out matches Ok(q) && q@ == trim(query@)),
{
    let q = trimmed(query);
    if q.as_str().is_empty() {
        Err(WebSearchError::EmptyResults)
    } else {
        Ok(q)
    }
}

/// The query parameters of a Brave search: `q`, `count` and, for a
/// freshness filter, `freshness`.
pub fn brave_query_pairs(query: &str, limit: usize, freshness: WebSearchFreshness) -> (out: Vec<(String, String)>)
    ensures
        out@.len() == (if freshness == WebSearchFreshness::Any { 2int } else { 3int }),
        out@[0].0@ == "q"@ && out@[0].1@ == query@,
        out@[1].0@ == "count"@ && out@[1].1@ == crate::text::decimal(result_count(limit) as nat),
        freshness != WebSearchFreshness::Any ==> out@[2].0@ == "freshness"@ && out@[2].1@ == match freshness {
            WebSearchFreshness::Day => "pd"@,
            WebSearchFreshness::Week => "pw"@,
            WebSearchFreshness::Month => "pm"@,
            _ => "py"@,
        },
{
    let mut out: Vec<(String, String)> = Vec::new();
    out.push((copy_string("q"), copy_string(query)));
    let count = clamp_result_count(limit);
    out.push((copy_string("count"), crate::text::decimal_string(count as u64)));
    match freshness.brave_value() {
        Some(v) => out.push((copy_string("freshness"), copy_string(v))),
        None => {},
    }
    out
}

/// The body of a Tavily search request.
#[derive(Clone, Debug)]
pub struct TavilyRequest {
    pub query: String,
    pub search_depth: String,
    pub max_results: usize,
    pub include_answer: bool,
    pub include_raw_content: bool,
    pub include_images: bool,
    pub time_range: Option<String>,
}

/// A basic-depth Tavily search for at most the clamped limit of results,
/// without answers, raw content or images, with Tavily's time range for a
/// freshness filter.
pub fn tavily_request_body(query: &str, limit: usize, freshness: WebSearchFreshness) -> (out: TavilyRequest)
    ensures
        out.query@ == query@,
        out.search_depth@ == "basic"@,
        out.max_results as int == result_count(limit),
        !out.include_answer && !out.include_raw_content && !out.include_images,
        freshness == WebSearchFreshness::Any ==> out.time_range is None,
        freshness != WebSearchFreshness::Any ==> (out.time_range matches Some(t) && t@
            == freshness.spec_tool_value()),
{
    TavilyRequest {
        query: copy_string(query),
        search_depth: copy_string("basic"),
        max_results: clamp_result_count(limit),
        include_answer: false,
        include_raw_content: false,
        include_images: false,
        time_range: match freshness.tavily_value() {
            Some(v) => Some(copy_string(v)),
            None => None,
        },
    }
}

/// What `DateTime::from_timestamp_millis` followed by
/// `to_rfc3339_opts(SecondsFormat::Millis, true)` gives: the UTC time as
/// RFC 3339 with milliseconds and `Z`, or `None` outside chrono's range.
pub uninterp spec fn spec_rfc3339_millis(timestamp_millis: i64) -> Option<Seq<char>>;

/// Calls `DateTime::from_timestamp_millis` and `DateTime::to_rfc3339_opts`.
/// Trusted: the result is named `spec_rfc3339_millis`.
#[verifier::external_body]
fn rfc3339_millis(timestamp_millis: i64) -> (out: Option<String>)
    ensures
        opt_view(out) == spec_rfc3339_millis(timestamp_millis),
{
    chrono::DateTime::from_timestamp_millis(timestamp_millis).map(
        |time| time.to_rfc3339_opts(chrono::SecondsFormat::Millis, true),
    )
}

/// The body of an Exa search request.
#[derive(Clone, Debug)]
pub struct ExaRequest {
    pub query: String,
    pub num_results: usize,
    pub search_type: String,
    pub highlights: bool,
    pub start_published_date: Option<String>,
}

/// The milliseconds in a day.
pub const DAY_MILLIS: i64 = 86400000;

/// An automatic Exa search with highlights for at most the clamped limit of
/// results; a freshness filter asks for pages published since that many
/// days before `now_millis` (milliseconds since the Unix epoch).
pub fn exa_request_body(query: &str, limit: usize, freshness: WebSearchFreshness, now_millis: i64) -> (out: ExaRequest)
    requires
        now_millis >= i64::MIN + 365 * DAY_MILLIS,
    ensures
        out.query@ == query@,
        out.num_results as int == result_count(limit),
        out.search_type@ == "auto"@,
        out.highlights,
        opt_view(out.start_published_date) == match freshness.spec_lookback_days() {
            Some(days) => spec_rfc3339_millis((now_millis - days * DAY_MILLIS) as i64),
            None => None,
        },
{
    let start = match freshness.exa_lookback_days() {
        Some(days) => rfc3339_millis(now_millis - days * DAY_MILLIS),
        None => None,
    };
    ExaRequest {
        query: copy_string(query),
        num_results: clamp_result_count(limit),
        search_type: copy_string("auto"),
        highlights: true,
        start_published_date: start,
    }
}

// ---------------------------------------------------------------------------
// Choosing a provider
// ---------------------------------------------------------------------------

/// The key a provider of the given kind uses: the saved key for that kind,
/// or else the environment value, with a blank key counting as none.
pub open spec fn provider_key(
    settings: WebSearchSettings,
    kind: WebSearchProviderKind,
    environment_value: Option<String>,
) -> Option<Seq<char>> {
    crate::web_search::spec_normalize_key(
        match settings.spec_api_key_for(kind) {
            Some(k) => Some(k),
            None => opt_view(environment_value),
        },
    )
}

impl WebSearchProviderKind {
    pub open spec fn spec_endpoint(self) -> Seq<char> {
        match self {
            WebSearchProviderKind::Brave => "https://api.search.brave.com/res/v1/web/search"@,
            WebSearchProviderKind::Tavily => "https://api.tavily.com/search"@,
            WebSearchProviderKind::Exa => "https://api.exa.ai/search"@,
        }
    }

    /// The search endpoint of the provider.
    pub fn endpoint(self) -> (out: &'static str)
        ensures
            out@ == self.spec_endpoint(),
    {
        match self {
            WebSearchProviderKind::Brave => "https://api.search.brave.com/res/v1/web/search",
            WebSearchProviderKind::Tavily => "https://api.tavily.com/search",
            WebSearchProviderKind::Exa => "https://api.exa.ai/search",
        }
    }
}

/// What every provider is built from: its key, its endpoint and the request
/// timeout its HTTP client uses.
#[derive(Clone, Debug)]
pub struct ProviderConnection {
    pub api_key: String,
    pub search_endpoint: String,
    pub request_timeout_seconds: u64,
}

/// The connection of a provider of the given kind built from the settings as
/// they are, or `MissingApiKey` where it has no key.
pub open spec fn connection_for(
    settings: WebSearchSettings,
    kind: WebSearchProviderKind,
    environment_value: Option<String>,
    out: Result<ProviderConnection, WebSearchError>,
) -> bool {
    match provider_key(settings, kind, environment_value) {
        None => out == Err::<ProviderConnection, WebSearchError>(WebSearchError::MissingApiKey),
        Some(k) => out matches Ok(c) && c.api_key@ == k && c.search_endpoint@ == kind.spec_endpoint()
            && c.request_timeout_seconds == settings.request_timeout_seconds,
    }
}

fn connect(settings: &WebSearchSettings, kind: WebSearchProviderKind, environment_value: Option<String>) -> (out: Result<ProviderConnection, WebSearchError>)
    ensures
        connection_for(*settings, kind, environment_value, out),
{
    let api_key = match settings.resolved_api_key_for(kind, environment_value) {
        Some(k) => k,
        None => return Err(WebSearchError::MissingApiKey),
    };
    Ok(ProviderConnection {
        api_key,
        search_endpoint: copy_string(kind.endpoint()),
        request_timeout_seconds: settings.request_timeout_seconds,
    })
}

/// The Brave search provider.
#[derive(Clone, Debug)]
pub struct BraveSearchProvider {
    pub connection: ProviderConnection,
}

impl BraveSearchProvider {
    /// A Brave provider from the settings; `environment_value` is the value
    /// of its key's environment variable, read by the caller.
    pub fn new(settings: &WebSearchSettings, environment_value: Option<String>) -> (out: Result<Self, WebSearchError>)
        ensures
            connection_for(
                *settings,
                WebSearchProviderKind::Brave,
                environment_value,
                match out {
                    Ok(p) => Ok(p.connection),
                    Err(e) => Err(e),
                },
            ),
    {
        match connect(settings, WebSearchProviderKind::Brave, environment_value) {
            Ok(connection) => Ok(BraveSearchProvider { connection }),
            Err(e) => Err(e),
        }
    }
}

/// The Tavily search provider.
#[derive(Clone, Debug)]
pub struct TavilySearchProvider {
    pub connection: ProviderConnection,
}

impl TavilySearchProvider {
    /// A Tavily provider from the settings; `environment_value` is the value
    /// of its key's environment variable, read by the caller.
    pub fn new(settings: &WebSearchSettings, environment_value: Option<String>) -> (out: Result<Self, WebSearchError>)
        ensures
            connection_for(
                *settings,
                WebSearchProviderKind::Tavily,
                environment_value,
                match out {
                    Ok(p) => Ok(p.connection),
                    Err(e) => Err(e),
                },
            ),
    {
        match connect(settings, WebSearchProviderKind::Tavily, environment_value) {
            Ok(connection) => Ok(TavilySearchProvider { connection }),
            Err(e) => Err(e),
        }
    }
}

/// The Exa search provider.
#[derive(Clone, Debug)]
pub struct ExaSearchProvider {
    pub connection: ProviderConnection,
}

impl ExaSearchProvider {
    /// An Exa provider from the settings; `environment_value` is the value
    /// of its key's environment variable, read by the caller.
    pub fn new(settings: &WebSearchSettings, environment_value: Option<String>) -> (out: Result<Self, WebSearchError>)
        ensures
            connection_for(
                *settings,
                WebSearchProviderKind::Exa,
                environment_value,
                match out {
                    Ok(p) => Ok(p.connection),
                    Err(e) => Err(e),
                },
            ),
    {
        match connect(settings, WebSearchProviderKind::Exa, environment_value) {
            Ok(connection) => Ok(ExaSearchProvider { connection }),
            Err(e) => Err(e),
        }
    }
}

/// One of the search providers.
#[derive(Clone, Debug)]
pub enum SearchProvider {
    Brave(BraveSearchProvider),
    Tavily(TavilySearchProvider),
    Exa(ExaSearchProvider),
}

impl SearchProvider {
    pub open spec fn spec_kind(self) -> WebSearchProviderKind {
        match self {
            SearchProvider::Brave(_) => WebSearchProviderKind::Brave,
            SearchProvider::Tavily(_) => WebSearchProviderKind::Tavily,
            SearchProvider::Exa(_) => WebSearchProviderKind::Exa,
        }
    }

    pub open spec fn spec_connection(self) -> ProviderConnection {
        match self {
            SearchProvider::Brave(p) => p.connection,
            SearchProvider::Tavily(p) => p.connection,
            SearchProvider::Exa(p) => p.connection,
        }
    }

    /// Which provider this is.
    pub fn kind(&self) -> (out: WebSearchProviderKind)
        ensures
            out == self.spec_kind(),
    {
        match self {
            SearchProvider::Brave(_) => WebSearchProviderKind::Brave,
            SearchProvider::Tavily(_) => WebSearchProviderKind::Tavily,
            SearchProvider::Exa(_) => WebSearchProviderKind::Exa,
        }
    }

    /// The key, endpoint and timeout of this provider.
    pub fn connection(&self) -> (out: &ProviderConnection)
        ensures
            *out == self.spec_connection(),
    {
        match self {
            SearchProvider::Brave(p) => &p.connection,
            SearchProvider::Tavily(p) => &p.connection,
            SearchProvider::Exa(p) => &p.connection,
        }
    }
}

/// The provider a search uses: that of the normalized settings, with its
/// saved key or else `environment_value` (the value of its environment
/// variable, read by the caller); no key is an error.
pub fn create_search_provider(settings: &WebSearchSettings, environment_value: Option<String>) -> (out: Result<SearchProvider, WebSearchError>)
    ensures
        ({
            let kind = settings.provider;
            let saved = crate::web_search::spec_normalize_key(settings.spec_api_key_for(kind));
            let key = crate::web_search::spec_normalize_key(
                match saved {
                    Some(k) => Some(k),
                    None => opt_view(environment_value),
                },
            );
            &&& key is None ==> out == Err::<SearchProvider, _>(WebSearchError::MissingApiKey)
            &&& key matches Some(k) ==> (out matches Ok(p) && p.spec_kind() == kind
                && p.spec_connection().api_key@ == k
                && p.spec_connection().search_endpoint@ == kind.spec_endpoint()
                && p.spec_connection().request_timeout_seconds as int == clamp(
                settings.request_timeout_seconds as int,
                3,
                60,
            ))
        }),
{
    let normalized = settings.duplicate().normalized();
    match normalized.provider {
        WebSearchProviderKind::Brave => match BraveSearchProvider::new(&normalized, environment_value) {
            Ok(p) => Ok(SearchProvider::Brave(p)),
            Err(e) => Err(e),
        },
        WebSearchProviderKind::Tavily => match TavilySearchProvider::new(&normalized, environment_value) {
            Ok(p) => Ok(SearchProvider::Tavily(p)),
            Err(e) => Err(e),
        },
        WebSearchProviderKind::Exa => match ExaSearchProvider::new(&normalized, environment_value) {
            Ok(p) => Ok(SearchProvider::Exa(p)),
            Err(e) => Err(e),
        },
    }
}

} // verus!
