//! Reading one tool call of a model reply: which tool it asks for and with
//! which arguments, or the instruction that tells the model how to correct
//! a malformed call.
use vstd::prelude::*;
use crate::conversation_search::{parse_limit, spec_parse_limit};
use crate::text::copy_string;
use crate::web_search::arguments::{
    required_string, requested_result_count, spec_freshness, spec_required_string,
    spec_requested_result_count, ArgumentValue, ToolArguments,
};
use crate::web_search::WebSearchFreshness;

verus! {

/// The instruction for a call without a function name or arguments object.
pub const CALL_SHAPE: &'static str = "The call must contain a function name and an arguments object.";

/// The instruction for arguments that are not one JSON object.
pub const ARGUMENTS_OBJECT: &'static str = "Arguments must be one JSON object matching this tool's schema. Correct the call and try again.";

pub const SEARCH_ARGUMENTS: &'static str = "web_search requires a non-empty string query. result_count must be within the advertised limit and freshness must be any, day, week, month, or year.";

pub const FETCH_ARGUMENTS: &'static str = "fetch_webpage requires a non-empty public HTTP(S) URL in url.";

pub const CONVERSATION_SEARCH_ARGUMENTS: &'static str = "search_locoryn_conversations requires a non-empty string query. limit is optional and must be between 1 and 20.";

pub const CHECK_CODE_ARGUMENTS: &'static str = "check_code requires non-empty string language and code fields.";

/// What to do with one tool call.
#[derive(Debug)]
pub enum ToolCallPlan {
    /// Answer the call with an "invalid tool call" result carrying this
    /// instruction, under this tool name.
    Invalid { tool_name: String, instruction: &'static str },
    Search { query: String, result_count: usize, freshness: WebSearchFreshness },
    Fetch { url: String },
    SearchConversations { query: String, limit: usize },
    CheckCode { language: String, code: String },
    /// A tool name the loop does not know.
    Unknown,
}

/// Reads one tool call. `name` is the function name (`None` when the call
/// has no function or no name), `arguments` its arguments object (`None`
/// when they are not one JSON object), and `result_limit` the configured
/// number of search results.
pub fn plan_tool_call(name: Option<&str>, arguments: Option<&ToolArguments>, result_limit: usize) -> (out: ToolCallPlan)
    ensures
        name is None ==> (out matches ToolCallPlan::Invalid { tool_name, instruction } && tool_name@
            == "unknown"@ && instruction@ == CALL_SHAPE@),
        name matches Some(n) ==> (arguments is None ==> (out matches ToolCallPlan::Invalid {
            tool_name,
            instruction,
        } && tool_name@ == n@ && instruction@ == ARGUMENTS_OBJECT@)),
        name matches Some(n) ==> arguments matches Some(a) ==> {
            if n@ == "web_search"@ {
                match (
                    spec_required_string(*a, "query"@),
                    spec_requested_result_count(*a, result_limit),
                    spec_freshness(a.spec_get("freshness"@)),
                ) {
                    (Ok(q), Some(c), Some(f)) => out matches ToolCallPlan::Search {
                        query,
                        result_count,
                        freshness,
                    } && query@ == q && result_count == c && freshness == f,
                    _ => out matches ToolCallPlan::Invalid { tool_name, instruction } && tool_name@ == n@
                        && instruction@ == SEARCH_ARGUMENTS@,
                }
            } else if n@ == "fetch_webpage"@ {
                match spec_required_string(*a, "url"@) {
                    Ok(u) => out matches ToolCallPlan::Fetch { url } && url@ == u,
                    Err(_) => out matches ToolCallPlan::Invalid { tool_name, instruction } && tool_name@
                        == n@ && instruction@ == FETCH_ARGUMENTS@,
                }
            } else if n@ == "search_locoryn_conversations"@ {
                match spec_required_string(*a, "query"@) {
                    Ok(q) => out matches ToolCallPlan::SearchConversations { query, limit } && query@ == q
                        && limit == spec_parse_limit(*a),
                    Err(_) => out matches ToolCallPlan::Invalid { tool_name, instruction } && tool_name@
                        == n@ && instruction@ == CONVERSATION_SEARCH_ARGUMENTS@,
                }
            } else if n@ == "check_code"@ {
                match (spec_required_string(*a, "language"@), spec_required_string(*a, "code"@)) {
                    (Ok(l), Ok(c)) => out matches ToolCallPlan::CheckCode { language, code } && language@
                        == l && code@ == c,
                    _ => out matches ToolCallPlan::Invalid { tool_name, instruction } && tool_name@ == n@
                        && instruction@ == CHECK_CODE_ARGUMENTS@,
                }
            } else {
                out matches ToolCallPlan::Unknown
            }
        },
{
    let n = match name {
        Some(n) => n,
        None => return ToolCallPlan::Invalid { tool_name: copy_string("unknown"), instruction: CALL_SHAPE },
    };
    let a = match arguments {
        Some(a) => a,
        None => return ToolCallPlan::Invalid { tool_name: copy_string(n), instruction: ARGUMENTS_OBJECT },
    };
    if crate::text::same_text(n, "web_search") {
        let query = required_string(a, "query");
        let count = requested_result_count(a, result_limit);
        let freshness = WebSearchFreshness::from_tool_value(a.get("freshness"));
        match (query, count, freshness) {
            (Ok(query), Ok(result_count), Ok(freshness)) => ToolCallPlan::Search {
                query,
                result_count,
                freshness,
            },
            _ => ToolCallPlan::Invalid { tool_name: copy_string(n), instruction: SEARCH_ARGUMENTS },
        }
    } else if crate::text::same_text(n, "fetch_webpage") {
        match required_string(a, "url") {
            Ok(url) => ToolCallPlan::Fetch { url },
            Err(_) => ToolCallPlan::Invalid { tool_name: copy_string(n), instruction: FETCH_ARGUMENTS },
        }
    } else if crate::text::same_text(n, "search_locoryn_conversations") {
        match required_string(a, "query") {
            Ok(query) => ToolCallPlan::SearchConversations { query, limit: parse_limit(a) },
            Err(_) => ToolCallPlan::Invalid {
                tool_name: copy_string(n),
                instruction: CONVERSATION_SEARCH_ARGUMENTS,
            },
        }
    } else if crate::text::same_text(n, "check_code") {
        match (required_string(a, "language"), required_string(a, "code")) {
            (Ok(language), Ok(code)) => ToolCallPlan::CheckCode { language, code },
            _ => ToolCallPlan::Invalid { tool_name: copy_string(n), instruction: CHECK_CODE_ARGUMENTS },
        }
    } else {
        ToolCallPlan::Unknown
    }
}

} // verus!
