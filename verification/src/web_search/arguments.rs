//! The arguments a model passes in a tool call, as far as the tools read them.
use vstd::prelude::*;
use crate::text::{chars_of, string_of, trim, trim_chars};
use crate::web_search::{WebSearchError, WebSearchFreshness, MAX_RESULT_LIMIT, clamp};

verus! {

/// One argument value: a string, an unsigned integer, or anything else.
#[derive(Clone, Debug)]
pub enum ArgumentValue {
    Text(String),
    Unsigned(u64),
    Other,
}

/// The arguments object of a tool call: its keys with their values, in order.
#[derive(Clone, Debug)]
pub struct ToolArguments {
    pub entries: Vec<(String, ArgumentValue)>,
}

/// The value of the first entry named `key`.
pub open spec fn spec_lookup(entries: Seq<(String, ArgumentValue)>, key: Seq<char>) -> Option<ArgumentValue>
    decreases entries.len(),
{
    if entries.len() == 0 {
        None
    } else if entries[0].0@ == key {
        Some(entries[0].1)
    } else {
        spec_lookup(entries.drop_first(), key)
    }
}

impl ToolArguments {
    pub open spec fn spec_get(&self, key: Seq<char>) -> Option<ArgumentValue> {
        spec_lookup(self.entries@, key)
    }

    /// The value of `key`, if the object has it.
    pub fn get(&self, key: &str) -> (out: Option<&ArgumentValue>)
        ensures
            match self.spec_get(key@) {
                Some(v) => out matches Some(o) && *o == v,
                None => out is None,
            },
    {
        let k = chars_of(key);
        let mut i: usize = 0;
        assert(self.entries@.skip(0) == self.entries@);
        while i < self.entries.len()
            invariant
                i <= self.entries@.len(),
                k@ == key@,
                spec_lookup(self.entries@, key@) == spec_lookup(self.entries@.skip(i as int), key@),
            decreases self.entries@.len() - i,
        {
            let ghost rest = self.entries@.skip(i as int);
            assert(rest[0] == self.entries@[i as int]);
            if crate::text::slices_equal(chars_of(self.entries[i].0.as_str()).as_slice(), k.as_slice()) {
                return Some(&self.entries[i].1);
            }
            assert(rest.drop_first() == self.entries@.skip(i + 1));
            i = i + 1;
        }
        None
    }
}

pub open spec fn spec_required_string(args: ToolArguments, key: Seq<char>) -> Result<Seq<char>, ()> {
    match args.spec_get(key) {
        Some(ArgumentValue::Text(s)) => if trim(s@).len() > 0 {
            Ok(trim(s@))
        } else {
            Err(())
        },
        _ => Err(()),
    }
}

/// The trimmed, non-empty string argument `key`; `InvalidToolCall` when it
/// is missing, not a string, or blank.
pub fn required_string(arguments: &ToolArguments, key: &str) -> (out: Result<String, WebSearchError>)
    ensures
        match spec_required_string(*arguments, key@) {
            Ok(s) => out matches Ok(o) && o@ == s,
            Err(_) => out matches Err(WebSearchError::InvalidToolCall),
        },
{
    match arguments.get(key) {
        Some(ArgumentValue::Text(s)) => {
            let t = trim_chars(chars_of(s.as_str()).as_slice());
            if t.len() > 0 {
                Ok(string_of(t.as_slice()))
            } else {
                Err(WebSearchError::InvalidToolCall)
            }
        },
        _ => Err(WebSearchError::InvalidToolCall),
    }
}

pub open spec fn spec_requested_result_count(args: ToolArguments, configured_limit: usize) -> Option<int> {
    let limit = clamp(configured_limit as int, 1, MAX_RESULT_LIMIT as int);
    match args.spec_get("result_count"@) {
        None => Some(limit),
        Some(ArgumentValue::Unsigned(n)) => if 1 <= n <= limit {
            Some(n as int)
        } else {
            None
        },
        Some(_) => None,
    }
}

/// How many results a `web_search` call asks for: the configured limit
/// (clamped to 1..=10) when absent, else the requested count, which must lie
/// within that limit.
pub fn requested_result_count(arguments: &ToolArguments, configured_limit: usize) -> (out: Result<usize, WebSearchError>)
    ensures
        match spec_requested_result_count(*arguments, configured_limit) {
            Some(n) => out matches Ok(o) && o == n,
            None => out matches Err(WebSearchError::InvalidToolCall),
        },
{
    let limit = if configured_limit < 1 {
        1
    } else if configured_limit > MAX_RESULT_LIMIT {
        MAX_RESULT_LIMIT
    } else {
        configured_limit
    };
    match arguments.get("result_count") {
        None => Ok(limit),
        Some(ArgumentValue::Unsigned(n)) => {
            if 1 <= *n && *n <= limit as u64 {
                Ok(*n as usize)
            } else {
                Err(WebSearchError::InvalidToolCall)
            }
        },
        Some(_) => Err(WebSearchError::InvalidToolCall),
    }
}

pub open spec fn spec_freshness(value: Option<ArgumentValue>) -> Option<WebSearchFreshness> {
    match value {
        None => Some(WebSearchFreshness::Any),
        Some(ArgumentValue::Text(s)) => if s@ == "any"@ {
            Some(WebSearchFreshness::Any)
        } else if s@ == "day"@ {
            Some(WebSearchFreshness::Day)
        } else if s@ == "week"@ {
            Some(WebSearchFreshness::Week)
        } else if s@ == "month"@ {
            Some(WebSearchFreshness::Month)
        } else if s@ == "year"@ {
            Some(WebSearchFreshness::Year)
        } else {
            None
        },
        Some(_) => None,
    }
}

impl WebSearchFreshness {
    /// The freshness a tool call asks for: `Any` when absent, else one of the
    /// exact names any, day, week, month, year.
    pub fn from_tool_value(value: Option<&ArgumentValue>) -> (out: Result<WebSearchFreshness, WebSearchError>)
        ensures
            match spec_freshness(match value { Some(v) => Some(*v), None => None }) {
                Some(f) => out matches Ok(o) && o == f,
                None => out matches Err(WebSearchError::InvalidToolCall),
            },
    {
        match value {
            None => Ok(WebSearchFreshness::Any),
            Some(ArgumentValue::Text(s)) => {
                let c = chars_of(s.as_str());
                if crate::text::slices_equal(c.as_slice(), chars_of("any").as_slice()) {
                    Ok(WebSearchFreshness::Any)
                } else if crate::text::slices_equal(c.as_slice(), chars_of("day").as_slice()) {
                    Ok(WebSearchFreshness::Day)
                } else if crate::text::slices_equal(c.as_slice(), chars_of("week").as_slice()) {
                    Ok(WebSearchFreshness::Week)
                } else if crate::text::slices_equal(c.as_slice(), chars_of("month").as_slice()) {
                    Ok(WebSearchFreshness::Month)
                } else if crate::text::slices_equal(c.as_slice(), chars_of("year").as_slice()) {
                    Ok(WebSearchFreshness::Year)
                } else {
                    Err(WebSearchError::InvalidToolCall)
                }
            },
            Some(_) => Err(WebSearchError::InvalidToolCall),
        }
    }
}

} // verus!
