//! Reading a streamed chat reply line by line: which lines carry data, how
//! each chunk extends the reply, and the statistics of the final line.
use vstd::prelude::*;
use crate::text::{chars_of, copy_string, push_str_chars, starts_with, string_of, trim, trim_chars};
use crate::web_search::research::{
    combined_answer, combined_thinking, spec_combined_answer, spec_combined_thinking,
};
use crate::tool_settings::InferenceBackend;
use crate::web_search::fetch::{spec_status_text, status_text};
use crate::web_search::research::{
    context_length_needles, is_context_length_error, is_tools_unsupported_error, mentions_any,
    tools_unsupported_needles,
};
use crate::web_search::WebSearchError;

verus! {

/// What one line of a streamed reply holds.
#[derive(Clone, Debug, PartialEq, Eq)]
pub enum StreamLine {
    /// The end marker `[DONE]`.
    Done,
    /// A blank line or a comment (starting with `:`).
    Skip,
    /// A JSON payload to decode.
    Payload(String),
}

/// The payload of a line: trimmed, without a leading `data:` (and the
/// whitespace after it).
pub open spec fn line_payload(line: Seq<char>) -> Seq<char> {
    let t = trim(line);
    if starts_with(t, "data:"@) {
        trim(t.skip(5))
    } else {
        t
    }
}

/// Sorts a line of a streamed reply into the end marker, a line to skip,
/// or a JSON payload.
pub fn classify_stream_line(line: &str) -> (out: StreamLine)
    ensures
        line_payload(line@) == "[DONE]"@ ==> out == StreamLine::Done,
        line_payload(line@) != "[DONE]"@ && (line_payload(line@).len() == 0 || starts_with(
            line_payload(line@),
            ":"@,
        )) ==> out == StreamLine::Skip,
        line_payload(line@) != "[DONE]"@ && line_payload(line@).len() > 0 && !starts_with(
            line_payload(line@),
            ":"@,
        ) ==> (out matches StreamLine::Payload(p) && p@ == line_payload(line@)),
{
    let t = trim_chars(chars_of(line).as_slice());
    let data = chars_of("data:");
    proof {
        reveal_strlit("data:");
    }
    let payload = if crate::text::starts_with_chars(t.as_slice(), data.as_slice()) {
        let rest = crate::text::slice_range(t.as_slice(), 5, t.len());
        assert(rest@ == t@.skip(5));
        trim_chars(rest.as_slice())
    } else {
        t
    };
    let done = chars_of("[DONE]");
    let colon = chars_of(":");
    if crate::text::slices_equal(payload.as_slice(), done.as_slice()) {
        StreamLine::Done
    } else if payload.len() == 0 || crate::text::starts_with_chars(payload.as_slice(), colon.as_slice()) {
        StreamLine::Skip
    } else {
        StreamLine::Payload(string_of(payload.as_slice()))
    }
}

/// One decoded chunk of an Ollama chat stream, as far as the reply reads
/// it; `C` is the type of a tool call.
#[derive(Clone, Debug)]
pub struct ChatChunk<C> {
    /// The `error` text the server sent instead of a chunk.
    pub error: Option<String>,
    /// Whether the chunk has a `message`.
    pub has_message: bool,
    pub role: Option<String>,
    pub content: Option<String>,
    pub thinking: Option<String>,
    /// The message's `tool_calls` array, if it has one.
    pub tool_calls: Option<Vec<C>>,
    /// The `done` flag.
    pub done: Option<bool>,
}

/// The reply gathered from the chunks so far.
#[derive(Clone, Debug)]
pub struct StreamedReply<C> {
    pub role: String,
    pub content: String,
    pub thinking: String,
    pub tool_calls: Vec<C>,
}

/// The reasoning and answer shown while a response is under way.
#[derive(Clone, Debug, Default, PartialEq, Eq)]
pub struct ToolLoopProgress {
    pub thinking: String,
    pub answer: String,
}

pub open spec fn opt_seq_view(o: Option<String>) -> Seq<char> {
    match o {
        Some(s) => s@,
        None => Seq::empty(),
    }
}

pub open spec fn opt_calls<C>(o: Option<Vec<C>>) -> Seq<C> {
    match o {
        Some(v) => v@,
        None => Seq::empty(),
    }
}

/// Adds a chunk to the reply: an error ends the stream; a chunk without a
/// message only reports `done`; otherwise a non-empty role replaces the
/// role, the content and reasoning fragments and the tool calls are
/// appended, and the progress to show is the earlier rounds' reasoning and
/// answer followed by this round's. Returns whether the stream is done,
/// with that progress.
pub fn apply_chat_chunk<C>(
    reply: &mut StreamedReply<C>,
    chunk: ChatChunk<C>,
    previous_thinking: &str,
    previous_answer: &str,
) -> (out: Result<(bool, Option<ToolLoopProgress>), WebSearchError>)
    ensures
        chunk.error matches Some(e) ==> (out matches Err(WebSearchError::InferenceUnavailable(m))
            && m@ == e@) && *final(reply) == *old(reply),
        chunk.error is None ==> (out matches Ok(r) && r.0 == match chunk.done {
            Some(d) => d,
            None => false,
        }),
        chunk.error is None && !chunk.has_message ==> *final(reply) == *old(reply) && (out matches Ok(
            r,
        ) && r.1 is None),
        chunk.error is None && chunk.has_message ==> {
            &&& final(reply).role@ == match chunk.role {
                Some(r) => if r@.len() > 0 {
                    r@
                } else {
                    old(reply).role@
                },
                None => old(reply).role@,
            }
            &&& final(reply).content@ == old(reply).content@ + opt_seq_view(chunk.content)
            &&& final(reply).thinking@ == old(reply).thinking@ + opt_seq_view(chunk.thinking)
            &&& final(reply).tool_calls@ == old(reply).tool_calls@ + opt_calls(chunk.tool_calls)
            &&& out matches Ok(r) && r.1 matches Some(p) && p.thinking@ == spec_combined_thinking(
                previous_thinking@,
                final(reply).thinking@,
            ) && p.answer@ == spec_combined_answer(previous_answer@, final(reply).content@)
        },
{
    match &chunk.error {
        Some(e) => return Err(WebSearchError::InferenceUnavailable(e.clone())),
        None => {},
    }
    let done = match chunk.done {
        Some(d) => d,
        None => false,
    };
    if !chunk.has_message {
        return Ok((done, None));
    }
    match &chunk.role {
        Some(r) => if !r.as_str().is_empty() {
            reply.role = r.clone();
        },
        None => {},
    }
    match &chunk.content {
        Some(c) => push_str_chars(&mut reply.content, c.as_str()),
        None => {
            assert(reply.content@ =~= reply.content@ + Seq::<char>::empty());
        },
    }
    match &chunk.thinking {
        Some(t) => push_str_chars(&mut reply.thinking, t.as_str()),
        None => {
            assert(reply.thinking@ =~= reply.thinking@ + Seq::<char>::empty());
        },
    }
    match chunk.tool_calls {
        Some(mut calls) => reply.tool_calls.append(&mut calls),
        None => {
            assert(reply.tool_calls@ =~= reply.tool_calls@ + Seq::<C>::empty());
        },
    }
    let progress = ToolLoopProgress {
        thinking: combined_thinking(previous_thinking, reply.thinking.as_str()),
        answer: combined_answer(previous_answer, reply.content.as_str()),
    };
    Ok((done, Some(progress)))
}

/// The timing and token statistics of a generation.
#[derive(Clone, Debug, Default, PartialEq, Eq)]
pub struct GenerationDetails {
    pub prompt_tokens: Option<u64>,
    pub output_tokens: Option<u64>,
    pub prompt_duration_ms: Option<u64>,
    pub generation_duration_ms: Option<u64>,
    pub backend_total_duration_ms: Option<u64>,
    pub load_duration_ms: Option<u64>,
}

/// The statistics fields of the final chunk, in nanoseconds where they are durations.
#[derive(Clone, Copy, Debug)]
pub struct FinalStatistics {
    pub eval_count: Option<u64>,
    pub eval_duration: Option<u64>,
    pub prompt_eval_count: Option<u64>,
    pub prompt_eval_duration: Option<u64>,
    pub total_duration: Option<u64>,
    pub load_duration: Option<u64>,
}

pub open spec fn millis(d: Option<u64>) -> Option<u64> {
    match d {
        Some(n) => Some((n / 1000000) as u64),
        None => None,
    }
}

fn to_millis(d: Option<u64>) -> (out: Option<u64>)
    ensures
        out == millis(d),
{
    match d {
        Some(n) => Some(n / 1000000),
        None => None,
    }
}

/// The evaluation count and duration of a final chunk and the details
/// derived from it, durations in whole milliseconds.
pub open spec fn spec_final_evaluation_statistics(stats: FinalStatistics) -> (Option<u64>, Option<u64>, GenerationDetails) {
    (
        stats.eval_count,
        stats.eval_duration,
        GenerationDetails {
            prompt_tokens: stats.prompt_eval_count,
            output_tokens: stats.eval_count,
            prompt_duration_ms: millis(stats.prompt_eval_duration),
            generation_duration_ms: millis(stats.eval_duration),
            backend_total_duration_ms: millis(stats.total_duration),
            load_duration_ms: millis(stats.load_duration),
        },
    )
}

/// The evaluation count and duration of the final chunk and the details
/// derived from it, durations in whole milliseconds.
pub fn final_evaluation_statistics(stats: &FinalStatistics) -> (out: (Option<u64>, Option<u64>, GenerationDetails))
    ensures
        out == spec_final_evaluation_statistics(*stats),
{
    (
        stats.eval_count,
        stats.eval_duration,
        GenerationDetails {
            prompt_tokens: stats.prompt_eval_count,
            output_tokens: stats.eval_count,
            prompt_duration_ms: to_millis(stats.prompt_eval_duration),
            generation_duration_ms: to_millis(stats.eval_duration),
            backend_total_duration_ms: to_millis(stats.total_duration),
            load_duration_ms: to_millis(stats.load_duration),
        },
    )
}

/// Web access needs web search enabled and a provider; otherwise it is disabled.
pub fn guard_web_access(enabled: bool, has_provider: bool) -> (out: Result<(), WebSearchError>)
    ensures
        enabled && has_provider ==> out is Ok,
        !(enabled && has_provider) ==> out == Err::<(), WebSearchError>(WebSearchError::Disabled),
{
    if !enabled || !has_provider {
        Err(WebSearchError::Disabled)
    } else {
        Ok(())
    }
}

/// The error detail shown for a refused inference request: the server's
/// own detail, or "request rejected" when it sent none.
pub open spec fn shown_detail(detail: Seq<char>) -> Seq<char> {
    if detail.len() == 0 {
        "request rejected"@
    } else {
        detail
    }
}

/// The message of a refused inference request: the server, the status
/// and the detail.
pub open spec fn http_failure_message(backend: InferenceBackend, status: u16, detail: Seq<char>) -> Seq<char> {
    backend.spec_name() + " HTTP "@ + spec_status_text(status) + ": "@ + shown_detail(detail)
}

/// The error for an inference request the server refused with `status`.
/// `detail` is the error text read from the response (empty when there is
/// none) and `tools_sent` whether the request offered tools. A context
/// overflow comes first; then, when tools were offered, a detail saying the
/// model cannot use tools (or, from OpenVINO, a plain 400) means the model
/// does not support tools; anything else leaves the server unavailable.
pub fn classify_http_failure(
    backend: InferenceBackend,
    status: u16,
    detail: &str,
    tools_sent: bool,
) -> (out: WebSearchError)
    requires
        100 <= status <= 999,
    ensures
        mentions_any(shown_detail(detail@), context_length_needles()) ==> (out matches WebSearchError::ContextLengthExceeded(
            m,
        ) && m@ == http_failure_message(backend, status, detail@)),
        !mentions_any(shown_detail(detail@), context_length_needles()) && tools_sent && (mentions_any(
            shown_detail(detail@),
            tools_unsupported_needles(),
        ) || (backend == InferenceBackend::OpenVino && status == 400)) ==> out
            == WebSearchError::ModelToolsUnsupported,
        !mentions_any(shown_detail(detail@), context_length_needles()) && !(tools_sent && (
        mentions_any(shown_detail(detail@), tools_unsupported_needles()) || (backend
            == InferenceBackend::OpenVino && status == 400))) ==> (out matches WebSearchError::InferenceUnavailable(
            m,
        ) && m@ == http_failure_message(backend, status, detail@)),
{
    let shown = if chars_of(detail).len() == 0 {
        copy_string("request rejected")
    } else {
        copy_string(detail)
    };
    proof {
        reveal_strlit("request rejected");
    }
    let mut message = copy_string(backend.server_name());
    push_str_chars(&mut message, " HTTP ");
    let text = status_text(status);
    push_str_chars(&mut message, text.as_str());
    push_str_chars(&mut message, ": ");
    push_str_chars(&mut message, shown.as_str());
    assert(message@ =~= http_failure_message(backend, status, detail@));
    if is_context_length_error(shown.as_str()) {
        WebSearchError::ContextLengthExceeded(message)
    } else if tools_sent && (is_tools_unsupported_error(shown.as_str()) || (match backend {
        InferenceBackend::OpenVino => true,
        InferenceBackend::Ollama => false,
    } && status == 400)) {
        WebSearchError::ModelToolsUnsupported
    } else {
        WebSearchError::InferenceUnavailable(message)
    }
}

// ---------------------------------------------------------------------------
// OpenAI-compatible streams (OpenVINO Model Server)
// ---------------------------------------------------------------------------

/// A fragment of a tool call in an OpenAI-compatible stream: the call's
/// position, and the pieces of its id, function name and arguments.
#[derive(Clone, Debug)]
pub struct OpenAiToolCallDelta {
    pub index: u64,
    pub id: Option<String>,
    pub name: Option<String>,
    pub arguments: Option<String>,
}

/// A tool call put together from its fragments.
#[derive(Clone, Debug)]
pub struct OpenAiToolCall {
    pub id: String,
    pub name: String,
    /// The arguments as the JSON text the model wrote.
    pub arguments: String,
}

/// One decoded event of an OpenAI-compatible stream: the first choice's
/// delta (role, content, reasoning, tool-call fragments), its finish
/// reason, and the usage the event reports.
#[derive(Clone, Debug)]
pub struct OpenAiStreamEvent<C> {
    pub role: Option<String>,
    pub content: String,
    pub reasoning: String,
    pub tool_calls: Vec<C>,
    pub finish_reason: Option<String>,
    pub prompt_tokens: Option<u64>,
    pub completion_tokens: Option<u64>,
}

/// A piece of a plain (tool-free) generation.
#[derive(Clone, Debug)]
pub struct GenerationChunk {
    pub response: String,
    pub done: bool,
    pub thinking: Option<String>,
    pub eval_count: Option<u64>,
    pub eval_duration: Option<u64>,
}

/// An OpenAI-compatible stream event as a generation chunk: its content is
/// the response, it is done when it has a finish reason, non-empty
/// reasoning is the thinking, and the completion tokens are the evaluated
/// count (the server reports no duration). The finish reason comes along.
pub fn openvino_generation_chunk<C>(event: OpenAiStreamEvent<C>) -> (out: (GenerationChunk, Option<String>))
    ensures
        out.0.response@ == event.content@,
        out.0.done == (event.finish_reason is Some),
        event.reasoning@.len() > 0 ==> (out.0.thinking matches Some(t) && t@ == event.reasoning@),
        event.reasoning@.len() == 0 ==> out.0.thinking is None,
        out.0.eval_count == event.completion_tokens,
        out.0.eval_duration is None,
        out.1 == event.finish_reason,
{
    let has_reasoning = chars_of(event.reasoning.as_str()).len() > 0;
    let done = event.finish_reason.is_some();
    (
        GenerationChunk {
            response: event.content,
            done,
            thinking: if has_reasoning {
                Some(event.reasoning)
            } else {
                None
            },
            eval_count: event.completion_tokens,
            eval_duration: None,
        },
        event.finish_reason,
    )
}

/// The token counts reported so far.
#[derive(Clone, Copy, Debug, Default, PartialEq, Eq)]
pub struct TokenUsage {
    pub prompt_tokens: Option<u64>,
    pub completion_tokens: Option<u64>,
}

/// A tool call as text: its id, function name and arguments.
pub open spec fn call_view(c: OpenAiToolCall) -> (Seq<char>, Seq<char>, Seq<char>) {
    (c.id@, c.name@, c.arguments@)
}

pub open spec fn call_views(calls: Seq<OpenAiToolCall>) -> Seq<(Seq<char>, Seq<char>, Seq<char>)> {
    calls.map_values(|c: OpenAiToolCall| call_view(c))
}

/// A piece that replaces a field when it is given and not empty.
pub open spec fn replaced_by(old: Seq<char>, piece: Option<String>) -> Seq<char> {
    match piece {
        Some(p) => if p@.len() > 0 {
            p@
        } else {
            old
        },
        None => old,
    }
}

/// A tool call with one more fragment: a given id or name replaces the
/// old one, and argument text is appended.
pub open spec fn extended_call(c: (Seq<char>, Seq<char>, Seq<char>), d: OpenAiToolCallDelta) -> (
    Seq<char>,
    Seq<char>,
    Seq<char>,
) {
    (replaced_by(c.0, d.id), replaced_by(c.1, d.name), c.2 + opt_seq_view(d.arguments))
}

/// The calls after one fragment: a fragment for an existing position
/// extends that call; any other starts a new call at the end.
pub open spec fn merged_call(calls: Seq<(Seq<char>, Seq<char>, Seq<char>)>, d: OpenAiToolCallDelta) -> Seq<(Seq<char>, Seq<char>, Seq<char>)> {
    if d.index < calls.len() {
        calls.update(d.index as int, extended_call(calls[d.index as int], d))
    } else {
        calls.push(extended_call((seq![], seq![], seq![]), d))
    }
}

/// The calls after all fragments, in order.
pub open spec fn merged_calls(calls: Seq<(Seq<char>, Seq<char>, Seq<char>)>, ds: Seq<OpenAiToolCallDelta>) -> Seq<(Seq<char>, Seq<char>, Seq<char>)>
    decreases ds.len(),
{
    if ds.len() == 0 {
        calls
    } else {
        merged_call(merged_calls(calls, ds.drop_last()), ds.last())
    }
}

fn replace_piece(old: &String, piece: &Option<String>) -> (out: String)
    ensures
        out@ == replaced_by(old@, *piece),
{
    match piece {
        Some(p) => if chars_of(p.as_str()).len() > 0 {
            copy_string(p.as_str())
        } else {
            copy_string(old.as_str())
        },
        None => copy_string(old.as_str()),
    }
}

fn extend_call(c: &OpenAiToolCall, d: &OpenAiToolCallDelta) -> (out: OpenAiToolCall)
    ensures
        call_view(out) == extended_call(call_view(*c), *d),
{
    let mut arguments = copy_string(c.arguments.as_str());
    match &d.arguments {
        Some(a) => push_str_chars(&mut arguments, a.as_str()),
        None => {
            assert(arguments@ =~= arguments@ + Seq::<char>::empty());
        },
    }
    OpenAiToolCall { id: replace_piece(&c.id, &d.id), name: replace_piece(&c.name, &d.name), arguments }
}

/// Adds tool-call fragments to the calls gathered so far.
pub fn merge_tool_call_deltas(calls: &mut Vec<OpenAiToolCall>, deltas: &Vec<OpenAiToolCallDelta>)
    ensures
        call_views(final(calls)@) == merged_calls(call_views(old(calls)@), deltas@),
{
    let mut i: usize = 0;
    let ghost start = call_views(calls@);
    while i < deltas.len()
        invariant
            i <= deltas@.len(),
            start == call_views(old(calls)@),
            call_views(calls@) == merged_calls(start, deltas@.take(i as int)),
        decreases deltas@.len() - i,
    {
        let d = &deltas[i];
        let ghost before = call_views(calls@);
        if d.index < calls.len() as u64 {
            let k = d.index as usize;
            let updated = extend_call(&calls[k], d);
            calls.set(k, updated);
            assert(call_views(calls@) =~= merged_call(before, *d));
        } else {
            let empty = OpenAiToolCall { id: String::new(), name: String::new(), arguments: String::new() };
            let fresh = extend_call(&empty, d);
            calls.push(fresh);
            assert(call_views(calls@) =~= merged_call(before, *d));
        }
        assert(deltas@.take(i + 1).drop_last() =~= deltas@.take(i as int));
        i = i + 1;
    }
    assert(deltas@.take(i as int) =~= deltas@);
}

/// Adds an event of an OpenAI-compatible stream to the reply: a non-empty
/// role replaces the role, content and reasoning are appended, the
/// tool-call fragments are merged, and each reported token count replaces
/// the one before. Returns the progress to show: the earlier rounds'
/// reasoning and answer followed by this round's.
pub fn apply_openai_stream_event(
    reply: &mut StreamedReply<OpenAiToolCall>,
    usage: &mut TokenUsage,
    event: OpenAiStreamEvent<OpenAiToolCallDelta>,
    previous_thinking: &str,
    previous_answer: &str,
) -> (out: ToolLoopProgress)
    ensures
        final(reply).role@ == replaced_by(old(reply).role@, event.role),
        final(reply).content@ == old(reply).content@ + event.content@,
        final(reply).thinking@ == old(reply).thinking@ + event.reasoning@,
        call_views(final(reply).tool_calls@) == merged_calls(call_views(old(reply).tool_calls@), event.tool_calls@),
        final(usage).prompt_tokens == match event.prompt_tokens {
            Some(n) => Some(n),
            None => old(usage).prompt_tokens,
        },
        final(usage).completion_tokens == match event.completion_tokens {
            Some(n) => Some(n),
            None => old(usage).completion_tokens,
        },
        out.thinking@ == spec_combined_thinking(previous_thinking@, final(reply).thinking@),
        out.answer@ == spec_combined_answer(previous_answer@, final(reply).content@),
{
    match event.prompt_tokens {
        Some(n) => usage.prompt_tokens = Some(n),
        None => {},
    }
    match event.completion_tokens {
        Some(n) => usage.completion_tokens = Some(n),
        None => {},
    }
    reply.role = replace_piece(&reply.role, &event.role);
    push_str_chars(&mut reply.content, event.content.as_str());
    push_str_chars(&mut reply.thinking, event.reasoning.as_str());
    merge_tool_call_deltas(&mut reply.tool_calls, &event.tool_calls);
    ToolLoopProgress {
        thinking: combined_thinking(previous_thinking, reply.thinking.as_str()),
        answer: combined_answer(previous_answer, reply.content.as_str()),
    }
}

} // verus!
