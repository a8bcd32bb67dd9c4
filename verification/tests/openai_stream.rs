use locoryn::tool_settings::InferenceBackend;
use locoryn::web_search::stream::{
    apply_openai_stream_event, classify_http_failure, classify_stream_line, openvino_generation_chunk,
    OpenAiStreamEvent, OpenAiToolCall, OpenAiToolCallDelta, StreamLine, StreamedReply, TokenUsage,
};
use locoryn::web_search::WebSearchError;

/// The event of a decoded OpenAI-compatible payload, as far as these tests need it.
fn event_of(line: &str) -> OpenAiStreamEvent<OpenAiToolCallDelta> {
    let StreamLine::Payload(payload) = classify_stream_line(line) else {
        panic!("expected a payload");
    };
    let value: serde_json::Value = serde_json::from_str(&payload).unwrap();
    let choice = value["choices"].as_array().and_then(|choices| choices.first()).cloned();
    let delta = choice.as_ref().map(|choice| choice["delta"].clone()).unwrap_or_default();
    let text = |v: &serde_json::Value, key: &str| v.get(key).and_then(|x| x.as_str()).map(str::to_string);
    OpenAiStreamEvent {
        role: text(&delta, "role"),
        content: text(&delta, "content").unwrap_or_default(),
        reasoning: text(&delta, "reasoning_content").unwrap_or_default(),
        tool_calls: Vec::new(),
        finish_reason: choice.as_ref().and_then(|choice| text(choice, "finish_reason")),
        prompt_tokens: value["usage"]["prompt_tokens"].as_u64(),
        completion_tokens: value["usage"]["completion_tokens"].as_u64(),
    }
}

#[test]
fn retains_openvino_usage_event_for_generation_speed() {
    let line = r#"data: {"choices":[],"usage":{"completion_tokens":120}}"#;
    let (chunk, reason) = openvino_generation_chunk(event_of(line));

    assert_eq!(chunk.eval_count, Some(120));
    assert_eq!(chunk.eval_duration, None);
    assert!(!chunk.done);
    assert_eq!(reason, None);
}

#[test]
fn openvino_chunks_carry_reasoning_and_the_finish_reason() {
    let line = r#"data: {"choices":[{"delta":{"content":"ready","reasoning_content":"checked"},"finish_reason":"stop"}]}"#;
    let (chunk, reason) = openvino_generation_chunk(event_of(line));
    assert_eq!(chunk.response, "ready");
    assert_eq!(chunk.thinking.as_deref(), Some("checked"));
    assert!(chunk.done);
    assert_eq!(reason.as_deref(), Some("stop"));
    let (chunk, _) = openvino_generation_chunk(event_of(r#"data: {"choices":[{"delta":{"content":"x"}}]}"#));
    assert_eq!(chunk.thinking, None);
}

#[test]
fn openai_stream_events_build_the_reply_and_keep_the_latest_usage() {
    let mut reply = StreamedReply::<OpenAiToolCall> {
        role: "assistant".into(),
        content: String::new(),
        thinking: String::new(),
        tool_calls: Vec::new(),
    };
    let mut usage = TokenUsage::default();
    let lines = [
        r#"data: {"choices":[{"delta":{"role":"assistant","reasoning_content":"checked the backend"},"finish_reason":null}]}"#,
        r#"data: {"choices":[{"delta":{"content":"OpenVINO "},"finish_reason":null}]}"#,
        r#"data: {"choices":[{"delta":{"content":"ready"},"finish_reason":"stop"}]}"#,
        r#"data: {"choices":[],"usage":{"prompt_tokens":180,"completion_tokens":2}}"#,
    ];
    let mut progress = None;
    for line in lines {
        progress = Some(apply_openai_stream_event(&mut reply, &mut usage, event_of(line), "", ""));
    }
    assert_eq!(reply.content, "OpenVINO ready");
    assert_eq!(reply.thinking, "checked the backend");
    assert_eq!(usage, TokenUsage { prompt_tokens: Some(180), completion_tokens: Some(2) });
    assert_eq!(progress.unwrap().answer, "OpenVINO ready");

    // A later event without usage keeps the counts; an empty role keeps the role.
    let mut quiet = event_of(r#"data: {"choices":[{"delta":{"role":""}}]}"#);
    quiet.tool_calls = vec![
        OpenAiToolCallDelta { index: 0, id: Some("call-1".into()), name: Some("web_search".into()), arguments: Some("{\"query\":".into()) },
        OpenAiToolCallDelta { index: 0, id: None, name: None, arguments: Some("\"rust\"}".into()) },
        OpenAiToolCallDelta { index: 1, id: Some("call-2".into()), name: Some("fetch_webpage".into()), arguments: None },
    ];
    apply_openai_stream_event(&mut reply, &mut usage, quiet, "", "");
    assert_eq!(reply.role, "assistant");
    assert_eq!(usage.completion_tokens, Some(2));
    assert_eq!(reply.tool_calls.len(), 2);
    assert_eq!(reply.tool_calls[0].id, "call-1");
    assert_eq!(reply.tool_calls[0].name, "web_search");
    assert_eq!(reply.tool_calls[0].arguments, "{\"query\":\"rust\"}");
    assert_eq!(reply.tool_calls[1].name, "fetch_webpage");
    assert_eq!(reply.tool_calls[1].arguments, "");
}

#[test]
fn refused_inference_requests_are_classified() {
    match classify_http_failure(
        InferenceBackend::OpenVino,
        400,
        "Mediapipe execution failed: Input length exceeds the maximum allowed length",
        true,
    ) {
        WebSearchError::ContextLengthExceeded(message) => assert_eq!(
            message,
            "OpenVINO HTTP 400 Bad Request: Mediapipe execution failed: Input length exceeds the maximum allowed length"
        ),
        other => panic!("unexpected {other:?}"),
    }
    assert!(matches!(
        classify_http_failure(InferenceBackend::OpenVino, 400, "bad request", true),
        WebSearchError::ModelToolsUnsupported
    ));
    match classify_http_failure(InferenceBackend::Ollama, 500, "", false) {
        WebSearchError::InferenceUnavailable(message) => {
            assert_eq!(message, "Ollama HTTP 500 Internal Server Error: request rejected")
        }
        other => panic!("unexpected {other:?}"),
    }
}
