use locoryn::live_markdown::{live_code_placeholder_index, mask_live_code_blocks, LiveCodeBlock};
use locoryn::tool_settings::{InferenceBackend, ToolSettings};
use locoryn::web_search::arguments::{requested_result_count, ArgumentValue, ToolArguments};
use locoryn::web_search::guidance::{available_tools, ToolName};
use locoryn::web_search::providers::{
    create_search_provider, BraveSearchProvider, ExaSearchProvider, SearchProvider,
    TavilySearchProvider,
};
use locoryn::web_search::research::ToolBudget;
use locoryn::web_search::session::{
    ModelReply, ReplyOutcome, ResearchSession, RoundStart, SearchPlan,
};
use locoryn::web_search::stream::{
    apply_chat_chunk, classify_stream_line, final_evaluation_statistics, guard_web_access,
    ChatChunk, FinalStatistics, StreamLine, StreamedReply,
};
use locoryn::web_search::synthesis::{collected_tool_evidence, TranscriptMessage};
use locoryn::web_search::{
    WebSearchError, WebSearchFreshness, WebSearchProviderKind, WebSearchResult, WebSearchSettings,
};

fn arguments(entries: Vec<(&str, ArgumentValue)>) -> ToolArguments {
    ToolArguments {
        entries: entries.into_iter().map(|(key, value)| (key.to_string(), value)).collect(),
    }
}

#[test]
fn provider_keys_are_saved_and_selected_independently() {
    let mut settings = WebSearchSettings {
        api_key: Some("existing-brave-key".into()),
        ..WebSearchSettings::default()
    };
    assert_eq!(settings.selected_api_key(), Some("existing-brave-key"));

    settings.provider = WebSearchProviderKind::Tavily;
    assert_eq!(settings.selected_api_key(), None);
    settings.set_selected_api_key(Some("  tvly-key  ".into()));
    assert_eq!(settings.selected_api_key(), Some("tvly-key"));

    settings.provider = WebSearchProviderKind::Exa;
    settings.set_selected_api_key(Some("exa-key".into()));
    assert_eq!(settings.selected_api_key(), Some("exa-key"));

    settings.provider = WebSearchProviderKind::Brave;
    assert_eq!(settings.selected_api_key(), Some("existing-brave-key"));
    assert_eq!(
        WebSearchProviderKind::all(),
        [
            WebSearchProviderKind::Brave,
            WebSearchProviderKind::Tavily,
            WebSearchProviderKind::Exa,
        ]
    );
}

#[test]
fn disabled_search_never_calls_the_provider() {
    assert!(matches!(guard_web_access(false, true), Err(WebSearchError::Disabled)));
    assert!(matches!(guard_web_access(true, false), Err(WebSearchError::Disabled)));
    assert!(guard_web_access(true, true).is_ok());
}

#[test]
fn streamed_chat_chunks_accumulate_visible_progress_and_tool_calls() {
    let mut reply = StreamedReply::<&str> {
        role: String::new(),
        content: String::new(),
        thinking: String::new(),
        tool_calls: Vec::new(),
    };
    let first = ChatChunk {
        error: None,
        has_message: true,
        role: Some("assistant".into()),
        content: Some(String::new()),
        thinking: Some("checking ".into()),
        tool_calls: Some(vec!["web_search"]),
        done: Some(false),
    };
    let (done, _) = apply_chat_chunk(&mut reply, first, "earlier", "kept draft").unwrap();
    assert!(!done);
    let second = ChatChunk {
        error: None,
        has_message: true,
        role: Some("assistant".into()),
        content: Some("partial answer".into()),
        thinking: Some("sources".into()),
        tool_calls: Some(vec!["fetch_webpage"]),
        done: Some(true),
    };
    let (done, progress) = apply_chat_chunk(&mut reply, second, "earlier", "kept draft").unwrap();
    assert!(done);

    assert_eq!(reply.thinking, "checking sources");
    assert_eq!(reply.content, "partial answer");
    assert_eq!(reply.role, "assistant");
    assert_eq!(reply.tool_calls.len(), 2);
    let progress = progress.unwrap();
    assert_eq!(progress.answer, "kept draft\n\npartial answer");
    assert_eq!(progress.thinking, "earlier\n\nchecking sources");
}

#[test]
fn stream_errors_and_bare_done_chunks_leave_the_reply_alone() {
    let mut reply = StreamedReply::<u8> {
        role: "assistant".into(),
        content: "so far".into(),
        thinking: String::new(),
        tool_calls: Vec::new(),
    };
    let error = ChatChunk {
        error: Some("model not found".into()),
        has_message: false,
        role: None,
        content: None,
        thinking: None,
        tool_calls: None,
        done: None,
    };
    match apply_chat_chunk(&mut reply, error, "", "") {
        Err(WebSearchError::InferenceUnavailable(message)) => assert_eq!(message, "model not found"),
        other => panic!("unexpected outcome: {other:?}"),
    }
    let finished = ChatChunk {
        error: None,
        has_message: false,
        role: None,
        content: None,
        thinking: None,
        tool_calls: None,
        done: Some(true),
    };
    assert_eq!(apply_chat_chunk(&mut reply, finished, "", "").unwrap(), (true, None));
    assert_eq!(reply.content, "so far");
}

#[test]
fn stream_lines_are_sorted_into_markers_comments_and_payloads() {
    assert_eq!(classify_stream_line("data: [DONE]"), StreamLine::Done);
    assert_eq!(classify_stream_line("   "), StreamLine::Skip);
    assert_eq!(classify_stream_line(": keep-alive"), StreamLine::Skip);
    assert_eq!(
        classify_stream_line("data:  {\"done\":true} "),
        StreamLine::Payload("{\"done\":true}".into())
    );
    assert_eq!(classify_stream_line("{\"a\":1}"), StreamLine::Payload("{\"a\":1}".into()));
}

#[test]
fn final_statistics_are_reported_in_milliseconds() {
    let stats = FinalStatistics {
        eval_count: Some(42),
        eval_duration: Some(2_500_000_000),
        prompt_eval_count: Some(7),
        prompt_eval_duration: Some(1_999_999),
        total_duration: None,
        load_duration: Some(999_999),
    };
    let (count, duration, details) = final_evaluation_statistics(&stats);
    assert_eq!(count, Some(42));
    assert_eq!(duration, Some(2_500_000_000));
    assert_eq!(details.prompt_tokens, Some(7));
    assert_eq!(details.output_tokens, Some(42));
    assert_eq!(details.prompt_duration_ms, Some(1));
    assert_eq!(details.generation_duration_ms, Some(2_500));
    assert_eq!(details.backend_total_duration_ms, None);
    assert_eq!(details.load_duration_ms, Some(0));
}

#[test]
fn code_check_tool_requires_both_consent_switches() {
    let settings = WebSearchSettings::default();
    let budget = ToolBudget::new(&settings);
    let names = |tools: Vec<ToolName>| tools.into_iter().map(|tool| tool.name().to_string()).collect::<Vec<_>>();
    let tools = ToolSettings {
        web_search: false,
        fetch_webpage: false,
        conversation_search: false,
        code_checking: true,
        ..ToolSettings::default()
    };

    assert!(names(available_tools(&settings, &tools, false, &budget)).is_empty());
    assert_eq!(names(available_tools(&settings, &tools, true, &budget)), vec!["check_code".to_string()]);

    let disabled_tools = ToolSettings { enabled: false, ..tools };
    assert!(names(available_tools(&settings, &disabled_tools, true, &budget)).is_empty());
}

#[test]
fn search_calls_can_choose_bounded_breadth_and_freshness() {
    let call = arguments(vec![
        ("query", ArgumentValue::Text("current release notes".into())),
        ("result_count", ArgumentValue::Unsigned(3)),
        ("freshness", ArgumentValue::Text("week".into())),
    ]);
    assert_eq!(requested_result_count(&call, 5).unwrap(), 3);
    assert_eq!(
        WebSearchFreshness::from_tool_value(call.get("freshness")).unwrap(),
        WebSearchFreshness::Week
    );
    assert_eq!(WebSearchFreshness::Week.brave_value(), Some("pw"));
    assert_eq!(WebSearchFreshness::Week.tavily_value(), Some("week"));
    assert_eq!(WebSearchFreshness::Week.exa_lookback_days(), Some(7));

    assert!(matches!(
        requested_result_count(&arguments(vec![("result_count", ArgumentValue::Unsigned(6))]), 5),
        Err(WebSearchError::InvalidToolCall)
    ));
    assert!(matches!(
        WebSearchFreshness::from_tool_value(Some(&ArgumentValue::Text("decade".into()))),
        Err(WebSearchError::InvalidToolCall)
    ));
    assert!(matches!(
        WebSearchFreshness::from_tool_value(Some(&ArgumentValue::Unsigned(7))),
        Err(WebSearchError::InvalidToolCall)
    ));
}

#[test]
fn image_editing_requires_matching_backend_model_and_master_switch() {
    let mut settings = ToolSettings { enabled: true, ..ToolSettings::default() };
    assert!(!settings.image_editing_allowed(InferenceBackend::Ollama, "vision"));
    settings
        .image_editing_models
        .push(ToolSettings::image_model_key(InferenceBackend::Ollama, "vision"));
    assert!(settings
        .clone()
        .for_chat_web_enabled(false)
        .image_editing_allowed(InferenceBackend::Ollama, "vision"));
    assert!(!settings.image_editing_allowed(InferenceBackend::OpenVino, "vision"));
    assert!(!settings.image_editing_allowed(InferenceBackend::Ollama, "other"));
    settings.enabled = false;
    assert!(!settings.image_editing_allowed(InferenceBackend::Ollama, "vision"));
}

#[test]
fn each_provider_is_built_from_its_own_key() {
    let settings = WebSearchSettings {
        api_key: Some("brave-key".into()),
        tavily_api_key: Some("   ".into()),
        request_timeout_seconds: 20,
        ..WebSearchSettings::default()
    };
    let brave = BraveSearchProvider::new(&settings, None).unwrap();
    assert_eq!(brave.connection.api_key, "brave-key");
    assert_eq!(brave.connection.search_endpoint, "https://api.search.brave.com/res/v1/web/search");
    assert_eq!(brave.connection.request_timeout_seconds, 20);
    assert!(matches!(TavilySearchProvider::new(&settings, None), Err(WebSearchError::MissingApiKey)));
    assert!(matches!(
        TavilySearchProvider::new(&settings, Some("env-key".into())),
        Err(WebSearchError::MissingApiKey)
    ));
    let exa = ExaSearchProvider::new(&settings, Some(" env-exa ".into())).unwrap();
    assert_eq!(exa.connection.api_key, "env-exa");
    assert_eq!(exa.connection.search_endpoint, "https://api.exa.ai/search");
}

#[test]
fn created_provider_follows_the_normalized_settings() {
    let settings = WebSearchSettings {
        provider: WebSearchProviderKind::Tavily,
        tavily_api_key: Some("   ".into()),
        request_timeout_seconds: 500,
        ..WebSearchSettings::default()
    };
    match create_search_provider(&settings, Some("env-tavily".into())).unwrap() {
        SearchProvider::Tavily(provider) => {
            assert_eq!(provider.connection.api_key, "env-tavily");
            assert_eq!(provider.connection.search_endpoint, "https://api.tavily.com/search");
            assert_eq!(provider.connection.request_timeout_seconds, 60);
        }
        other => panic!("unexpected provider: {other:?}"),
    }
    assert!(matches!(create_search_provider(&settings, None), Err(WebSearchError::MissingApiKey)));
}

#[test]
fn a_search_round_numbers_sources_and_refuses_repeats() {
    let settings = WebSearchSettings { enabled: true, ..WebSearchSettings::default() };
    let tools = ToolSettings::default();
    let mut session = ResearchSession::new(&settings, 8_192);
    match session.begin_round(&tools, false) {
        RoundStart::AskModel(offered) => assert!(offered.contains(&ToolName::WebSearch)),
        RoundStart::FinishAfterLimit => panic!("the first round must ask the model"),
    }
    let reply = ModelReply { thinking: Some(" looking ".into()), content: "Let me search.".into(), tool_call_count: 1 };
    assert!(matches!(session.on_model_reply(&reply, true, true, "rust news"), ReplyOutcome::RunTools));
    assert_eq!(session.accumulated_thinking, "looking");
    assert_eq!(session.accumulated_answer, "Let me search.");

    assert_eq!(session.plan_search("Rust  News"), SearchPlan::Run);
    let report = session.record_search_results(vec![
        WebSearchResult {
            title: "Rust".into(),
            url: "https://www.rust-lang.org/news".into(),
            snippet: "News".into(),
        },
        WebSearchResult {
            title: "Blog".into(),
            url: "https://blog.rust-lang.org/".into(),
            snippet: "Posts".into(),
        },
    ]);
    assert_eq!(report.results.len(), 2);
    assert_eq!(report.results[0].source, 1);
    assert_eq!(report.results[1].source, 2);
    assert_eq!(report.successful_searches, 1);
    assert_eq!(session.sources.len(), 2);

    assert_eq!(session.plan_search("rust news"), SearchPlan::Duplicate);
    assert_eq!(session.plan_search("rust releases"), SearchPlan::LimitReached(1));

    let answer = ModelReply { thinking: None, content: " Rust 2024 is out [1]. ".into(), tool_call_count: 0 };
    match session.on_model_reply(&answer, true, true, "rust news") {
        ReplyOutcome::Complete(text) => assert_eq!(text, "Rust 2024 is out [1]."),
        other => panic!("unexpected outcome: {other:?}"),
    }
    let stats = FinalStatistics {
        eval_count: Some(10),
        eval_duration: Some(5_000_000),
        prompt_eval_count: None,
        prompt_eval_duration: None,
        total_duration: None,
        load_duration: None,
    };
    let response = session.finish("Rust 2024 is out [1].".into(), "looking".into(), &stats);
    assert_eq!(response.sources.len(), 2);
    assert_eq!(response.sources[0].url, "https://www.rust-lang.org/news");
    assert_eq!(response.eval_count, Some(10));
    assert_eq!(response.generation_details.generation_duration_ms, Some(5));
}

#[test]
fn a_reply_without_text_or_tools_means_tools_are_unsupported() {
    let settings = WebSearchSettings { enabled: true, ..WebSearchSettings::default() };
    let mut session = ResearchSession::new(&settings, 4_096);
    let empty = ModelReply { thinking: None, content: "   ".into(), tool_call_count: 0 };
    assert!(matches!(
        session.on_model_reply(&empty, true, true, "hello"),
        ReplyOutcome::Fail(WebSearchError::ModelToolsUnsupported)
    ));
    let unsearched = ModelReply { thinking: None, content: "An answer.".into(), tool_call_count: 0 };
    assert!(matches!(
        session.on_model_reply(&unsearched, true, true, "Please search the web for this"),
        ReplyOutcome::Fail(WebSearchError::WebSearchNotPerformed)
    ));
}

#[test]
fn tool_evidence_is_collected_once_per_result_and_bounded() {
    let message = |role: &str, content: Option<&str>, tool: Option<&str>| TranscriptMessage {
        role: role.into(),
        content: content.map(str::to_string),
        tool_name: tool.map(str::to_string),
    };
    let messages = vec![
        message("assistant", Some("thinking aloud"), None),
        message("tool", Some(" first result "), Some("web_search")),
        message("tool", Some("first result"), Some("fetch_webpage")),
        message("tool", Some("   "), Some("web_search")),
        message("tool", Some("second"), None),
    ];
    assert_eq!(
        collected_tool_evidence(&messages, 1_000),
        "Result from web_search:\nfirst result\n\nResult from web_tool:\nsecond"
    );
    assert_eq!(collected_tool_evidence(&messages, 16), "Result from web_");
    assert_eq!(collected_tool_evidence(&messages, 0), "");
}

#[test]
fn live_code_blocks_are_lifted_out_of_streaming_markdown() {
    let (masked, blocks) = mask_live_code_blocks("Intro\n```rust\nfn main() {}\n```\nAfter\n");
    assert_eq!(masked, "Intro\n![locoryn live code](locoryn-live-code:0)\n\nAfter\n");
    assert_eq!(
        blocks,
        vec![LiveCodeBlock { language: Some("rust".into()), code: "fn main() {}\n".into() }]
    );
}

#[test]
fn an_unclosed_streaming_fence_still_yields_its_code() {
    let (masked, blocks) = mask_live_code_blocks("Text\n  ~~~~\n  let x = 1;\n    indented\n");
    assert_eq!(masked, "Text\n  ![locoryn live code](locoryn-live-code:0)\n");
    assert_eq!(
        blocks,
        vec![LiveCodeBlock { language: None, code: "let x = 1;\n  indented\n".into() }]
    );
}

#[test]
fn fences_need_three_markers_and_little_indentation() {
    let text = "``not a fence\n    ```indented code\n```py`thon\nplain";
    let (masked, blocks) = mask_live_code_blocks(text);
    assert_eq!(masked, text);
    assert!(blocks.is_empty());
    let (masked, blocks) = mask_live_code_blocks("```a\nx\n```\n```b\ny\n~~~\n");
    assert_eq!(
        masked,
        "![locoryn live code](locoryn-live-code:0)\n\n![locoryn live code](locoryn-live-code:1)\n"
    );
    assert_eq!(blocks.len(), 2);
    assert_eq!(blocks[1].code, "y\n~~~\n");
}

#[test]
fn placeholder_urls_name_their_block() {
    assert_eq!(live_code_placeholder_index("locoryn-live-code:12"), Some(12));
    assert_eq!(live_code_placeholder_index("locoryn-live-code:+3"), Some(3));
    assert_eq!(live_code_placeholder_index("locoryn-live-code:"), None);
    assert_eq!(live_code_placeholder_index("https://example.com/a.png"), None);
}
