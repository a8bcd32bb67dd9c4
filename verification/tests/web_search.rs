use locoryn::tool_settings::ToolSettings;
use locoryn::web_search::fetch::{html_title, html_to_text};
use locoryn::web_search::guidance::{tool_loop_guidance, web_tool_descriptions};
use locoryn::web_search::providers::{
    create_search_provider, parse_brave_results, parse_exa_results, parse_tavily_results,
    BraveResponse, BraveResult, BraveWebResults, ExaResponse, ExaResult, TavilyResponse,
    TavilyResult,
};
use locoryn::web_search::research::{
    add_source, explicitly_requests_web_search, is_context_length_error,
    is_tools_unsupported_error, normalize_search_query, normalized_host,
    normalized_url_for_dedup, page_text_limit, registrable_domain, research_checkpoint,
    ToolBudget,
};
use locoryn::web_search::{
    WebSearchError, WebSearchProviderKind, WebSearchResult, WebSearchSettings, WebSource,
    CONVERSATION_SEARCHES_PER_MESSAGE, DEFAULT_MAX_PAGES_PER_MESSAGE,
    DEFAULT_MAX_SEARCHES_PER_MESSAGE, DEFAULT_PAGES_PER_MESSAGE, DEFAULT_SEARCHES_PER_MESSAGE,
    MAX_CONFIGURABLE_TOOL_ITERATIONS, MAX_CUSTOM_RESEARCH_INSTRUCTIONS_CHARS, MAX_PAGE_TEXT_CHARS,
    MAX_STALLED_RESEARCH_REMINDERS, MAX_TOOL_ITERATIONS,
};

#[test]
fn configurable_research_limits_are_normalized_together() {
    let settings = WebSearchSettings {
        maximum_searches: 2,
        maximum_page_fetches: 1,
        minimum_successful_searches: 99,
        minimum_independent_pages: 99,
        tool_iteration_limit: usize::MAX,
        request_timeout_seconds: 1,
        custom_research_instructions: format!(
            "  {}  ",
            "x".repeat(MAX_CUSTOM_RESEARCH_INSTRUCTIONS_CHARS + 50)
        ),
        ..WebSearchSettings::default()
    }
    .normalized();

    assert_eq!(settings.minimum_successful_searches, 2);
    assert_eq!(settings.minimum_independent_pages, 1);
    assert_eq!(
        settings.tool_iteration_limit,
        MAX_CONFIGURABLE_TOOL_ITERATIONS
    );
    assert_eq!(settings.request_timeout_seconds, 3);
    assert_eq!(
        settings.custom_research_instructions.chars().count(),
        MAX_CUSTOM_RESEARCH_INSTRUCTIONS_CHARS
    );
}

#[test]
fn api_keys_are_redacted_from_diagnostics() {
    let error = WebSearchError::ProviderUnavailable("bad key secret-123".into());
    assert_eq!(
        error.diagnostic(Some("secret-123")),
        "provider unavailable: bad key <redacted>"
    );
    assert!(
        error
            .detailed_user_message(Some("secret-123"))
            .contains("bad key <redacted>")
    );
}

#[test]
fn inference_errors_distinguish_tool_support_from_context_overflow() {
    assert!(is_tools_unsupported_error(
        "Tool parser is not configured for this model"
    ));
    assert!(!is_tools_unsupported_error(
        "A tool returned an ordinary provider error"
    ));
    assert!(is_context_length_error(
        "LLMExecutor failed: Input length exceeds the maximum allowed length"
    ));
    assert!(!is_context_length_error(
        "temporary inference connection error"
    ));
    assert!(explicitly_requests_web_search(
        "Using web search, find the latest release"
    ));
    assert!(explicitly_requests_web_search(
        "Please search the web for this"
    ));
    assert!(!explicitly_requests_web_search(
        "Explain what a binary search is"
    ));
}

#[test]
fn parses_successful_mocked_search_and_provider_failure() {
    let body = BraveResponse {
        web: Some(BraveWebResults {
            results: vec![BraveResult {
                title: "Example".into(),
                url: "https://example.com/page".into(),
                description: "A result".into(),
            }],
        }),
    };
    let results = parse_brave_results(body, 3).unwrap();
    assert_eq!(results[0].title, "Example");
    assert!(matches!(
        locoryn::web_search::fetch::map_status(503),
        Err(WebSearchError::ProviderUnavailable(_))
    ));
}

#[test]
fn parses_experimental_provider_results() {
    let tavily = TavilyResponse {
        results: vec![TavilyResult {
            title: "Tavily result".into(),
            url: "https://example.com/tavily".into(),
            content: "Relevant Tavily content".into(),
        }],
    };
    assert_eq!(
        parse_tavily_results(tavily, 5).unwrap()[0],
        WebSearchResult {
            title: "Tavily result".into(),
            url: "https://example.com/tavily".into(),
            snippet: "Relevant Tavily content".into(),
        }
    );

    let exa = ExaResponse {
        results: vec![ExaResult {
            title: Some("Exa result".into()),
            url: "https://example.com/exa".into(),
            highlights: vec!["First excerpt".into(), "Second excerpt".into()],
            text: String::new(),
            summary: String::new(),
        }],
    };
    assert_eq!(
        parse_exa_results(exa, 5).unwrap()[0].snippet,
        "First excerpt [...] Second excerpt"
    );
}

#[test]
fn source_numbers_are_stable_and_deduplicated() {
    let mut sources = Vec::new();
    assert_eq!(
        add_source(&mut sources, "First".into(), "https://example.com".into()),
        1
    );
    assert_eq!(
        add_source(&mut sources, "Updated".into(), "https://example.com".into()),
        1
    );
    assert_eq!(sources.len(), 1);
}

#[test]
fn strips_scripts_and_markup_from_webpages() {
    let html = r#"<html><head><title>Example &amp; Test</title><script>steal()</script></head><body><h1>Hello</h1><style>body{display:none}</style><p>World</p></body></html>"#;
    assert_eq!(html_title(html).as_deref(), Some("Example & Test"));
    let text = html_to_text(html);
    assert!(text.contains("Hello"));
    assert!(text.contains("World"));
    assert!(!text.contains("steal"));
    assert!(!text.contains("display:none"));
}

#[test]
fn tool_limits_are_bounded() {
    let single_settings = WebSearchSettings::default();
    let mut single_search_budget = ToolBudget::new(&single_settings);
    for _ in 0..(DEFAULT_SEARCHES_PER_MESSAGE
        + DEFAULT_PAGES_PER_MESSAGE
        + MAX_STALLED_RESEARCH_REMINDERS
        + 1)
    {
        assert!(single_search_budget.take_iteration());
    }
    assert!(!single_search_budget.take_iteration());
    assert!(single_search_budget.take_search());
    assert!(!single_search_budget.take_search());
    assert!(single_search_budget.take_code_check());
    assert!(!single_search_budget.take_code_check());
    for _ in 0..CONVERSATION_SEARCHES_PER_MESSAGE {
        assert!(single_search_budget.take_conversation_search());
    }
    assert!(!single_search_budget.take_conversation_search());

    let multiple_settings = WebSearchSettings {
        allow_multiple_searches: true,
        ..WebSearchSettings::default()
    };
    let mut multiple_search_budget = ToolBudget::new(&multiple_settings);
    for _ in 0..MAX_TOOL_ITERATIONS {
        assert!(multiple_search_budget.take_iteration());
    }
    assert!(!multiple_search_budget.take_iteration());
    for _ in 0..DEFAULT_MAX_SEARCHES_PER_MESSAGE {
        assert!(multiple_search_budget.take_search());
    }
    assert!(!multiple_search_budget.take_search());
    for _ in 0..DEFAULT_MAX_PAGES_PER_MESSAGE {
        assert!(multiple_search_budget.take_page());
    }
    assert!(!multiple_search_budget.take_page());
}

#[test]
fn tool_guidance_matches_the_repeated_search_setting() {
    let single_settings = WebSearchSettings::default();
    let research_settings = WebSearchSettings {
        allow_multiple_searches: true,
        custom_research_instructions: "Prefer standards documents.".into(),
        ..WebSearchSettings::default()
    };
    let tool_settings = ToolSettings::default();
    let single_guidance = tool_loop_guidance(&single_settings, &tool_settings, false, "2026-07-26");
    let research_guidance =
        tool_loop_guidance(&research_settings, &tool_settings, false, "2026-07-26");
    assert!(single_guidance.contains("at most once"));
    assert!(single_guidance.contains("2026-07-26"));
    assert!(research_guidance.contains("Run 3 to 6"));
    assert!(research_guidance.contains("at least 2 independent"));
    assert!(research_guidance.contains("Prefer standards documents."));
    assert!(single_guidance.contains("1-5 distinctive"));
    assert!(single_guidance.contains("not a question or instruction"));

    let single_search_tools = web_tool_descriptions(&single_settings);
    let repeated_search_tools = web_tool_descriptions(&research_settings);
    assert!(single_search_tools.search_description.contains("once"));
    assert!(repeated_search_tools.search_description.contains("3 to 6"));
    assert_eq!(repeated_search_tools.result_count_maximum, 5);
}

#[test]
fn page_excerpt_budget_scales_with_context_but_stays_bounded() {
    assert_eq!(page_text_limit(4_096, 6), 2_000);
    assert_eq!(page_text_limit(1_000_000, 6), MAX_PAGE_TEXT_CHARS);
}

#[test]
fn research_checkpoint_only_activates_after_web_research_starts() {
    let settings = WebSearchSettings {
        allow_multiple_searches: true,
        ..WebSearchSettings::default()
    };
    let mut budget = ToolBudget::new(&settings);
    assert!(research_checkpoint(&budget, 0, &[], &[], &settings).is_none());

    assert!(budget.take_search());
    let checkpoint = research_checkpoint(&budget, 0, &[], &[], &settings).unwrap();
    assert!(checkpoint.contains("3 more targeted"));
}

#[test]
fn repeated_search_queries_are_compared_case_and_whitespace_insensitively() {
    assert_eq!(
        normalize_search_query("  Rust   Iced\nGUI "),
        normalize_search_query("rust iced gui")
    );
    assert_ne!(
        normalize_search_query("rust iced gui"),
        normalize_search_query("rust iced tutorial")
    );
}

#[test]
fn normalized_host_strips_www_and_uses_registrable_domain() {
    assert_eq!(
        normalized_host("https://www.example.com/page").as_deref(),
        Some("example.com")
    );
    assert_eq!(
        normalized_host("https://blog.example.com/post").as_deref(),
        Some("example.com")
    );
    assert_eq!(
        normalized_host("https://docs.example.com/reference").as_deref(),
        Some("example.com")
    );
    assert_eq!(
        normalized_host("https://sub.domain.example.com/page").as_deref(),
        Some("example.com")
    );
}

#[test]
fn normalized_host_handles_multi_part_tlds() {
    assert_eq!(
        normalized_host("https://www.example.co.uk/page").as_deref(),
        Some("example.co.uk")
    );
    assert_eq!(
        normalized_host("https://blog.example.co.uk/post").as_deref(),
        Some("example.co.uk")
    );
    assert_eq!(
        normalized_host("https://www.example.com.au/page").as_deref(),
        Some("example.com.au")
    );
    assert_eq!(
        normalized_host("https://www.example.co.jp/page").as_deref(),
        Some("example.co.jp")
    );
}

#[test]
fn normalized_host_handles_single_label() {
    assert_eq!(
        normalized_host("https://localhost/page").as_deref(),
        Some("localhost")
    );
}

#[test]
fn normalized_url_strips_tracking_params_and_fragments() {
    let a = normalized_url_for_dedup("https://example.com/page?utm_source=twitter&id=42");
    let b = normalized_url_for_dedup("https://example.com/page?utm_source=facebook&id=42");
    assert_eq!(a, b);
    let resolved = a.unwrap();
    assert!(resolved.contains("id=42"));
    assert!(!resolved.contains("utm_source"));
}

#[test]
fn normalized_url_strips_fragments() {
    let a = normalized_url_for_dedup("https://example.com/page#section1");
    let b = normalized_url_for_dedup("https://example.com/page#section2");
    assert_eq!(a, b);
}

#[test]
fn normalized_url_strips_gclid_and_fbclid() {
    let a = normalized_url_for_dedup("https://example.com/page?fbclid=abc&id=1");
    let b = normalized_url_for_dedup("https://example.com/page?gclid=xyz&id=1");
    assert_eq!(a, b);
    assert!(a.unwrap().contains("id=1"));
}

#[test]
fn source_dedup_uses_normalized_urls() {
    let mut sources: Vec<WebSource> = Vec::new();
    let idx1 = add_source(
        &mut sources,
        "Title".into(),
        "https://example.com/page?utm_source=a".into(),
    );
    let idx2 = add_source(
        &mut sources,
        "Title".into(),
        "https://example.com/page?utm_source=b".into(),
    );
    assert_eq!(idx1, idx2);
    assert_eq!(sources.len(), 1);
}

#[test]
fn source_dedup_still_allows_different_paths() {
    let mut sources: Vec<WebSource> = Vec::new();
    let idx1 = add_source(
        &mut sources,
        "Page A".into(),
        "https://example.com/page-a".into(),
    );
    let idx2 = add_source(
        &mut sources,
        "Page B".into(),
        "https://example.com/page-b".into(),
    );
    assert_ne!(idx1, idx2);
    assert_eq!(sources.len(), 2);
}

#[test]
fn html_to_text_strips_nav_footer_header_aside() {
    let html = "<html><body><nav>Navigation links</nav><main>Article content</main><footer>Copyright</footer></body></html>";
    let text = html_to_text(html);
    assert!(!text.contains("Navigation"));
    assert!(text.contains("Article content"));
    assert!(!text.contains("Copyright"));
}

#[test]
fn html_to_text_strips_hidden_elements() {
    let html = "<html><body><div>Visible</div><div hidden>Hidden content</div></body></html>";
    let text = html_to_text(html);
    assert!(text.contains("Visible"));
    assert!(!text.contains("Hidden content"));
}

#[test]
fn html_to_text_strips_display_none_elements() {
    let html =
        "<html><body><div>Visible</div><div style=\"display:none\">Invisible</div></body></html>";
    let text = html_to_text(html);
    assert!(text.contains("Visible"));
    assert!(!text.contains("Invisible"));
}

#[test]
fn html_to_text_strips_visibility_hidden() {
    let html = "<html><body><div>Visible</div><div style=\"visibility:hidden\">Invisible</div></body></html>";
    let text = html_to_text(html);
    assert!(text.contains("Visible"));
    assert!(!text.contains("Invisible"));
}

#[test]
fn html_to_text_strips_banner_role() {
    let html =
        "<html><body><div role=\"banner\">Cookie banner</div><main>Content</main></body></html>";
    let text = html_to_text(html);
    assert!(!text.contains("Cookie banner"));
    assert!(text.contains("Content"));
}

#[test]
fn html_to_text_strips_script_and_style() {
    let html = "<html><head><style>body { color: red; }</style></head><body><script>console.log('hi');</script><p>Hello</p></body></html>";
    let text = html_to_text(html);
    assert!(!text.contains("color: red"));
    assert!(!text.contains("console.log"));
    assert!(text.contains("Hello"));
}

#[test]
fn budget_refund_search_does_not_underflow() {
    let settings = WebSearchSettings {
        allow_multiple_searches: true,
        maximum_searches: 3,
        maximum_page_fetches: 5,
        ..Default::default()
    };
    let mut budget = ToolBudget::new(&settings);
    assert!(budget.take_search());
    assert!(budget.take_search());
    budget.refund_search();
    budget.refund_search(); // Should not underflow
    assert_eq!(budget.searches, 0);
}

#[test]
fn budget_refund_page_does_not_underflow() {
    let settings = WebSearchSettings {
        allow_multiple_searches: true,
        maximum_searches: 3,
        maximum_page_fetches: 5,
        ..Default::default()
    };
    let mut budget = ToolBudget::new(&settings);
    assert!(budget.take_page());
    budget.refund_page();
    budget.refund_page(); // Should not underflow
    assert_eq!(budget.pages, 0);
}

#[test]
fn provider_settings_are_normalized_on_creation() {
    let settings = WebSearchSettings {
        enabled: true,
        allow_multiple_searches: false,
        provider: WebSearchProviderKind::Brave,
        api_key: Some("sk-test".into()),
        tavily_api_key: None,
        exa_api_key: None,
        result_limit: 0,
        request_timeout_seconds: 0,
        maximum_searches: 0,
        maximum_page_fetches: 0,
        minimum_successful_searches: 0,
        minimum_independent_pages: 0,
        tool_iteration_limit: 0,
        custom_research_instructions: String::new(),
    };
    let provider = create_search_provider(&settings, None);
    // The provider should be created successfully with normalized settings
    // (timeout 0 gets clamped to 3, search/page limit 0 gets clamped to 1)
    assert!(provider.is_ok());
}

#[test]
fn registrable_domain_handles_known_multi_part_tlds() {
    assert_eq!(registrable_domain("www.example.co.uk"), "example.co.uk");
    assert_eq!(registrable_domain("blog.example.com.au"), "example.com.au");
    assert_eq!(registrable_domain("sub.example.co.jp"), "example.co.jp");
    assert_eq!(registrable_domain("example.co.nz"), "example.co.nz");
}

#[test]
fn registrable_domain_falls_back_to_last_two_labels() {
    assert_eq!(registrable_domain("www.example.com"), "example.com");
    assert_eq!(registrable_domain("blog.example.org"), "example.org");
    assert_eq!(registrable_domain("deep.sub.example.io"), "example.io");
}

#[test]
fn registrable_domain_handles_single_label() {
    assert_eq!(registrable_domain("localhost"), "localhost");
    assert_eq!(registrable_domain("myhost"), "myhost");
}
