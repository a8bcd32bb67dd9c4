use locoryn::code_checking::{canonical_language, check_report, prepare_code_check, reject_external_source_includes};
use locoryn::conversation_search::{build_excerpt, normalized_query_terms, parse_limit};
use locoryn::tool_settings::ToolSettings;
use locoryn::web_search::arguments::{ArgumentValue, ToolArguments};
use locoryn::web_search::dispatch::{plan_tool_call, ToolCallPlan, CALL_SHAPE, SEARCH_ARGUMENTS};
use locoryn::web_search::WebSearchFreshness;

#[test]
fn disabling_web_for_a_chat_keeps_local_tools_available() {
    let settings = ToolSettings::default().for_chat_web_enabled(false);

    assert!(settings.enabled);
    assert!(!settings.web_search);
    assert!(!settings.fetch_webpage);
    assert!(settings.conversation_search);
    assert!(settings.any_tool_enabled());
    assert!(!settings.web_tools_enabled());
}

#[test]
fn global_tool_switch_remains_authoritative() {
    let settings = ToolSettings {
        enabled: false,
        ..ToolSettings::default()
    }
    .for_chat_web_enabled(true);

    assert!(!settings.any_tool_enabled());
    assert!(!settings.web_tools_enabled());
}

#[test]
fn code_checking_tool_is_disabled_by_default() {
    let settings = ToolSettings::default();

    assert!(!settings.code_checking);
}

#[test]
fn accepts_only_supported_languages() {
    assert_eq!(canonical_language("python3"), Some("Python"));
    assert_eq!(canonical_language("rs"), Some("Rust"));
    assert_eq!(canonical_language("c++"), Some("C++"));
    assert_eq!(canonical_language("csharp"), Some("C#"));
    assert_eq!(canonical_language("javascript"), None);
}

#[test]
fn rejects_source_directives_that_can_read_other_files() {
    assert!(reject_external_source_includes("Rust", "include_str!(\"/etc/passwd\")").is_err());
    assert!(reject_external_source_includes("C", "#include \"../secret.h\"").is_err());
    assert!(reject_external_source_includes("C#", "#load \"secret.csx\"").is_err());
    assert!(reject_external_source_includes("C++", "#include <vector>").is_ok());
}

#[test]
fn code_checks_are_refused_before_running() {
    assert_eq!(
        prepare_code_check("JavaScript", "1").unwrap_err(),
        "Code checking supports Python, Rust, C, C++, and C#."
    );
    assert_eq!(prepare_code_check(" Py ", "print(1)").unwrap(), "Python");
    assert!(prepare_code_check("rust", &"x".repeat(524_289)).is_err());
    assert!(prepare_code_check("rust", "#[path = \"x.rs\"] mod x;").is_err());
}

#[test]
fn check_reports_say_what_happened() {
    assert_eq!(check_report("Rust", true, "  ").unwrap(), "Rust check passed with no errors.");
    assert_eq!(check_report("C", true, " warning \n").unwrap(), "C check passed:\nwarning");
    assert_eq!(check_report("C", false, "").unwrap_err(), "C check found errors.");
    assert_eq!(check_report("C", false, "bad").unwrap_err(), "C check found errors:\nbad");
}

fn limit_arguments(value: Option<ArgumentValue>) -> ToolArguments {
    ToolArguments {
        entries: value.into_iter().map(|v| ("limit".to_string(), v)).collect(),
    }
}

#[test]
fn parse_limit_defaults_to_five() {
    assert_eq!(parse_limit(&limit_arguments(None)), 5);
}

#[test]
fn parse_limit_clamps_to_valid_range() {
    assert_eq!(parse_limit(&limit_arguments(Some(ArgumentValue::Unsigned(3)))), 3);
    assert_eq!(parse_limit(&limit_arguments(Some(ArgumentValue::Unsigned(0)))), 5);
    assert_eq!(parse_limit(&limit_arguments(Some(ArgumentValue::Unsigned(25)))), 5);
    assert_eq!(parse_limit(&limit_arguments(Some(ArgumentValue::Unsigned(20)))), 20);
}

#[test]
fn build_excerpt_centers_on_match() {
    let text = "short text";
    let excerpt = build_excerpt(text, &["text"], 300);
    assert!(excerpt.contains("text"));
}

#[test]
fn build_excerpt_truncates_long_text() {
    let text = "a".repeat(1000);
    let needle = "a".repeat(1000);
    let excerpt = build_excerpt(&text, &[needle.as_str()], 100);
    assert!(excerpt.chars().count() <= 101);
}

#[test]
fn excerpts_are_centred_with_ellipses() {
    let text = format!("{}Lighthouse{}", "x".repeat(50), "y".repeat(50));
    let excerpt = build_excerpt(&text, &["lighthouse"], 20);
    assert_eq!(excerpt, format!("…{}Lighthouse{}…", "x".repeat(5), "y".repeat(5)));
    assert_eq!(build_excerpt("abcdef", &["zzz"], 3), "abc");
}

#[test]
fn query_terms_drop_filler_and_repeats() {
    assert_eq!(
        normalized_query_terms("What did we discuss about Lighthouse deployment?"),
        vec!["lighthouse".to_string(), "deployment".to_string()]
    );
    assert!(normalized_query_terms("What did we discuss before?").is_empty());
    assert_eq!(
        normalized_query_terms("alpha beta alpha gamma delta epsilon zeta"),
        vec!["alpha", "beta", "gamma", "delta", "epsilon"]
    );
}

fn tool_args(entries: &[(&str, ArgumentValue)]) -> ToolArguments {
    ToolArguments {
        entries: entries.iter().map(|(k, v)| (k.to_string(), v.clone())).collect(),
    }
}

#[test]
fn malformed_tool_calls_get_an_instruction_and_valid_ones_a_plan() {
    match plan_tool_call(None, None, 5) {
        ToolCallPlan::Invalid { tool_name, instruction } => {
            assert_eq!(tool_name, "unknown");
            assert_eq!(instruction, CALL_SHAPE);
        }
        other => panic!("unexpected {other:?}"),
    }
    assert!(matches!(
        plan_tool_call(Some("web_search"), None, 5),
        ToolCallPlan::Invalid { ref tool_name, .. } if tool_name == "web_search"
    ));
    let search = tool_args(&[
        ("query", ArgumentValue::Text("  rust verus ".into())),
        ("result_count", ArgumentValue::Unsigned(3)),
        ("freshness", ArgumentValue::Text("week".into())),
    ]);
    match plan_tool_call(Some("web_search"), Some(&search), 5) {
        ToolCallPlan::Search { query, result_count, freshness } => {
            assert_eq!(query, "rust verus");
            assert_eq!(result_count, 3);
            assert_eq!(freshness, WebSearchFreshness::Week);
        }
        other => panic!("unexpected {other:?}"),
    }
    let too_many = tool_args(&[
        ("query", ArgumentValue::Text("rust".into())),
        ("result_count", ArgumentValue::Unsigned(9)),
    ]);
    assert!(matches!(
        plan_tool_call(Some("web_search"), Some(&too_many), 5),
        ToolCallPlan::Invalid { instruction, .. } if instruction == SEARCH_ARGUMENTS
    ));
    let conversations = tool_args(&[("query", ArgumentValue::Text("trip".into()))]);
    assert!(matches!(
        plan_tool_call(Some("search_locoryn_conversations"), Some(&conversations), 5),
        ToolCallPlan::SearchConversations { ref query, limit: 5 } if query == "trip"
    ));
    assert!(matches!(plan_tool_call(Some("draw"), Some(&conversations), 5), ToolCallPlan::Unknown));
}
