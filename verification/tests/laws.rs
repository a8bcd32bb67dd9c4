use std::cmp::Ordering;

use locoryn::profiles::{ensure_legacy_profile, ProfileRegistry};
use locoryn::versions::{compare_versions, version_components};
use locoryn::web_search::guidance::{available_tools, ToolName};
use locoryn::web_search::research::ToolBudget;
use locoryn::tool_settings::ToolSettings;
use locoryn::web_search::WebSearchSettings;

#[test]
fn swapping_versions_reverses_their_order() {
    assert_eq!(compare_versions("1.2", "1.10"), Some(Ordering::Less));
    assert_eq!(compare_versions("1.10", "1.2"), Some(Ordering::Greater));
    assert_eq!(compare_versions("2.0.0-beta", "v2"), Some(Ordering::Equal));
    assert_eq!(version_components(" V1.2+build"), Some(vec![1, 2]));
    assert_eq!(version_components("1..2"), None);
}

#[test]
fn ensuring_the_legacy_profile_twice_changes_nothing_more() {
    let mut registry = ProfileRegistry::default();
    assert!(ensure_legacy_profile(&mut registry));
    assert!(!ensure_legacy_profile(&mut registry));
    assert_eq!(registry.profiles.len(), 1);
}

#[test]
fn exhausted_tools_are_not_offered_to_the_model_again() {
    let settings = WebSearchSettings::default();
    let tools = ToolSettings { code_checking: true, ..ToolSettings::default() };
    let mut budget = ToolBudget::new(&settings);
    assert_eq!(
        available_tools(&settings, &tools, true, &budget),
        vec![ToolName::WebSearch, ToolName::FetchWebpage, ToolName::SearchConversations, ToolName::CheckCode]
    );
    assert!(budget.take_search());
    assert!(budget.take_code_check());
    assert_eq!(
        available_tools(&settings, &tools, true, &budget),
        vec![ToolName::FetchWebpage, ToolName::SearchConversations]
    );
    let off = ToolSettings { enabled: false, ..ToolSettings::default() };
    assert!(available_tools(&settings, &off, true, &budget).is_empty());
}

#[test]
fn version_order_chains_through_a_middle_version() {
    assert_eq!(compare_versions("1.2", "1.9.1"), Some(Ordering::Less));
    assert_eq!(compare_versions("1.9.1", "1.10"), Some(Ordering::Less));
    assert_eq!(compare_versions("1.2", "1.10"), Some(Ordering::Less));
    assert_eq!(compare_versions("3.0", "3"), Some(Ordering::Equal));
    assert_eq!(compare_versions("3", "3.0.0"), Some(Ordering::Equal));
    assert_eq!(compare_versions("3.0", "3.0.0"), Some(Ordering::Equal));
}

#[test]
fn normalizing_settings_twice_changes_nothing_more() {
    let raw = WebSearchSettings {
        api_key: Some("  brave-key  ".into()),
        tavily_api_key: Some("   ".into()),
        result_limit: 0,
        request_timeout_seconds: 600,
        maximum_searches: 1000,
        minimum_successful_searches: 1000,
        custom_research_instructions: "  Prefer primary sources.  ".into(),
        ..WebSearchSettings::default()
    };
    let once = raw.normalized();
    let twice = once.clone().normalized();
    assert_eq!(once.api_key.as_deref(), Some("brave-key"));
    assert_eq!(once.tavily_api_key, None);
    assert_eq!(once.custom_research_instructions, "Prefer primary sources.");
    assert_eq!(twice.api_key, once.api_key);
    assert_eq!(twice.tavily_api_key, once.tavily_api_key);
    assert_eq!(twice.result_limit, once.result_limit);
    assert_eq!(twice.request_timeout_seconds, once.request_timeout_seconds);
    assert_eq!(twice.maximum_searches, once.maximum_searches);
    assert_eq!(twice.minimum_successful_searches, once.minimum_successful_searches);
    assert_eq!(twice.custom_research_instructions, once.custom_research_instructions);
}
