use locoryn::thinking::{model_capabilities, sorted_thinking_levels, ModelDetails, ThinkingLevel};

fn details(capabilities: &[&str], reported: &[&str], renderer: &str, template: &str) -> ModelDetails {
    ModelDetails {
        capabilities: Some(capabilities.iter().map(|c| c.to_string()).collect()),
        reported_levels: reported.iter().map(|c| c.to_string()).collect(),
        renderer: renderer.to_string(),
        parser: String::new(),
        family: String::new(),
        template: template.to_string(),
    }
}

#[test]
fn reads_vision_capabilities() {
    let capabilities = model_capabilities(&details(&["completion", "thinking", "vision"], &[], "", "")).unwrap();
    assert_eq!(capabilities.thinking_levels, vec![ThinkingLevel::Off, ThinkingLevel::On]);
    assert!(capabilities.vision);
}

#[test]
fn detects_model_specific_reasoning_efforts() {
    let reported = details(&["completion", "thinking"], &["none", "minimal", "low", "high", "max"], "", "");
    assert_eq!(
        model_capabilities(&reported).unwrap().thinking_levels,
        vec![
            ThinkingLevel::Off,
            ThinkingLevel::Minimal,
            ThinkingLevel::Low,
            ThinkingLevel::High,
            ThinkingLevel::Max,
        ]
    );

    let harmony = details(&["completion", "thinking"], &[], "harmony", "");
    assert_eq!(
        model_capabilities(&harmony).unwrap().thinking_levels,
        vec![ThinkingLevel::Low, ThinkingLevel::Medium, ThinkingLevel::High]
    );
}

#[test]
fn template_levels_and_non_thinking_models() {
    let templated = details(&["thinking"], &[], "", r#"{{ if .ThinkLevel }} "LOW" or 'high' {{ end }}"#);
    assert_eq!(
        model_capabilities(&templated).unwrap().thinking_levels,
        vec![ThinkingLevel::Low, ThinkingLevel::High]
    );
    let plain = details(&["completion"], &["high"], "", "");
    let capabilities = model_capabilities(&plain).unwrap();
    assert_eq!(capabilities.thinking_levels, vec![ThinkingLevel::Off]);
    assert!(!capabilities.vision);
    let mut none = plain.clone();
    none.capabilities = None;
    assert_eq!(model_capabilities(&none), None);
}

#[test]
fn thinking_levels_are_sorted_and_deduplicated() {
    assert_eq!(
        sorted_thinking_levels(vec![ThinkingLevel::Max, ThinkingLevel::Off, ThinkingLevel::Max, ThinkingLevel::Low]),
        vec![ThinkingLevel::Off, ThinkingLevel::Low, ThinkingLevel::Max]
    );
    assert_eq!(ThinkingLevel::from_api_name("none"), Some(ThinkingLevel::Off));
    assert_eq!(ThinkingLevel::from_api_name("ultra"), None);
}
