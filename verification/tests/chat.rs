use std::cmp::Ordering;

use locoryn::chat::{
    conversation_context_prompt, disabled_web_tool_message, normalize_code_fence_languages,
    split_thinking_text,
};
use locoryn::code_checking::canonical_language as canonical_code_language;
use locoryn::profiles::{
    assign_legacy_profile_ids, chat_profile_id, ensure_legacy_profile, Profile, ProfileRegistry,
    SavedChat, LEGACY_PROFILE_ID,
};
use locoryn::versions::compare_versions;
use locoryn::chat_list::{delete_profile, newest_chat_of_profile, toggle_chat_pin, ProfileDeleteError};

fn test_saved_chat(id: &str, profile: &str, updated_at: &str) -> SavedChat {
    SavedChat {
        id: id.to_string(),
        title: format!("{id} title"),
        updated_at: updated_at.to_string(),
        profile: Some(profile.to_string()),
        messages: Vec::new(),
        pinned: false,
        web_search_enabled: None,
    }
}

#[test]
fn update_versions_compare_numerically_and_accept_v_prefixes() {
    assert_eq!(
        compare_versions("v0.10.0", "0.9.9"),
        Some(Ordering::Greater)
    );
    assert_eq!(
        compare_versions("0.6", "v0.6.0"),
        Some(Ordering::Equal)
    );
    assert_eq!(compare_versions("not-a-version", "0.6.0"), None);
}

#[test]
fn code_checker_recognizes_only_supported_fence_languages() {
    assert_eq!(canonical_code_language("python3"), Some("Python"));
    assert_eq!(canonical_code_language("rs"), Some("Rust"));
    assert_eq!(canonical_code_language("c++"), Some("C++"));
    assert_eq!(canonical_code_language("csharp"), Some("C#"));
    assert_eq!(canonical_code_language("javascript"), None);
}

#[test]
fn separates_thinking_from_answer() {
    assert_eq!(
        split_thinking_text("<think>work it out</think>The answer."),
        ("work it out".into(), "The answer.".into())
    );
}

#[test]
fn combines_streamed_thinking_blocks() {
    assert_eq!(
        split_thinking_text("<think>first </think><think>second</think>Done"),
        ("first second".into(), "Done".into())
    );
}

#[test]
fn hides_unclosed_streaming_thinking() {
    assert_eq!(
        split_thinking_text("Intro<think>still reasoning"),
        ("still reasoning".into(), "Intro".into())
    );
}

#[test]
fn explains_disabled_model_web_tool_attempts() {
    assert!(
        disabled_web_tool_message(r#"{"tool":"web_search","arguments":{"query":"today"}}"#)
            .is_some()
    );
    assert!(disabled_web_tool_message("A normal answer about web search.").is_none());
}

#[test]
fn normalizes_common_code_fence_language_aliases_without_touching_code() {
    let input = "```csharp\nlet marker = \"```csharp\";\n```\n~~~cplusplus\nint main() {}\n~~~";
    let normalized = normalize_code_fence_languages(input);
    assert_eq!(
        normalized,
        "```cs\nlet marker = \"```csharp\";\n```\n~~~cpp\nint main() {}\n~~~"
    );
}

#[test]
fn profiled_chats_keep_their_profile_during_migration() {
    let mut chats = vec![test_saved_chat(
        "chat-1",
        "profile-9",
        "2026-01-01T00:00:00Z",
    )];

    let changed = assign_legacy_profile_ids(&mut chats);

    assert!(!changed);
    assert_eq!(chats[0].profile.as_deref(), Some("profile-9"));
}

#[test]
fn pre_profile_chats_are_adopted_by_the_outdated_profile() {
    let mut chats = vec![test_saved_chat("chat-1", "profile-9", "2026-01-01T00:00:00Z")];
    chats[0].profile = None;
    assert_eq!(chat_profile_id(&chats[0]), LEGACY_PROFILE_ID);

    assert!(assign_legacy_profile_ids(&mut chats));
    assert_eq!(chats[0].profile.as_deref(), Some(LEGACY_PROFILE_ID));
    assert_eq!(chat_profile_id(&chats[0]), LEGACY_PROFILE_ID);
    assert!(!assign_legacy_profile_ids(&mut chats));
}

#[test]
fn empty_registry_gains_the_outdated_profile_and_selects_it() {
    let mut registry = ProfileRegistry::default();

    let changed = ensure_legacy_profile(&mut registry);

    assert!(changed);
    assert_eq!(registry.profiles.len(), 1);
    assert_eq!(registry.profiles[0].id, LEGACY_PROFILE_ID);
    assert_eq!(registry.profiles[0].name, "Outdated Profile");
    assert_eq!(registry.active_profile_id, LEGACY_PROFILE_ID);
}

#[test]
fn migration_keeps_a_valid_active_profile_selected() {
    let mut registry = ProfileRegistry {
        profiles: vec![
            Profile {
                id: LEGACY_PROFILE_ID.into(),
                name: "Outdated Profile".into(),
                user_name: String::new(),
                custom_instructions: String::new(),
            },
            Profile {
                id: "profile-1".into(),
                name: "Logan".into(),
                user_name: String::new(),
                custom_instructions: String::new(),
            },
        ],
        active_profile_id: "profile-1".into(),
    };

    let changed = ensure_legacy_profile(&mut registry);

    assert!(!changed);
    assert_eq!(registry.active_profile_id, "profile-1");
}

#[test]
fn conversation_context_names_the_user_the_profile_provides() {
    let prompt = conversation_context_prompt("User: Hello there", "Logan", "What is my name?");

    assert!(prompt.contains(
        "a conversation between an AI language model and Logan. You are the AI language model:"
    ));
    assert!(prompt.contains("User: Hello there"));
    assert!(prompt.contains("What is my name?"));
}

#[test]
fn conversation_context_falls_back_to_anonymous_user_without_a_name() {
    let prompt = conversation_context_prompt("User: Hello there", "   ", "Hi");

    assert!(prompt.contains(
        "a conversation between an AI language model and a User. You are the AI language model:"
    ));
}

fn profile(id: &str, name: &str) -> Profile {
    Profile {
        id: id.into(),
        name: name.into(),
        user_name: String::new(),
        custom_instructions: String::new(),
    }
}

fn chat_ids(chats: &[SavedChat]) -> Vec<&str> {
    chats.iter().map(|chat| chat.id.as_str()).collect()
}

#[test]
fn pinning_moves_a_chat_to_the_pinned_section() {
    let mut saved_chats = vec![
        test_saved_chat("chat-a", "profile-1", "2026-01-03T00:00:00Z"),
        test_saved_chat("chat-b", "profile-1", "2026-01-02T00:00:00Z"),
        test_saved_chat("chat-c", "profile-1", "2026-01-01T00:00:00Z"),
    ];

    assert!(toggle_chat_pin(&mut saved_chats, "chat-c"));

    assert_eq!(chat_ids(&saved_chats), vec!["chat-c", "chat-a", "chat-b"]);
    assert!(saved_chats[0].pinned);
}

#[test]
fn unpinning_returns_a_chat_to_its_place_in_time() {
    let mut saved_chats = vec![
        test_saved_chat("chat-b", "profile-1", "2026-01-02T00:00:00Z"),
        test_saved_chat("chat-a", "profile-1", "2026-01-03T00:00:00Z"),
        test_saved_chat("chat-c", "profile-1", "2026-01-01T00:00:00Z"),
    ];
    saved_chats[0].pinned = true;

    // chat-b is pinned at the top; unpinning should slot it back by its
    // updated_at (2026-01-02) between chat-a (01-03) and chat-c (01-01).
    assert!(toggle_chat_pin(&mut saved_chats, "chat-b"));

    assert_eq!(chat_ids(&saved_chats), vec!["chat-a", "chat-b", "chat-c"]);
    assert!(saved_chats.iter().all(|chat| !chat.pinned));
}

#[test]
fn second_pin_stacks_after_the_first_and_unknown_ids_change_nothing() {
    let mut saved_chats = vec![
        test_saved_chat("chat-a", "profile-1", "2026-01-03T00:00:00Z"),
        test_saved_chat("chat-b", "profile-1", "2026-01-02T00:00:00Z"),
        test_saved_chat("chat-c", "profile-1", "2026-01-01T00:00:00Z"),
    ];
    assert!(toggle_chat_pin(&mut saved_chats, "chat-b"));
    assert!(toggle_chat_pin(&mut saved_chats, "chat-c"));
    assert_eq!(chat_ids(&saved_chats), vec!["chat-b", "chat-c", "chat-a"]);
    assert!(!toggle_chat_pin(&mut saved_chats, "chat-z"));
    assert_eq!(chat_ids(&saved_chats), vec!["chat-b", "chat-c", "chat-a"]);
    // Unpinning the oldest chat sends it to the end of the list.
    assert!(toggle_chat_pin(&mut saved_chats, "chat-c"));
    assert_eq!(chat_ids(&saved_chats), vec!["chat-b", "chat-a", "chat-c"]);
}

#[test]
fn switching_profiles_opens_that_profiles_newest_chat() {
    let saved_chats = vec![
        test_saved_chat("chat-legacy", LEGACY_PROFILE_ID, "2026-01-03T00:00:00Z"),
        test_saved_chat("chat-b", "profile-1", "2026-01-02T00:00:00Z"),
        test_saved_chat("chat-a", "profile-1", "2026-01-01T00:00:00Z"),
    ];

    let newest = newest_chat_of_profile(&saved_chats, "profile-1").unwrap();
    assert_eq!(saved_chats[newest].id, "chat-b");
}

#[test]
fn switching_to_an_empty_profile_starts_a_fresh_chat() {
    let saved_chats = vec![test_saved_chat(
        "chat-legacy",
        LEGACY_PROFILE_ID,
        "2026-01-03T00:00:00Z",
    )];

    assert_eq!(newest_chat_of_profile(&saved_chats, "profile-1"), None);
}

#[test]
fn profiles_with_chats_cannot_be_deleted() {
    let mut registry = ProfileRegistry {
        profiles: vec![profile(LEGACY_PROFILE_ID, "Outdated Profile"), profile("profile-1", "Logan")],
        active_profile_id: LEGACY_PROFILE_ID.to_string(),
    };
    let mut saved_chats = vec![test_saved_chat("chat-1", "profile-1", "2026-01-01T00:00:00Z")];

    assert_eq!(
        delete_profile(&mut registry, &saved_chats, &Vec::new(), "profile-1"),
        Err(ProfileDeleteError::StillHasChats)
    );
    assert!(registry.profiles.iter().any(|profile| profile.id == "profile-1"));

    // The active profile is protected as well.
    assert_eq!(
        delete_profile(&mut registry, &saved_chats, &Vec::new(), LEGACY_PROFILE_ID),
        Err(ProfileDeleteError::ActiveProfile)
    );
    assert!(registry.profiles.iter().any(|profile| profile.id == LEGACY_PROFILE_ID));

    // A running prompt or temporary chat of the profile keeps it too.
    saved_chats.clear();
    assert_eq!(
        delete_profile(&mut registry, &saved_chats, &vec!["profile-1".to_string()], "profile-1"),
        Err(ProfileDeleteError::StillHasChats)
    );
    assert_eq!(
        ProfileDeleteError::StillHasChats.message(),
        "That profile still has chats. Delete them first."
    );

    assert_eq!(delete_profile(&mut registry, &saved_chats, &Vec::new(), "profile-1"), Ok(()));
    assert!(registry.profiles.iter().all(|profile| profile.id != "profile-1"));
    assert_eq!(registry.profiles.len(), 1);
}
