use locoryn::conversation_search::{
    search_conversations, ConversationSearchStatus, MAX_EXCERPTS_PER_CONVERSATION,
};
use locoryn::profiles::{SavedChat, SavedMessage};

fn message(role: &str, text: &str) -> SavedMessage {
    SavedMessage { role: role.into(), text: text.into() }
}

fn chat(id: &str, title: &str, updated_at: &str, messages: Vec<SavedMessage>) -> SavedChat {
    SavedChat {
        id: id.into(),
        title: title.into(),
        updated_at: updated_at.into(),
        profile: None,
        messages,
        pinned: false,
        web_search_enabled: None,
    }
}

#[test]
fn search_finds_matching_conversations() {
    let chats = vec![
        chat("1", "Rust discussion", "2025-01-01T00:00:00Z", vec![
            message("user", "Tell me about Rust"),
            message("bot", "Rust is a systems programming language"),
        ]),
        chat("2", "Python chat", "2025-01-02T00:00:00Z", vec![
            message("user", "How about Python?"),
            message("bot", "Python is great for scripting"),
        ]),
    ];
    let result = search_conversations(&chats, "rust", 5, None);
    assert_eq!(result.total_matches, 1);
    assert_eq!(result.conversations[0].title, "Rust discussion");

    let result = search_conversations(&chats, "python", 5, None);
    assert_eq!(result.total_matches, 1);
    assert_eq!(result.conversations[0].title, "Python chat");

    let result = search_conversations(&chats, "nonexistent", 5, None);
    assert_eq!(result.total_matches, 0);
    assert_eq!(result.status, ConversationSearchStatus::NoMatches);
}

#[test]
fn search_is_case_insensitive() {
    let chats = vec![chat("1", "UPPERCASE Title", "2025-01-01T00:00:00Z", vec![
        message("user", "Some CONTENT here"),
    ])];
    assert_eq!(search_conversations(&chats, "uppercase", 5, None).total_matches, 1);
    assert_eq!(search_conversations(&chats, "CONTENT", 5, None).total_matches, 1);
}

#[test]
fn natural_language_query_uses_distinctive_terms_across_messages() {
    let chats = vec![chat("project-chat", "Planning notes", "2025-01-01T00:00:00Z", vec![
        message("user", "The lighthouse needs a new lens."),
        message("bot", "We can plan the deployment next week."),
    ])];
    let result = search_conversations(
        &chats,
        "What did we discuss about lighthouse deployment?",
        5,
        None,
    );
    assert_eq!(result.status, ConversationSearchStatus::Matched);
    assert_eq!(result.terms, vec!["lighthouse".to_string(), "deployment".to_string()]);
    assert_eq!(result.conversations[0].conversation_id, "project-chat");
    assert_eq!(result.conversations[0].excerpts[1].role, "assistant");
    assert_eq!(result.conversations[0].excerpts[1].message_number, 2);
}

#[test]
fn generic_query_requests_a_specific_topic() {
    let result = search_conversations(&Vec::new(), "What did we discuss before?", 5, None);
    assert_eq!(result.status, ConversationSearchStatus::NeedsSpecificQuery);
    assert_eq!(result.total_matches, 0);
}

#[test]
fn search_is_restricted_to_the_active_profile() {
    let mut a = chat("profile-a-chat", "Shared keyword", "2025-01-01T00:00:00Z", Vec::new());
    a.profile = Some("profile-a".into());
    let mut b = chat("profile-b-chat", "Shared keyword", "2025-01-02T00:00:00Z", Vec::new());
    b.profile = Some("profile-b".into());
    let result = search_conversations(&vec![a, b], "keyword", 5, Some("profile-a"));
    assert!(result.active_profile_only);
    assert_eq!(result.total_matches, 1);
    assert_eq!(result.conversations[0].conversation_id, "profile-a-chat");
}

#[test]
fn search_respects_limit() {
    let chats = vec![
        chat("1", "Chat about topic", "2025-01-01T00:00:00Z", vec![message("user", "topic")]),
        chat("2", "Another topic chat", "2025-01-02T00:00:00Z", vec![message("user", "topic")]),
        chat("3", "Third topic chat", "2025-01-03T00:00:00Z", vec![message("user", "topic")]),
    ];
    let result = search_conversations(&chats, "topic", 2, None);
    assert_eq!(result.total_matches, 3);
    assert_eq!(result.conversations.len(), 2);
}

#[test]
fn title_matches_do_not_dump_every_message() {
    let chats = vec![chat("1", "Project lighthouse", "2025-01-01T00:00:00Z", vec![
        message("user", "first unrelated message"),
        message("bot", "second unrelated message"),
        message("user", "third unrelated message"),
        message("bot", "fourth unrelated message"),
    ])];
    let result = search_conversations(&chats, "lighthouse", 5, None);
    assert_eq!(result.total_matches, 1);
    assert_eq!(result.conversations[0].locations, vec!["title"]);
    assert_eq!(result.conversations[0].excerpts.len(), 0);
}

#[test]
fn matching_messages_are_bounded_per_conversation() {
    let messages = (0..MAX_EXCERPTS_PER_CONVERSATION + 2)
        .map(|index| message("user", &format!("matching message {index}")))
        .collect::<Vec<_>>();
    let chats = vec![chat("1", "A chat", "2025-01-01T00:00:00Z", messages)];
    let result = search_conversations(&chats, "matching", 5, None);
    assert_eq!(result.conversations[0].excerpts.len(), MAX_EXCERPTS_PER_CONVERSATION);
}

#[test]
fn search_sorts_by_most_recent_first() {
    let chats = vec![
        chat("1", "Old", "2024-01-01T00:00:00Z", vec![message("user", "match")]),
        chat("2", "New", "2025-06-01T00:00:00Z", vec![message("user", "match")]),
        chat("3", "Mid", "2024-06-01T00:00:00Z", vec![message("user", "match")]),
    ];
    let result = search_conversations(&chats, "match", 5, None);
    assert_eq!(result.conversations[0].title, "New");
    assert_eq!(result.conversations[1].title, "Mid");
    assert_eq!(result.conversations[2].title, "Old");
}

#[test]
fn exact_phrases_rank_before_scattered_terms() {
    let chats = vec![
        chat("scattered", "Notes", "2025-06-01T00:00:00Z", vec![
            message("user", "deployment went fine"),
            message("user", "the lighthouse is bright"),
        ]),
        chat("exact", "Notes", "2024-01-01T00:00:00Z", vec![
            message("user", "Lighthouse deployment checklist"),
        ]),
    ];
    let result = search_conversations(&chats, "lighthouse deployment", 5, None);
    assert_eq!(result.conversations[0].conversation_id, "exact");
    assert!(result.conversations[0].exact_phrase_matched);
    assert_eq!(result.conversations[0].relevance_score, 501);
    assert_eq!(result.conversations[1].relevance_score, 2);
}

#[test]
fn chats_matching_only_some_terms_are_not_counted() {
    let chats = vec![
        chat("both", "Lighthouse repairs", "2025-01-01T00:00:00Z", vec![
            message("user", "The lens cracked again."),
        ]),
        chat("one", "Lighthouse history", "2025-01-02T00:00:00Z", vec![
            message("user", "Built in 1890."),
        ]),
        chat("none", "Groceries", "2025-01-03T00:00:00Z", vec![message("user", "Milk and eggs")]),
    ];
    let result = search_conversations(&chats, "lighthouse lens", 5, None);
    assert_eq!(result.total_matches, 1);
    assert_eq!(result.conversations.len(), 1);
    assert_eq!(result.conversations[0].conversation_id, "both");
}
