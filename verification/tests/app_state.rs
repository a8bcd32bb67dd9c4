use locoryn::app_state::{profile_prompt_extras, update, AppAction, AppMessage, AppState, RunningPrompt, TemporaryChat};
use locoryn::profiles::{Profile, ProfileRegistry, SavedChat, LEGACY_PROFILE_ID};

fn saved(id: &str, profile: &str, updated_at: &str) -> SavedChat {
    SavedChat {
        id: id.to_string(),
        title: format!("{id} title"),
        updated_at: updated_at.to_string(),
        profile: Some(profile.to_string()),
        messages: Vec::new(),
        pinned: false,
        web_search_enabled: None,
    }
}

fn registry() -> ProfileRegistry {
    let profile = |id: &str, name: &str| Profile {
        id: id.into(),
        name: name.into(),
        user_name: String::new(),
        custom_instructions: String::new(),
    };
    ProfileRegistry {
        profiles: vec![profile(LEGACY_PROFILE_ID, "Outdated Profile"), profile("profile-1", "Logan")],
        active_profile_id: LEGACY_PROFILE_ID.to_string(),
    }
}

fn fresh_state() -> AppState {
    AppState::new(ProfileRegistry::default(), Vec::new(), "chat-0".to_string())
}

#[test]
fn new_chats_start_with_web_search_off_even_when_globally_enabled() {
    let mut state = fresh_state();
    let action = update(&mut state, AppMessage::NewChat { fresh_id: "chat-1".into() });
    assert!(matches!(action, AppAction::OpenFreshChat { save_open: true }));
    assert_eq!(state.current_chat_id, "chat-1");
    assert!(!state.web_search_for_chat);
}

#[test]
fn chat_web_search_toggle_becomes_the_default_for_new_chats() {
    let mut state = fresh_state();
    assert!(matches!(update(&mut state, AppMessage::ToggleChatWebSearch), AppAction::PersistChatWebSearch));
    assert!(state.web_search_for_chat);
    update(&mut state, AppMessage::NewChat { fresh_id: "chat-1".into() });
    assert!(state.web_search_for_chat);
}

#[test]
fn remembered_chat_web_search_choice_is_not_restored_after_restart() {
    let mut state = fresh_state();
    update(&mut state, AppMessage::ToggleChatWebSearch);
    assert!(state.new_chat_web_search);

    let restarted = fresh_state();
    assert!(!restarted.new_chat_web_search);
    assert!(!restarted.web_search_for_chat);
}

#[test]
fn show_tokens_per_second_toggle_flips_and_defaults_off() {
    let mut state = fresh_state();
    assert!(!state.show_tokens_per_second);
    update(&mut state, AppMessage::ToggleShowTokensPerSecond);
    assert!(state.show_tokens_per_second);
    update(&mut state, AppMessage::ToggleShowTokensPerSecond);
    assert!(!state.show_tokens_per_second);
}

#[test]
fn web_search_cannot_change_while_the_chat_is_working() {
    let mut state = fresh_state();
    state.running_prompts.push(RunningPrompt {
        chat_id: "chat-0".into(),
        profile_id: LEGACY_PROFILE_ID.into(),
        temporary: false,
        web_search_enabled: false,
    });
    let action = update(&mut state, AppMessage::ToggleChatWebSearch);
    assert!(matches!(action, AppAction::Notice { is_error: false, .. }));
    assert!(!state.web_search_for_chat);
}

#[test]
fn temporary_chats_are_discarded_when_left_and_kept_apart_from_saved_ones() {
    let mut state = AppState::new(registry(), vec![saved("chat-a", LEGACY_PROFILE_ID, "2026-01-01T00:00:00Z")], "chat-0".into());
    let action = update(&mut state, AppMessage::ToggleTemporaryChat { fresh_id: "tmp-1".into() });
    assert!(matches!(action, AppAction::OpenFreshChat { save_open: true }));
    assert!(state.temporary_chat);
    state.temporary_chats.push(TemporaryChat {
        id: "tmp-1".into(),
        profile_id: LEGACY_PROFILE_ID.into(),
        web_search_enabled: false,
    });
    let action = update(&mut state, AppMessage::ToggleTemporaryChat { fresh_id: "chat-2".into() });
    assert!(matches!(action, AppAction::OpenFreshChat { save_open: false }));
    assert!(!state.temporary_chat);
    assert!(state.temporary_chats.is_empty());
    assert_eq!(state.saved_chats.len(), 1);
    assert_eq!(state.current_chat_id, "chat-2");
}

#[test]
fn deleting_a_running_chat_is_refused_and_deleting_the_open_chat_starts_a_new_one() {
    let mut state = AppState::new(
        registry(),
        vec![saved("chat-a", LEGACY_PROFILE_ID, "2026-01-02T00:00:00Z"), saved("chat-b", LEGACY_PROFILE_ID, "2026-01-01T00:00:00Z")],
        "chat-a".into(),
    );
    state.running_prompts.push(RunningPrompt {
        chat_id: "chat-b".into(),
        profile_id: LEGACY_PROFILE_ID.into(),
        temporary: false,
        web_search_enabled: true,
    });
    let action = update(&mut state, AppMessage::DeleteChat { id: "chat-b".into(), fresh_id: "x".into() });
    assert!(matches!(action, AppAction::Notice { is_error: true, .. }));
    assert_eq!(state.saved_chats.len(), 2);

    let action = update(&mut state, AppMessage::DeleteChat { id: "chat-a".into(), fresh_id: "chat-new".into() });
    assert!(matches!(action, AppAction::PersistSavedChats { clear_open: true }));
    assert_eq!(state.saved_chats.len(), 1);
    assert_eq!(state.current_chat_id, "chat-new");
}

#[test]
fn selecting_a_profile_opens_its_newest_chat_with_its_settings() {
    let mut chat_b = saved("chat-b", "profile-1", "2026-01-02T00:00:00Z");
    chat_b.web_search_enabled = Some(true);
    let mut state = AppState::new(
        registry(),
        vec![
            saved("chat-legacy", LEGACY_PROFILE_ID, "2026-01-03T00:00:00Z"),
            chat_b,
            saved("chat-a", "profile-1", "2026-01-01T00:00:00Z"),
        ],
        "chat-legacy".into(),
    );
    let action = update(&mut state, AppMessage::SelectProfile { id: "profile-1".into(), fresh_id: "x".into() });
    assert!(matches!(action, AppAction::SwitchProfile { open_chat: Some(ref id) } if id == "chat-b"));
    assert_eq!(state.registry.active_profile_id, "profile-1");
    assert_eq!(state.current_chat_id, "chat-b");
    assert!(state.web_search_for_chat);
    assert!(!state.temporary_chat);

    // Selecting the active profile again changes nothing.
    assert!(matches!(
        update(&mut state, AppMessage::SelectProfile { id: "profile-1".into(), fresh_id: "y".into() }),
        AppAction::Nothing
    ));
    assert_eq!(state.current_chat_id, "chat-b");
}

#[test]
fn profiles_in_use_by_temporary_chats_cannot_be_deleted() {
    let mut state = AppState::new(registry(), Vec::new(), "chat-0".into());
    state.temporary_chats.push(TemporaryChat {
        id: "tmp".into(),
        profile_id: "profile-1".into(),
        web_search_enabled: false,
    });
    let action = update(&mut state, AppMessage::DeleteProfile("profile-1".into()));
    assert!(matches!(action, AppAction::Notice { is_error: true, .. }));
    assert_eq!(state.registry.profiles.len(), 2);

    state.temporary_chats.clear();
    assert!(matches!(update(&mut state, AppMessage::DeleteProfile("profile-1".into())), AppAction::PersistProfiles));
    assert_eq!(state.registry.profiles.len(), 1);
}

#[test]
fn confirming_profile_edits_updates_name_user_name_and_instructions() {
    let work = Profile {
        id: "profile-1".into(),
        name: "Work".into(),
        user_name: String::new(),
        custom_instructions: String::new(),
    };
    let registry = ProfileRegistry { profiles: vec![work], active_profile_id: "profile-1".into() };
    let mut state = AppState::new(registry, Vec::new(), "chat-0".into());

    update(&mut state, AppMessage::StartEditProfile("profile-1".into()));
    update(&mut state, AppMessage::ProfileEditNameChanged("Personal".into()));
    update(&mut state, AppMessage::ProfileEditUserNameChanged("Logan".into()));
    update(&mut state, AppMessage::ProfileEditInstructionsChanged("Keep it casual.".into()));
    let action = update(&mut state, AppMessage::ConfirmProfileEdits);
    assert!(matches!(action, AppAction::PersistProfiles));

    let profile = &state.registry.profiles[0];
    assert_eq!(profile.name, "Personal");
    assert_eq!(profile.user_name, "Logan");
    assert_eq!(profile.custom_instructions, "Keep it casual.");
    assert!(state.editor.editing_id.is_none());
}

#[test]
fn new_profiles_need_a_unique_name_and_become_active() {
    let mut state = AppState::new(registry(), Vec::new(), "chat-0".into());
    let action = update(
        &mut state,
        AppMessage::CreateProfile { name: "   ".into(), new_id: "p-2".into(), fresh_id: "c".into() },
    );
    assert!(matches!(action, AppAction::Notice { is_error: false, .. }));
    let action = update(
        &mut state,
        AppMessage::CreateProfile { name: " logan ".into(), new_id: "p-2".into(), fresh_id: "c".into() },
    );
    assert!(matches!(action, AppAction::Notice { is_error: true, .. }));
    assert_eq!(state.registry.profiles.len(), 2);

    let action = update(
        &mut state,
        AppMessage::CreateProfile { name: " School ".into(), new_id: "p-2".into(), fresh_id: "chat-9".into() },
    );
    assert!(matches!(action, AppAction::SwitchProfile { open_chat: None }));
    assert_eq!(state.registry.profiles.len(), 3);
    assert_eq!(state.registry.profiles[2].name, "School");
    assert_eq!(state.registry.active_profile_id, "p-2");
    assert_eq!(state.current_chat_id, "chat-9");
    assert_eq!(state.editor.editing_id.as_deref(), Some("p-2"));

    // Renaming to a name another profile has is refused, whatever its case.
    update(&mut state, AppMessage::ProfileEditNameChanged("LOGAN".into()));
    let action = update(&mut state, AppMessage::ConfirmProfileEdits);
    assert!(matches!(action, AppAction::Notice { is_error: true, .. }));
    assert_eq!(state.registry.profiles[2].name, "School");
}

#[test]
fn opening_a_chat_restores_its_own_settings() {
    let mut state = AppState::new(registry(), vec![saved("chat-a", LEGACY_PROFILE_ID, "2026-01-01T00:00:00Z")], "chat-0".into());
    state.temporary_chats.push(TemporaryChat {
        id: "tmp".into(),
        profile_id: LEGACY_PROFILE_ID.into(),
        web_search_enabled: true,
    });
    let action = update(&mut state, AppMessage::OpenChat("tmp".into()));
    assert!(matches!(action, AppAction::ShowChat { ref id } if id == "tmp"));
    assert!(state.temporary_chat);
    assert!(state.web_search_for_chat);

    update(&mut state, AppMessage::OpenChat("chat-a".into()));
    assert_eq!(state.current_chat_id, "chat-a");
    assert!(!state.temporary_chat);
    assert!(!state.web_search_for_chat);

    assert!(matches!(update(&mut state, AppMessage::OpenChat("missing".into())), AppAction::Nothing));
    assert_eq!(state.current_chat_id, "chat-a");
}

#[test]
fn system_prompt_extras_share_the_user_name_but_not_the_display_name() {
    let registry = ProfileRegistry {
        profiles: vec![Profile {
            id: "profile-1".into(),
            name: "Secret label".into(),
            user_name: "Logan".into(),
            custom_instructions: "Answer like a pirate.".into(),
        }],
        active_profile_id: "profile-1".into(),
    };
    let (user_name, instructions) = profile_prompt_extras(&registry, "profile-1");
    assert_eq!(user_name, "Logan");
    assert_eq!(instructions, "Answer like a pirate.");
    assert_eq!(profile_prompt_extras(&registry, "missing"), (String::new(), String::new()));
}
