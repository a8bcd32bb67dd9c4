//! The chat window's state and what each user action does to it: starting,
//! opening and deleting chats, disposable (temporary) chats kept apart from
//! saved ones, the per-chat web-search switch, pins, and profiles. The
//! window performs the returned action (saving, clearing the open chat,
//! showing a notice); fresh chat ids come from the clock, so the caller
//! hands them in.
use vstd::prelude::*;
use crate::chat_list::{
    chat_index, delete_profile, ids_contain, newest_among, newest_chat_of_profile,
    profile_has_saved_chat, profiles_without, toggle_chat_pin, spec_toggle_pin_at,
    ProfileDeleteError,
};
use crate::profiles::{find_profile, has_profile, Profile, ProfileRegistry, SavedChat};
use crate::text::{ascii_lower, ascii_lower_chars, chars_of, copy_string, same_text, trim, trimmed};

verus! {

/// A chat that is never saved to disk.
#[derive(Clone, Debug)]
pub struct TemporaryChat {
    pub id: String,
    pub profile_id: String,
    pub web_search_enabled: bool,
}

/// A response that is still being generated, and the chat it belongs to.
#[derive(Clone, Debug)]
pub struct RunningPrompt {
    pub chat_id: String,
    pub profile_id: String,
    pub temporary: bool,
    pub web_search_enabled: bool,
}

/// What the chat window remembers between actions.
#[derive(Clone, Debug)]
pub struct AppState {
    pub registry: ProfileRegistry,
    pub saved_chats: Vec<SavedChat>,
    pub temporary_chats: Vec<TemporaryChat>,
    pub running_prompts: Vec<RunningPrompt>,
    pub current_chat_id: String,
    /// Whether the open chat is a temporary one.
    pub temporary_chat: bool,
    /// Whether web search is on for the open chat.
    pub web_search_for_chat: bool,
    /// The web-search choice new chats start with; it follows the user's
    /// latest toggle and lives for the session only.
    pub new_chat_web_search: bool,
    pub show_tokens_per_second: bool,
    pub editor: ProfileEditor,
}

/// The profile editor: which profile is being edited, and the text of its
/// three fields.
#[derive(Clone, Debug)]
pub struct ProfileEditor {
    pub editing_id: Option<String>,
    pub name: String,
    pub user_name: String,
    pub instructions: String,
}

/// A user action. `fresh_id` is the id a newly started chat gets.
#[derive(Clone, Debug)]
pub enum AppMessage {
    NewChat { fresh_id: String },
    OpenChat(String),
    ToggleChatWebSearch,
    ToggleTemporaryChat { fresh_id: String },
    DeleteChat { id: String, fresh_id: String },
    DeleteTemporaryChat { id: String, fresh_id: String },
    ToggleChatPin(String),
    DeleteProfile(String),
    SelectProfile { id: String, fresh_id: String },
    ToggleShowTokensPerSecond,
    /// Create a profile named `name` with the id `new_id`, then switch to it.
    CreateProfile { name: String, new_id: String, fresh_id: String },
    StartEditProfile(String),
    ProfileEditNameChanged(String),
    ProfileEditUserNameChanged(String),
    ProfileEditInstructionsChanged(String),
    CancelEditProfile,
    ConfirmProfileEdits,
}

/// What the window does after an action.
#[derive(Clone, Debug)]
pub enum AppAction {
    Nothing,
    /// Show a notice; nothing changed.
    Notice { message: &'static str, is_error: bool },
    /// Show an empty chat, saving the previously open chat first when
    /// `save_open` is set.
    OpenFreshChat { save_open: bool },
    /// Save the open chat, then show chat `id` (its history: running,
    /// temporary or saved).
    ShowChat { id: String },
    /// Save the open chat's web-search choice.
    PersistChatWebSearch,
    /// Write the saved chats; clear the open chat when it was deleted.
    PersistSavedChats { clear_open: bool },
    /// Write the profiles.
    PersistProfiles,
    /// Save the open chat, write the profiles, and show chat `open_chat`
    /// (its history: running, temporary or saved), or an empty chat.
    SwitchProfile { open_chat: Option<String> },
    /// Save the tokens-per-second preference.
    PersistShowTokensPerSecond,
}

impl AppState {
    /// The state at start-up: the saved profiles and chats, nothing
    /// temporary or running, a fresh chat open, and web search and the
    /// tokens-per-second display off (the web-search choice is never
    /// restored from an earlier session).
    pub fn new(registry: ProfileRegistry, saved_chats: Vec<SavedChat>, fresh_id: String) -> (out: Self)
        ensures
            out.registry == registry,
            out.saved_chats == saved_chats,
            out.temporary_chats@.len() == 0,
            out.running_prompts@.len() == 0,
            out.current_chat_id == fresh_id,
            !out.temporary_chat,
            !out.web_search_for_chat,
            !out.new_chat_web_search,
            !out.show_tokens_per_second,
            out.editor.editing_id is None,
    {
        AppState {
            registry,
            saved_chats,
            temporary_chats: Vec::new(),
            running_prompts: Vec::new(),
            current_chat_id: fresh_id,
            temporary_chat: false,
            web_search_for_chat: false,
            new_chat_web_search: false,
            show_tokens_per_second: false,
            editor: ProfileEditor {
                editing_id: None,
                name: String::new(),
                user_name: String::new(),
                instructions: String::new(),
            },
        }
    }
}

// ---------------------------------------------------------------------------
// Lookups
// ---------------------------------------------------------------------------

/// The first position from `from` on whose item satisfies `p`.
pub open spec fn first_from<T>(s: Seq<T>, p: spec_fn(T) -> bool, from: int) -> Option<int>
    decreases s.len() - from,
{
    if from < 0 || from >= s.len() {
        None
    } else if p(s[from]) {
        Some(from)
    } else {
        first_from(s, p, from + 1)
    }
}

proof fn lemma_first_from<T>(s: Seq<T>, p: spec_fn(T) -> bool, from: int)
    ensures
        first_from(s, p, from) matches Some(k) ==> from <= k < s.len() && p(s[k]),
        from >= 0 && first_from(s, p, from) is None ==> forall|j: int| from <= j < s.len() ==> !p(#[trigger] s[j]),
    decreases s.len() - from,
{
    if 0 <= from < s.len() && !p(s[from]) {
        lemma_first_from(s, p, from + 1);
    }
}

pub open spec fn prompt_of_chat(chat_id: Seq<char>) -> spec_fn(RunningPrompt) -> bool {
    |r: RunningPrompt| r.chat_id@ == chat_id
}

pub open spec fn temporary_with_id(id: Seq<char>) -> spec_fn(TemporaryChat) -> bool {
    |t: TemporaryChat| t.id@ == id
}

pub open spec fn temporary_of_profile(profile_id: Seq<char>) -> spec_fn(TemporaryChat) -> bool {
    |t: TemporaryChat| t.profile_id@ == profile_id
}

/// Whether a response is being generated for chat `chat_id`.
pub open spec fn is_running(s: AppState, chat_id: Seq<char>) -> bool {
    first_from(s.running_prompts@, prompt_of_chat(chat_id), 0) is Some
}

fn find_prompt(prompts: &Vec<RunningPrompt>, chat_id: &str) -> (out: Option<usize>)
    ensures
        match out {
            Some(k) => first_from(prompts@, prompt_of_chat(chat_id@), 0) == Some(k as int) && k
                < prompts@.len(),
            None => first_from(prompts@, prompt_of_chat(chat_id@), 0) is None,
        },
{
    proof {
        lemma_first_from(prompts@, prompt_of_chat(chat_id@), 0);
    }
    let mut i: usize = 0;
    while i < prompts.len()
        invariant
            i <= prompts@.len(),
            first_from(prompts@, prompt_of_chat(chat_id@), 0) == first_from(
                prompts@,
                prompt_of_chat(chat_id@),
                i as int,
            ),
        decreases prompts@.len() - i,
    {
        if same_text(prompts[i].chat_id.as_str(), chat_id) {
            return Some(i);
        }
        i = i + 1;
    }
    None
}

fn find_temporary(chats: &Vec<TemporaryChat>, id: &str) -> (out: Option<usize>)
    ensures
        match out {
            Some(k) => first_from(chats@, temporary_with_id(id@), 0) == Some(k as int) && k
                < chats@.len(),
            None => first_from(chats@, temporary_with_id(id@), 0) is None,
        },
{
    proof {
        lemma_first_from(chats@, temporary_with_id(id@), 0);
    }
    let mut i: usize = 0;
    while i < chats.len()
        invariant
            i <= chats@.len(),
            first_from(chats@, temporary_with_id(id@), 0) == first_from(
                chats@,
                temporary_with_id(id@),
                i as int,
            ),
        decreases chats@.len() - i,
    {
        if same_text(chats[i].id.as_str(), id) {
            return Some(i);
        }
        i = i + 1;
    }
    None
}

fn find_temporary_of_profile(chats: &Vec<TemporaryChat>, profile_id: &str) -> (out: Option<usize>)
    ensures
        match out {
            Some(k) => first_from(chats@, temporary_of_profile(profile_id@), 0) == Some(k as int) && k
                < chats@.len(),
            None => first_from(chats@, temporary_of_profile(profile_id@), 0) is None,
        },
{
    proof {
        lemma_first_from(chats@, temporary_of_profile(profile_id@), 0);
    }
    let mut i: usize = 0;
    while i < chats.len()
        invariant
            i <= chats@.len(),
            first_from(chats@, temporary_of_profile(profile_id@), 0) == first_from(
                chats@,
                temporary_of_profile(profile_id@),
                i as int,
            ),
        decreases chats@.len() - i,
    {
        if same_text(chats[i].profile_id.as_str(), profile_id) {
            return Some(i);
        }
        i = i + 1;
    }
    None
}

fn find_saved(chats: &Vec<SavedChat>, id: &str) -> (out: Option<usize>)
    ensures
        match out {
            Some(k) => chat_index(chats@, id@) == Some(k as int) && k < chats@.len(),
            None => chat_index(chats@, id@) is None,
        },
{
    let mut i: usize = 0;
    while i < chats.len()
        invariant
            i <= chats@.len(),
            chat_index(chats@, id@) == crate::chat_list::chat_index_from(chats@, id@, i as int),
        decreases chats@.len() - i,
    {
        if same_text(chats[i].id.as_str(), id) {
            return Some(i);
        }
        i = i + 1;
    }
    None
}

// ---------------------------------------------------------------------------
// Opening a chat
// ---------------------------------------------------------------------------

/// Whether chat `id` opens as a temporary chat, and with web search on:
/// a running response's settings first, then a temporary chat's, then the
/// saved chat's own web-search choice, else the session default.
pub open spec fn open_settings(s: AppState, id: Seq<char>) -> (bool, bool) {
    match first_from(s.running_prompts@, prompt_of_chat(id), 0) {
        Some(r) => (s.running_prompts@[r].temporary, s.running_prompts@[r].web_search_enabled),
        None => match first_from(s.temporary_chats@, temporary_with_id(id), 0) {
            Some(t) => (true, s.temporary_chats@[t].web_search_enabled),
            None => (
                false,
                match chat_index(s.saved_chats@, id) {
                    Some(c) => match s.saved_chats@[c].web_search_enabled {
                        Some(b) => b,
                        None => s.new_chat_web_search,
                    },
                    None => s.new_chat_web_search,
                },
            ),
        },
    }
}

fn opening_settings(s: &AppState, id: &str) -> (out: (bool, bool))
    ensures
        out == open_settings(*s, id@),
{
    match find_prompt(&s.running_prompts, id) {
        Some(r) => (s.running_prompts[r].temporary, s.running_prompts[r].web_search_enabled),
        None => match find_temporary(&s.temporary_chats, id) {
            Some(t) => (true, s.temporary_chats[t].web_search_enabled),
            None => {
                let ws = match find_saved(&s.saved_chats, id) {
                    Some(c) => match s.saved_chats[c].web_search_enabled {
                        Some(b) => b,
                        None => s.new_chat_web_search,
                    },
                    None => s.new_chat_web_search,
                };
                (false, ws)
            },
        },
    }
}

/// Whether chat `id` has a history to show: a running response, a
/// temporary chat or a saved chat.
pub open spec fn chat_exists(s: AppState, id: Seq<char>) -> bool {
    ||| first_from(s.running_prompts@, prompt_of_chat(id), 0) is Some
    ||| first_from(s.temporary_chats@, temporary_with_id(id), 0) is Some
    ||| chat_index(s.saved_chats@, id) is Some
}

/// The chat a profile switch opens: the profile's newest saved chat, else
/// its first temporary chat, else none (an empty chat).
pub open spec fn profile_chat_to_open(s: AppState, profile_id: Seq<char>) -> Option<Seq<char>> {
    match newest_among(s.saved_chats@, profile_id, s.saved_chats@.len() as int) {
        Some(b) => Some(s.saved_chats@[b].id@),
        None => match first_from(s.temporary_chats@, temporary_of_profile(profile_id), 0) {
            Some(t) => Some(s.temporary_chats@[t].id@),
            None => None,
        },
    }
}

// ---------------------------------------------------------------------------
// Removing chats
// ---------------------------------------------------------------------------

pub open spec fn saved_without(chats: Seq<SavedChat>, id: Seq<char>) -> Seq<SavedChat> {
    chats.filter(|c: SavedChat| c.id@ != id)
}

pub open spec fn temporary_without(chats: Seq<TemporaryChat>, id: Seq<char>) -> Seq<TemporaryChat> {
    chats.filter(|c: TemporaryChat| c.id@ != id)
}

fn remove_saved(chats: &mut Vec<SavedChat>, id: &str)
    ensures
        final(chats)@ == saved_without(old(chats)@, id@),
{
    let ghost f = |c: SavedChat| c.id@ != id@;
    let mut kept: Vec<SavedChat> = Vec::new();
    let ghost original = chats@;
    assert(original.take(0).filter(f) =~= Seq::<SavedChat>::empty()) by {
        reveal(Seq::filter);
    }
    while chats.len() > 0
        invariant
            f == (|c: SavedChat| c.id@ != id@),
            chats@.len() <= original.len(),
            chats@ == original.skip(original.len() - chats@.len()),
            kept@ == original.take(original.len() - chats@.len()).filter(f),
        decreases chats@.len(),
    {
        let ghost done = original.len() - chats@.len();
        let c = chats.remove(0);
        proof {
            reveal(Seq::filter);
            assert(c == original[done]);
            assert(original.take(done + 1).drop_last() =~= original.take(done));
            assert(chats@ =~= original.skip(done + 1));
        }
        if !same_text(c.id.as_str(), id) {
            kept.push(c);
        }
    }
    assert(original.take(original.len() as int) =~= original);
    *chats = kept;
}

fn remove_temporary(chats: &mut Vec<TemporaryChat>, id: &str)
    ensures
        final(chats)@ == temporary_without(old(chats)@, id@),
{
    let ghost f = |c: TemporaryChat| c.id@ != id@;
    let mut kept: Vec<TemporaryChat> = Vec::new();
    let ghost original = chats@;
    assert(original.take(0).filter(f) =~= Seq::<TemporaryChat>::empty()) by {
        reveal(Seq::filter);
    }
    while chats.len() > 0
        invariant
            f == (|c: TemporaryChat| c.id@ != id@),
            chats@.len() <= original.len(),
            chats@ == original.skip(original.len() - chats@.len()),
            kept@ == original.take(original.len() - chats@.len()).filter(f),
        decreases chats@.len(),
    {
        let ghost done = original.len() - chats@.len();
        let c = chats.remove(0);
        proof {
            reveal(Seq::filter);
            assert(c == original[done]);
            assert(original.take(done + 1).drop_last() =~= original.take(done));
            assert(chats@ =~= original.skip(done + 1));
        }
        if !same_text(c.id.as_str(), id) {
            kept.push(c);
        }
    }
    assert(original.take(original.len() as int) =~= original);
    *chats = kept;
}

// ---------------------------------------------------------------------------
// Profiles in use
// ---------------------------------------------------------------------------

/// The profiles of the temporary chats, then those of the running prompts.
pub open spec fn busy_profiles(s: AppState) -> Seq<Seq<char>> {
    s.temporary_chats@.map_values(|t: TemporaryChat| t.profile_id@) + s.running_prompts@.map_values(
        |r: RunningPrompt| r.profile_id@,
    )
}

fn busy_profile_ids(s: &AppState) -> (out: Vec<String>)
    ensures
        out@.map_values(|x: String| x@) == busy_profiles(*s),
{
    let mut out: Vec<String> = Vec::new();
    let mut i: usize = 0;
    while i < s.temporary_chats.len()
        invariant
            i <= s.temporary_chats@.len(),
            out@.len() == i,
            out@.map_values(|x: String| x@) == s.temporary_chats@.take(i as int).map_values(
                |t: TemporaryChat| t.profile_id@,
            ),
        decreases s.temporary_chats@.len() - i,
    {
        let ghost prev = out@;
        out.push(copy_string(s.temporary_chats[i].profile_id.as_str()));
        proof {
            let a = out@.map_values(|x: String| x@);
            let b = s.temporary_chats@.take(i + 1).map_values(|t: TemporaryChat| t.profile_id@);
            let c = prev.map_values(|x: String| x@);
            assert(a.len() == b.len());
            assert forall|k: int| 0 <= k < a.len() implies a[k] == b[k] by {
                if k < i {
                    assert(out@[k] == prev[k]);
                    assert(c[k] == s.temporary_chats@.take(i as int).map_values(
                        |t: TemporaryChat| t.profile_id@,
                    )[k]);
                }
            }
            assert(a =~= b);
        }
        i = i + 1;
    }
    assert(s.temporary_chats@.take(i as int) =~= s.temporary_chats@);
    let ghost first = out@.map_values(|x: String| x@);
    let mut j: usize = 0;
    while j < s.running_prompts.len()
        invariant
            j <= s.running_prompts@.len(),
            out@.len() == s.temporary_chats@.len() + j,
            first.len() == s.temporary_chats@.len(),
            first == s.temporary_chats@.map_values(|t: TemporaryChat| t.profile_id@),
            out@.map_values(|x: String| x@) == first + s.running_prompts@.take(j as int).map_values(
                |r: RunningPrompt| r.profile_id@,
            ),
        decreases s.running_prompts@.len() - j,
    {
        let ghost prev = out@;
        out.push(copy_string(s.running_prompts[j].profile_id.as_str()));
        proof {
            let a = out@.map_values(|x: String| x@);
            let b = first + s.running_prompts@.take(j + 1).map_values(|r: RunningPrompt| r.profile_id@);
            let c = prev.map_values(|x: String| x@);
            let d = first + s.running_prompts@.take(j as int).map_values(|r: RunningPrompt| r.profile_id@);
            assert(c == d);
            assert(a.len() == b.len());
            assert forall|k: int| 0 <= k < a.len() implies a[k] == b[k] by {
                if k < prev.len() {
                    assert(out@[k] == prev[k]);
                    assert(c[k] == d[k]);
                }
            }
            assert(a =~= b);
        }
        j = j + 1;
    }
    assert(s.running_prompts@.take(j as int) =~= s.running_prompts@);
    out
}

proof fn lemma_ids_contain(ids: Seq<String>, views: Seq<Seq<char>>, id: Seq<char>)
    requires
        ids.map_values(|x: String| x@) == views,
    ensures
        ids_contain(ids, id) == views.contains(id),
{
    if ids_contain(ids, id) {
        let i = choose|i: int| 0 <= i < ids.len() && (#[trigger] ids[i])@ == id;
        assert(views[i] == id);
    }
    if views.contains(id) {
        let i = choose|i: int| 0 <= i < views.len() && views[i] == id;
        assert(ids[i]@ == id);
    }
}

// ---------------------------------------------------------------------------
// Profiles: selecting, creating, editing
// ---------------------------------------------------------------------------

pub open spec fn profile_with_id(id: Seq<char>) -> spec_fn(Profile) -> bool {
    |p: Profile| p.id@ == id
}

/// Whether another profile (one whose id is not `except`) already has a
/// name equal to `name`, ignoring ASCII case.
pub open spec fn name_taken(profiles: Seq<Profile>, name: Seq<char>, except: Option<Seq<char>>) -> bool {
    exists|i: int|
        0 <= i < profiles.len() && ascii_lower((#[trigger] profiles[i]).name@) == ascii_lower(name)
            && match except {
            Some(e) => profiles[i].id@ != e,
            None => true,
        }
}

/// The effect of selecting profile `id`: nothing when it is unknown or
/// already active; otherwise it becomes active and its chat to open (see
/// `profile_chat_to_open`) is shown with its settings, or a fresh chat.
/// The chat lists and the editor are not touched.
pub open spec fn selects_profile(
    a: AppState,
    b: AppState,
    out: AppAction,
    id: Seq<char>,
    fresh_id: Seq<char>,
) -> bool {
    &&& b.saved_chats@ == a.saved_chats@
    &&& b.temporary_chats@ == a.temporary_chats@
    &&& b.running_prompts@ == a.running_prompts@
    &&& b.show_tokens_per_second == a.show_tokens_per_second
    &&& b.new_chat_web_search == a.new_chat_web_search
    &&& b.registry.profiles == a.registry.profiles
    &&& b.editor == a.editor
    &&& if !has_profile(a.registry.profiles@, id) || id == a.registry.active_profile_id@ {
        &&& b.registry.active_profile_id == a.registry.active_profile_id
        &&& keeps_open_chat(a, b)
        &&& out == AppAction::Nothing
    } else {
        &&& b.registry.active_profile_id@ == id
        &&& match profile_chat_to_open(a, id) {
            Some(chat) => {
                &&& b.current_chat_id@ == chat
                &&& (b.temporary_chat, b.web_search_for_chat) == open_settings(a, chat)
                &&& out matches AppAction::SwitchProfile { open_chat: Some(c) } && c@ == chat
            },
            None => {
                &&& opens_fresh_chat(b, fresh_id)
                &&& out matches AppAction::SwitchProfile { open_chat: None }
            },
        }
    }
}

fn select_profile(state: &mut AppState, id: String, fresh_id: String) -> (out: AppAction)
    ensures
        selects_profile(*old(state), *final(state), out, id@, fresh_id@),
{
    if !find_profile(&state.registry.profiles, id.as_str()) || same_text(
        id.as_str(),
        state.registry.active_profile_id.as_str(),
    ) {
        return AppAction::Nothing;
    }
    let target: Option<String> = match newest_chat_of_profile(&state.saved_chats, id.as_str()) {
        Some(b) => Some(copy_string(state.saved_chats[b].id.as_str())),
        None => match find_temporary_of_profile(&state.temporary_chats, id.as_str()) {
            Some(t) => Some(copy_string(state.temporary_chats[t].id.as_str())),
            None => None,
        },
    };
    state.registry.active_profile_id = id;
    match target {
        Some(chat) => {
            let (temporary, web_search) = opening_settings(state, chat.as_str());
            state.current_chat_id = copy_string(chat.as_str());
            state.temporary_chat = temporary;
            state.web_search_for_chat = web_search;
            AppAction::SwitchProfile { open_chat: Some(chat) }
        },
        None => {
            state.current_chat_id = fresh_id;
            state.temporary_chat = false;
            state.web_search_for_chat = state.new_chat_web_search;
            AppAction::SwitchProfile { open_chat: None }
        },
    }
}

fn find_profile_index(profiles: &Vec<Profile>, id: &str) -> (out: Option<usize>)
    ensures
        match out {
            Some(k) => first_from(profiles@, profile_with_id(id@), 0) == Some(k as int) && k
                < profiles@.len(),
            None => first_from(profiles@, profile_with_id(id@), 0) is None,
        },
{
    proof {
        lemma_first_from(profiles@, profile_with_id(id@), 0);
    }
    let mut i: usize = 0;
    while i < profiles.len()
        invariant
            i <= profiles@.len(),
            first_from(profiles@, profile_with_id(id@), 0) == first_from(
                profiles@,
                profile_with_id(id@),
                i as int,
            ),
        decreases profiles@.len() - i,
    {
        if same_text(profiles[i].id.as_str(), id) {
            return Some(i);
        }
        i = i + 1;
    }
    None
}

/// What a profile adds to the system prompt: the user's name and the
/// custom instructions of the first profile with id `profile_id`, or two
/// empty texts when there is none. The profile's display name is not part
/// of it.
pub fn profile_prompt_extras(registry: &ProfileRegistry, profile_id: &str) -> (out: (String, String))
    ensures
        match first_from(registry.profiles@, profile_with_id(profile_id@), 0) {
            Some(k) => out.0@ == registry.profiles@[k].user_name@ && out.1@
                == registry.profiles@[k].custom_instructions@,
            None => out.0@.len() == 0 && out.1@.len() == 0,
        },
{
    match find_profile_index(&registry.profiles, profile_id) {
        Some(k) => (
            copy_string(registry.profiles[k].user_name.as_str()),
            copy_string(registry.profiles[k].custom_instructions.as_str()),
        ),
        None => (String::new(), String::new()),
    }
}

fn is_name_taken(profiles: &Vec<Profile>, name: &str, except: Option<&str>) -> (out: bool)
    ensures
        out == name_taken(profiles@, name@, crate::web_search::opt_str_view(except)),
{
    let lowered = ascii_lower_chars(chars_of(name).as_slice());
    let mut i: usize = 0;
    while i < profiles.len()
        invariant
            i <= profiles@.len(),
            lowered@ == ascii_lower(name@),
            forall|j: int|
                0 <= j < i ==> !(ascii_lower((#[trigger] profiles@[j]).name@) == ascii_lower(name@)
                    && match crate::web_search::opt_str_view(except) {
                    Some(e) => profiles@[j].id@ != e,
                    None => true,
                }),
        decreases profiles@.len() - i,
    {
        let other = ascii_lower_chars(chars_of(profiles[i].name.as_str()).as_slice());
        let same_name = same_chars(other.as_slice(), lowered.as_slice());
        let counts = match except {
            Some(e) => !same_text(profiles[i].id.as_str(), e),
            None => true,
        };
        if same_name && counts {
            return true;
        }
        i = i + 1;
    }
    false
}

fn same_chars(a: &[char], b: &[char]) -> (out: bool)
    ensures
        out == (a@ == b@),
{
    if a.len() != b.len() {
        return false;
    }
    let mut i: usize = 0;
    while i < a.len()
        invariant
            i <= a@.len(),
            a@.len() == b@.len(),
            forall|j: int| 0 <= j < i ==> a@[j] == b@[j],
        decreases a@.len() - i,
    {
        if a[i] != b[i] {
            return false;
        }
        i = i + 1;
    }
    assert(a@ =~= b@);
    true
}

// ---------------------------------------------------------------------------
// The step
// ---------------------------------------------------------------------------

/// The fields that every action but the ones named keeps.
pub open spec fn keeps_lists(a: AppState, b: AppState) -> bool {
    &&& a.registry == b.registry
    &&& a.saved_chats@ == b.saved_chats@
    &&& a.temporary_chats@ == b.temporary_chats@
    &&& a.running_prompts@ == b.running_prompts@
    &&& a.show_tokens_per_second == b.show_tokens_per_second
    &&& a.new_chat_web_search == b.new_chat_web_search
}

/// Whether the open chat is left as it was.
pub open spec fn keeps_open_chat(a: AppState, b: AppState) -> bool {
    &&& a.current_chat_id@ == b.current_chat_id@
    &&& a.temporary_chat == b.temporary_chat
    &&& a.web_search_for_chat == b.web_search_for_chat
}

/// A fresh, empty chat with id `fresh_id` is open; it starts with the
/// session's web-search choice.
pub open spec fn opens_fresh_chat(a: AppState, fresh_id: Seq<char>) -> bool {
    &&& a.current_chat_id@ == fresh_id
    &&& !a.temporary_chat
    &&& a.web_search_for_chat == a.new_chat_web_search
}

/// Whether an action works on the profile editor.
pub open spec fn touches_editor(m: AppMessage) -> bool {
    ||| m is SelectProfile
    ||| m is DeleteProfile
    ||| m is CreateProfile
    ||| m is StartEditProfile
    ||| m is ProfileEditNameChanged
    ||| m is ProfileEditUserNameChanged
    ||| m is ProfileEditInstructionsChanged
    ||| m is CancelEditProfile
    ||| m is ConfirmProfileEdits
}

/// The editor with no profile being edited and its texts kept.
pub open spec fn closes_editor(a: ProfileEditor, b: ProfileEditor) -> bool {
    &&& b.editing_id is None
    &&& b.name == a.name
    &&& b.user_name == a.user_name
    &&& b.instructions == a.instructions
}

/// Applies one user action to the state and says what the window must do.
#[verifier::spinoff_prover]
#[verifier::rlimit(60)]
pub fn update(state: &mut AppState, message: AppMessage) -> (out: AppAction)
    ensures
        !touches_editor(message) ==> final(state).editor == old(state).editor,
        match message {
            AppMessage::NewChat { fresh_id } => {
                &&& keeps_lists(*old(state), *final(state))
                &&& opens_fresh_chat(*final(state), fresh_id@)
                &&& out == AppAction::OpenFreshChat { save_open: true }
            },
            AppMessage::OpenChat(id) => {
                &&& keeps_lists(*old(state), *final(state))
                &&& if chat_exists(*old(state), id@) {
                    &&& final(state).current_chat_id@ == id@
                    &&& (final(state).temporary_chat, final(state).web_search_for_chat) == open_settings(
                        *old(state),
                        id@,
                    )
                    &&& out matches AppAction::ShowChat { id: c } && c@ == id@
                } else {
                    &&& keeps_open_chat(*old(state), *final(state))
                    &&& out == AppAction::Nothing
                }
            },
            AppMessage::ToggleChatWebSearch => if is_running(*old(state), old(state).current_chat_id@) {
                &&& *final(state) == *old(state)
                &&& (out matches AppAction::Notice { message, is_error } && message@ == "Web search cannot be changed while this chat is working."@
                    && !is_error)
            } else {
                &&& final(state).registry == old(state).registry
                &&& final(state).saved_chats@ == old(state).saved_chats@
                &&& final(state).temporary_chats@ == old(state).temporary_chats@
                &&& final(state).running_prompts@ == old(state).running_prompts@
                &&& final(state).show_tokens_per_second == old(state).show_tokens_per_second
                &&& final(state).current_chat_id == old(state).current_chat_id
                &&& final(state).temporary_chat == old(state).temporary_chat
                &&& final(state).web_search_for_chat == !old(state).web_search_for_chat
                &&& final(state).new_chat_web_search == !old(state).web_search_for_chat
                &&& out == AppAction::PersistChatWebSearch
            },
            AppMessage::ToggleTemporaryChat { fresh_id } => {
                &&& final(state).registry == old(state).registry
                &&& final(state).saved_chats@ == old(state).saved_chats@
                &&& final(state).running_prompts@ == old(state).running_prompts@
                &&& final(state).show_tokens_per_second == old(state).show_tokens_per_second
                &&& final(state).new_chat_web_search == old(state).new_chat_web_search
                &&& final(state).current_chat_id@ == fresh_id@
                &&& final(state).web_search_for_chat == old(state).new_chat_web_search
                &&& final(state).temporary_chat == !old(state).temporary_chat
                &&& final(state).temporary_chats@ == if old(state).temporary_chat && !is_running(
                    *old(state),
                    old(state).current_chat_id@,
                ) {
                    temporary_without(old(state).temporary_chats@, old(state).current_chat_id@)
                } else {
                    old(state).temporary_chats@
                }
                &&& out == AppAction::OpenFreshChat { save_open: !old(state).temporary_chat }
            },
            AppMessage::DeleteChat { id, fresh_id } => if is_running(*old(state), id@) {
                &&& *final(state) == *old(state)
                &&& (out matches AppAction::Notice { message, is_error } && message@ == "Stop that chat's response before deleting it."@
                    && is_error)
            } else {
                &&& final(state).registry == old(state).registry
                &&& final(state).saved_chats@ == saved_without(old(state).saved_chats@, id@)
                &&& final(state).temporary_chats@ == old(state).temporary_chats@
                &&& final(state).running_prompts@ == old(state).running_prompts@
                &&& final(state).show_tokens_per_second == old(state).show_tokens_per_second
                &&& final(state).new_chat_web_search == old(state).new_chat_web_search
                &&& final(state).temporary_chat == old(state).temporary_chat
                &&& if old(state).current_chat_id@ == id@ {
                    &&& final(state).current_chat_id@ == fresh_id@
                    &&& final(state).web_search_for_chat == old(state).new_chat_web_search
                    &&& out == AppAction::PersistSavedChats { clear_open: true }
                } else {
                    &&& final(state).current_chat_id == old(state).current_chat_id
                    &&& final(state).web_search_for_chat == old(state).web_search_for_chat
                    &&& out == AppAction::PersistSavedChats { clear_open: false }
                }
            },
            AppMessage::DeleteTemporaryChat { id, fresh_id } => {
                &&& final(state).registry == old(state).registry
                &&& final(state).saved_chats@ == old(state).saved_chats@
                &&& final(state).temporary_chats@ == temporary_without(old(state).temporary_chats@, id@)
                &&& final(state).running_prompts@ == old(state).running_prompts@
                &&& final(state).show_tokens_per_second == old(state).show_tokens_per_second
                &&& final(state).new_chat_web_search == old(state).new_chat_web_search
                &&& if old(state).current_chat_id@ == id@ {
                    &&& opens_fresh_chat(*final(state), fresh_id@)
                    &&& out == AppAction::OpenFreshChat { save_open: false }
                } else {
                    &&& keeps_open_chat(*old(state), *final(state))
                    &&& out == AppAction::Nothing
                }
            },
            AppMessage::ToggleChatPin(id) => {
                &&& final(state).registry == old(state).registry
                &&& final(state).temporary_chats@ == old(state).temporary_chats@
                &&& final(state).running_prompts@ == old(state).running_prompts@
                &&& final(state).show_tokens_per_second == old(state).show_tokens_per_second
                &&& final(state).new_chat_web_search == old(state).new_chat_web_search
                &&& keeps_open_chat(*old(state), *final(state))
                &&& match chat_index(old(state).saved_chats@, id@) {
                    Some(k) => final(state).saved_chats@ == spec_toggle_pin_at(old(state).saved_chats@, k)
                        && out == AppAction::PersistSavedChats { clear_open: false },
                    None => final(state).saved_chats@ == old(state).saved_chats@ && out
                        == AppAction::Nothing,
                }
            },
            AppMessage::DeleteProfile(id) => {
                &&& final(state).registry.active_profile_id == old(state).registry.active_profile_id
                &&& final(state).saved_chats@ == old(state).saved_chats@
                &&& final(state).temporary_chats@ == old(state).temporary_chats@
                &&& final(state).running_prompts@ == old(state).running_prompts@
                &&& final(state).show_tokens_per_second == old(state).show_tokens_per_second
                &&& final(state).new_chat_web_search == old(state).new_chat_web_search
                &&& keeps_open_chat(*old(state), *final(state))
                &&& if id@ == old(state).registry.active_profile_id@ {
                    &&& final(state).registry.profiles@ == old(state).registry.profiles@
                    &&& final(state).editor == old(state).editor
                    &&& (out matches AppAction::Notice { message, is_error } && message@ == "Switch to another profile before deleting this one."@
                        && !is_error)
                } else if profile_has_saved_chat(old(state).saved_chats@, id@) || busy_profiles(
                    *old(state),
                ).contains(id@) {
                    &&& final(state).registry.profiles@ == old(state).registry.profiles@
                    &&& final(state).editor == old(state).editor
                    &&& (out matches AppAction::Notice { message, is_error } && message@ == "That profile still has chats. Delete them first."@
                        && is_error)
                } else {
                    &&& final(state).registry.profiles@ == profiles_without(
                        old(state).registry.profiles@,
                        id@,
                    )
                    &&& if old(state).editor.editing_id matches Some(e) && e@ == id@ {
                        closes_editor(old(state).editor, final(state).editor)
                    } else {
                        final(state).editor == old(state).editor
                    }
                    &&& out == AppAction::PersistProfiles
                }
            },
            AppMessage::SelectProfile { id, fresh_id } => {
                let closed = AppState { editor: final(state).editor, ..*old(state) };
                &&& closes_editor(old(state).editor, final(state).editor)
                &&& selects_profile(closed, *final(state), out, id@, fresh_id@)
            },
            AppMessage::ToggleShowTokensPerSecond => {
                &&& final(state).registry == old(state).registry
                &&& final(state).saved_chats@ == old(state).saved_chats@
                &&& final(state).temporary_chats@ == old(state).temporary_chats@
                &&& final(state).running_prompts@ == old(state).running_prompts@
                &&& final(state).new_chat_web_search == old(state).new_chat_web_search
                &&& keeps_open_chat(*old(state), *final(state))
                &&& final(state).show_tokens_per_second == !old(state).show_tokens_per_second
                &&& out == AppAction::PersistShowTokensPerSecond
            },
            AppMessage::CreateProfile { name, new_id, fresh_id } => if trim(name@).len() == 0 {
                &&& *final(state) == *old(state)
                &&& (out matches AppAction::Notice { message, is_error } && message@ == "Give the new profile a name first."@
                    && !is_error)
            } else if name_taken(old(state).registry.profiles@, trim(name@), None) {
                &&& *final(state) == *old(state)
                &&& (out matches AppAction::Notice { message, is_error } && message@ == "A profile with that name already exists."@
                    && is_error)
            } else {
                &&& final(state).registry.profiles@.len() == old(state).registry.profiles@.len() + 1
                &&& final(state).registry.profiles@.drop_last() == old(state).registry.profiles@
                &&& final(state).registry.profiles@.last().id@ == new_id@
                &&& final(state).registry.profiles@.last().name@ == trim(name@)
                &&& final(state).registry.profiles@.last().user_name@.len() == 0
                &&& final(state).registry.profiles@.last().custom_instructions@.len() == 0
                &&& final(state).editor.editing_id matches Some(e) && e@ == new_id@
                &&& final(state).editor.name@ == trim(name@)
                &&& final(state).editor.user_name@.len() == 0
                &&& final(state).editor.instructions@.len() == 0
                &&& selects_profile(
                    AppState {
                        registry: ProfileRegistry {
                            profiles: final(state).registry.profiles,
                            active_profile_id: old(state).registry.active_profile_id,
                        },
                        editor: final(state).editor,
                        ..*old(state)
                    },
                    *final(state),
                    out,
                    new_id@,
                    fresh_id@,
                )
            },
            AppMessage::StartEditProfile(id) => {
                &&& keeps_lists(*old(state), *final(state))
                &&& keeps_open_chat(*old(state), *final(state))
                &&& out == AppAction::Nothing
                &&& match first_from(old(state).registry.profiles@, profile_with_id(id@), 0) {
                    Some(k) => {
                        let p = old(state).registry.profiles@[k];
                        &&& final(state).editor.editing_id matches Some(e) && e@ == id@
                        &&& final(state).editor.name@ == p.name@
                        &&& final(state).editor.user_name@ == p.user_name@
                        &&& final(state).editor.instructions@ == p.custom_instructions@
                    },
                    None => final(state).editor == old(state).editor,
                }
            },
            AppMessage::ProfileEditNameChanged(v) => {
                &&& keeps_lists(*old(state), *final(state))
                &&& keeps_open_chat(*old(state), *final(state))
                &&& final(state).editor == ProfileEditor { name: v, ..old(state).editor }
                &&& out == AppAction::Nothing
            },
            AppMessage::ProfileEditUserNameChanged(v) => {
                &&& keeps_lists(*old(state), *final(state))
                &&& keeps_open_chat(*old(state), *final(state))
                &&& final(state).editor == ProfileEditor { user_name: v, ..old(state).editor }
                &&& out == AppAction::Nothing
            },
            AppMessage::ProfileEditInstructionsChanged(v) => {
                &&& keeps_lists(*old(state), *final(state))
                &&& keeps_open_chat(*old(state), *final(state))
                &&& final(state).editor == ProfileEditor { instructions: v, ..old(state).editor }
                &&& out == AppAction::Nothing
            },
            AppMessage::CancelEditProfile => {
                &&& keeps_lists(*old(state), *final(state))
                &&& keeps_open_chat(*old(state), *final(state))
                &&& closes_editor(old(state).editor, final(state).editor)
                &&& out == AppAction::Nothing
            },
            AppMessage::ConfirmProfileEdits => match old(state).editor.editing_id {
                None => *final(state) == *old(state) && out == AppAction::Nothing,
                Some(id) => if trim(old(state).editor.name@).len() == 0 {
                    &&& *final(state) == *old(state)
                    &&& (out matches AppAction::Notice { message, is_error } && message@ == "Profile names cannot be empty."@
                        && is_error)
                } else if name_taken(old(state).registry.profiles@, trim(old(state).editor.name@), Some(id@)) {
                    &&& *final(state) == *old(state)
                    &&& (out matches AppAction::Notice { message, is_error } && message@ == "A profile with that name already exists."@
                        && is_error)
                } else {
                    &&& final(state).saved_chats@ == old(state).saved_chats@
                    &&& final(state).temporary_chats@ == old(state).temporary_chats@
                    &&& final(state).running_prompts@ == old(state).running_prompts@
                    &&& final(state).show_tokens_per_second == old(state).show_tokens_per_second
                    &&& final(state).new_chat_web_search == old(state).new_chat_web_search
                    &&& keeps_open_chat(*old(state), *final(state))
                    &&& final(state).registry.active_profile_id == old(state).registry.active_profile_id
                    &&& closes_editor(old(state).editor, final(state).editor)
                    &&& out == AppAction::PersistProfiles
                    &&& match first_from(old(state).registry.profiles@, profile_with_id(id@), 0) {
                        Some(k) => {
                            let before = old(state).registry.profiles@;
                            let after = final(state).registry.profiles@;
                            &&& after.len() == before.len()
                            &&& forall|j: int| 0 <= j < before.len() && j != k ==> after[j] == before[j]
                            &&& after[k].id@ == before[k].id@
                            &&& after[k].name@ == trim(old(state).editor.name@)
                            &&& after[k].user_name@ == trim(old(state).editor.user_name@)
                            &&& after[k].custom_instructions@ == trim(old(state).editor.instructions@)
                        },
                        None => final(state).registry.profiles@ == old(state).registry.profiles@,
                    }
                },
            },
        },
{
    match message {
        AppMessage::NewChat { fresh_id } => {
            state.current_chat_id = fresh_id;
            state.temporary_chat = false;
            state.web_search_for_chat = state.new_chat_web_search;
            AppAction::OpenFreshChat { save_open: true }
        },
        AppMessage::OpenChat(id) => {
            let exists = find_prompt(&state.running_prompts, id.as_str()).is_some() || find_temporary(
                &state.temporary_chats,
                id.as_str(),
            ).is_some() || find_saved(&state.saved_chats, id.as_str()).is_some();
            if !exists {
                return AppAction::Nothing;
            }
            let (temporary, web_search) = opening_settings(state, id.as_str());
            state.current_chat_id = copy_string(id.as_str());
            state.temporary_chat = temporary;
            state.web_search_for_chat = web_search;
            AppAction::ShowChat { id }
        },
        AppMessage::ToggleChatWebSearch => {
            if find_prompt(&state.running_prompts, state.current_chat_id.as_str()).is_some() {
                return AppAction::Notice {
                    message: "Web search cannot be changed while this chat is working.",
                    is_error: false,
                };
            }
            state.web_search_for_chat = !state.web_search_for_chat;
            state.new_chat_web_search = state.web_search_for_chat;
            AppAction::PersistChatWebSearch
        },
        AppMessage::ToggleTemporaryChat { fresh_id } => {
            let was_temporary = state.temporary_chat;
            if was_temporary && find_prompt(&state.running_prompts, state.current_chat_id.as_str()).is_none() {
                let current = copy_string(state.current_chat_id.as_str());
                remove_temporary(&mut state.temporary_chats, current.as_str());
            }
            state.temporary_chat = !was_temporary;
            state.current_chat_id = fresh_id;
            state.web_search_for_chat = state.new_chat_web_search;
            AppAction::OpenFreshChat { save_open: !was_temporary }
        },
        AppMessage::DeleteChat { id, fresh_id } => {
            if find_prompt(&state.running_prompts, id.as_str()).is_some() {
                return AppAction::Notice {
                    message: "Stop that chat's response before deleting it.",
                    is_error: true,
                };
            }
            remove_saved(&mut state.saved_chats, id.as_str());
            if same_text(state.current_chat_id.as_str(), id.as_str()) {
                state.current_chat_id = fresh_id;
                state.web_search_for_chat = state.new_chat_web_search;
                AppAction::PersistSavedChats { clear_open: true }
            } else {
                AppAction::PersistSavedChats { clear_open: false }
            }
        },
        AppMessage::DeleteTemporaryChat { id, fresh_id } => {
            remove_temporary(&mut state.temporary_chats, id.as_str());
            if same_text(state.current_chat_id.as_str(), id.as_str()) {
                state.current_chat_id = fresh_id;
                state.temporary_chat = false;
                state.web_search_for_chat = state.new_chat_web_search;
                AppAction::OpenFreshChat { save_open: false }
            } else {
                AppAction::Nothing
            }
        },
        AppMessage::ToggleChatPin(id) => {
            if toggle_chat_pin(&mut state.saved_chats, id.as_str()) {
                AppAction::PersistSavedChats { clear_open: false }
            } else {
                AppAction::Nothing
            }
        },
        AppMessage::DeleteProfile(id) => {
            let busy = busy_profile_ids(state);
            proof {
                lemma_ids_contain(busy@, busy_profiles(*state), id@);
            }
            match delete_profile(&mut state.registry, &state.saved_chats, &busy, id.as_str()) {
                Ok(()) => {
                    let editing_this = match &state.editor.editing_id {
                        Some(e) => same_text(e.as_str(), id.as_str()),
                        None => false,
                    };
                    if editing_this {
                        state.editor.editing_id = None;
                    }
                    AppAction::PersistProfiles
                },
                Err(e) => AppAction::Notice {
                    message: e.message(),
                    is_error: match e {
                        ProfileDeleteError::ActiveProfile => false,
                        ProfileDeleteError::StillHasChats => true,
                    },
                },
            }
        },
        AppMessage::SelectProfile { id, fresh_id } => {
            state.editor.editing_id = None;
            select_profile(state, id, fresh_id)
        },
        AppMessage::ToggleShowTokensPerSecond => {
            state.show_tokens_per_second = !state.show_tokens_per_second;
            AppAction::PersistShowTokensPerSecond
        },
        AppMessage::CreateProfile { name, new_id, fresh_id } => {
            let name = trimmed(name.as_str());
            if name.as_str().is_empty() {
                return AppAction::Notice { message: "Give the new profile a name first.", is_error: false };
            }
            if is_name_taken(&state.registry.profiles, name.as_str(), None) {
                return AppAction::Notice {
                    message: "A profile with that name already exists.",
                    is_error: true,
                };
            }
            state.registry.profiles.push(
                Profile {
                    id: copy_string(new_id.as_str()),
                    name: copy_string(name.as_str()),
                    user_name: String::new(),
                    custom_instructions: String::new(),
                },
            );
            state.editor = ProfileEditor {
                editing_id: Some(copy_string(new_id.as_str())),
                name,
                user_name: String::new(),
                instructions: String::new(),
            };
            select_profile(state, new_id, fresh_id)
        },
        AppMessage::StartEditProfile(id) => {
            match find_profile_index(&state.registry.profiles, id.as_str()) {
                Some(k) => {
                    let p = &state.registry.profiles[k];
                    state.editor = ProfileEditor {
                        editing_id: Some(id),
                        name: copy_string(p.name.as_str()),
                        user_name: copy_string(p.user_name.as_str()),
                        instructions: copy_string(p.custom_instructions.as_str()),
                    };
                },
                None => {},
            }
            AppAction::Nothing
        },
        AppMessage::ProfileEditNameChanged(v) => {
            state.editor.name = v;
            AppAction::Nothing
        },
        AppMessage::ProfileEditUserNameChanged(v) => {
            state.editor.user_name = v;
            AppAction::Nothing
        },
        AppMessage::ProfileEditInstructionsChanged(v) => {
            state.editor.instructions = v;
            AppAction::Nothing
        },
        AppMessage::CancelEditProfile => {
            state.editor.editing_id = None;
            AppAction::Nothing
        },
        AppMessage::ConfirmProfileEdits => {
            let id = match &state.editor.editing_id {
                Some(e) => copy_string(e.as_str()),
                None => return AppAction::Nothing,
            };
            let name = trimmed(state.editor.name.as_str());
            if name.as_str().is_empty() {
                return AppAction::Notice { message: "Profile names cannot be empty.", is_error: true };
            }
            if is_name_taken(&state.registry.profiles, name.as_str(), Some(id.as_str())) {
                return AppAction::Notice {
                    message: "A profile with that name already exists.",
                    is_error: true,
                };
            }
            match find_profile_index(&state.registry.profiles, id.as_str()) {
                Some(k) => {
                    let updated = Profile {
                        id: copy_string(state.registry.profiles[k].id.as_str()),
                        name,
                        user_name: trimmed(state.editor.user_name.as_str()),
                        custom_instructions: trimmed(state.editor.instructions.as_str()),
                    };
                    state.registry.profiles.set(k, updated);
                },
                None => {},
            }
            state.editor.editing_id = None;
            AppAction::PersistProfiles
        },
    }
}

} // verus!
