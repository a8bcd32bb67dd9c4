//! Profiles and saved chats: the profile registry, and moving chats saved
//! before profiles existed into the legacy profile.
use vstd::prelude::*;
use crate::text::{copy_string, same_text};

verus! {

/// The id of the profile that owns chats saved before profiles existed.
pub const LEGACY_PROFILE_ID: &'static str = "legacy";

/// The name that profile is shown with.
pub const LEGACY_PROFILE_NAME: &'static str = "Outdated Profile";

/// A user profile: its name, the name the model calls the user, and
/// instructions added to every chat.
#[derive(Clone, Debug)]
pub struct Profile {
    pub id: String,
    pub name: String,
    pub user_name: String,
    pub custom_instructions: String,
}

/// All profiles and the one in use.
#[derive(Clone, Debug)]
pub struct ProfileRegistry {
    pub profiles: Vec<Profile>,
    pub active_profile_id: String,
}

impl Default for ProfileRegistry {
    fn default() -> (out: Self)
        ensures
            out.profiles@.len() == 0,
            out.active_profile_id@.len() == 0,
    {
        ProfileRegistry { profiles: Vec::new(), active_profile_id: String::new() }
    }
}

/// One message of a saved chat.
#[derive(Clone, Debug)]
pub struct SavedMessage {
    /// `user`, `bot`, or another role name.
    pub role: String,
    pub text: String,
}

/// A chat as it is saved.
#[derive(Clone, Debug)]
pub struct SavedChat {
    pub id: String,
    pub title: String,
    pub updated_at: String,
    /// The owning profile; `None` for chats saved before profiles existed.
    pub profile: Option<String>,
    pub messages: Vec<SavedMessage>,
    /// Pinned chats are listed first.
    pub pinned: bool,
    /// The chat's own web-search choice, when it made one.
    pub web_search_enabled: Option<bool>,
}

/// The profile a chat belongs to.
pub open spec fn spec_chat_profile_id(chat: SavedChat) -> Seq<char> {
    match chat.profile {
        Some(p) => p@,
        None => LEGACY_PROFILE_ID@,
    }
}

/// The profile a chat belongs to: its own, or the legacy profile for a chat
/// saved before profiles existed.
pub fn chat_profile_id(chat: &SavedChat) -> (out: &str)
    ensures
        out@ == spec_chat_profile_id(*chat),
{
    match &chat.profile {
        Some(p) => p.as_str(),
        None => LEGACY_PROFILE_ID,
    }
}

/// Whether some profile has the id `id`.
pub open spec fn has_profile(profiles: Seq<Profile>, id: Seq<char>) -> bool {
    exists|i: int| 0 <= i < profiles.len() && (#[trigger] profiles[i]).id@ == id
}

/// The legacy profile as a value: its id and name, no user name and no instructions.
pub open spec fn is_legacy_profile(p: Profile) -> bool {
    &&& p.id@ == LEGACY_PROFILE_ID@
    &&& p.name@ == LEGACY_PROFILE_NAME@
    &&& p.user_name@.len() == 0
    &&& p.custom_instructions@.len() == 0
}

/// A registry that holds the legacy profile and whose active id names one of its profiles.
pub open spec fn registry_is_consistent(r: ProfileRegistry) -> bool {
    &&& has_profile(r.profiles@, LEGACY_PROFILE_ID@)
    &&& has_profile(r.profiles@, r.active_profile_id@)
}

pub(crate) fn find_profile(profiles: &Vec<Profile>, id: &str) -> (out: bool)
    ensures
        out == has_profile(profiles@, id@),
{
    let mut i: usize = 0;
    while i < profiles.len()
        invariant
            i <= profiles@.len(),
            forall|j: int| 0 <= j < i ==> (#[trigger] profiles@[j]).id@ != id@,
        decreases profiles@.len() - i,
    {
        if same_text(profiles[i].id.as_str(), id) {
            return true;
        }
        i = i + 1;
    }
    false
}

/// Makes sure the registry holds the legacy profile (added first when
/// missing) and that the active profile exists (else the legacy profile
/// becomes active). Returns whether anything changed.
pub fn ensure_legacy_profile(registry: &mut ProfileRegistry) -> (changed: bool)
    ensures
        ({
            let had_legacy = has_profile(old(registry).profiles@, LEGACY_PROFILE_ID@);
            let profiles = final(registry).profiles@;
            &&& had_legacy ==> profiles == old(registry).profiles@
            &&& !had_legacy ==> profiles.len() == old(registry).profiles@.len() + 1
                && is_legacy_profile(profiles[0]) && profiles.skip(1) == old(registry).profiles@
            &&& has_profile(profiles, old(registry).active_profile_id@)
                ==> final(registry).active_profile_id == old(registry).active_profile_id
            &&& !has_profile(profiles, old(registry).active_profile_id@)
                ==> final(registry).active_profile_id@ == LEGACY_PROFILE_ID@
            &&& changed == (!had_legacy || !has_profile(profiles, old(registry).active_profile_id@))
            &&& registry_is_consistent(*final(registry))
            &&& registry_is_consistent(*old(registry)) ==> !changed && profiles == old(
                registry,
            ).profiles@ && final(registry).active_profile_id == old(registry).active_profile_id
        }),
{
    let mut changed = false;
    let had_legacy = find_profile(&registry.profiles, LEGACY_PROFILE_ID);
    if !had_legacy {
        let legacy = Profile {
            id: copy_string(LEGACY_PROFILE_ID),
            name: copy_string(LEGACY_PROFILE_NAME),
            user_name: String::new(),
            custom_instructions: String::new(),
        };
        registry.profiles.insert(0, legacy);
        assert(registry.profiles@[0].id@ == LEGACY_PROFILE_ID@);
        assert(registry.profiles@.skip(1) =~= old(registry).profiles@);
        changed = true;
    }
    assert(has_profile(registry.profiles@, LEGACY_PROFILE_ID@)) by {
        if had_legacy {
        } else {
            assert(registry.profiles@[0].id@ == LEGACY_PROFILE_ID@);
        }
    }
    let active_is_known = find_profile(&registry.profiles, registry.active_profile_id.as_str());
    if !active_is_known {
        registry.active_profile_id = copy_string(LEGACY_PROFILE_ID);
        changed = true;
    }
    changed
}

/// Every chat without a profile now belongs to the legacy profile; the
/// others are untouched. Returns whether any chat changed.
pub fn assign_legacy_profile_ids(saved_chats: &mut Vec<SavedChat>) -> (changed: bool)
    ensures
        final(saved_chats)@.len() == old(saved_chats)@.len(),
        forall|i: int|
            0 <= i < old(saved_chats)@.len() ==> {
                let before = #[trigger] old(saved_chats)@[i];
                let after = final(saved_chats)@[i];
                &&& after.id == before.id
                &&& after.title == before.title
                &&& after.updated_at == before.updated_at
                &&& after.messages == before.messages
                &&& after.pinned == before.pinned
                &&& after.web_search_enabled == before.web_search_enabled
                &&& before.profile is Some ==> after.profile == before.profile
                &&& before.profile is None ==> (after.profile matches Some(p) && p@
                    == LEGACY_PROFILE_ID@)
            },
        changed == exists|i: int|
            0 <= i < old(saved_chats)@.len() && (#[trigger] old(saved_chats)@[i]).profile is None,
{
    let mut changed = false;
    let mut i: usize = 0;
    while i < saved_chats.len()
        invariant
            i <= saved_chats@.len(),
            saved_chats@.len() == old(saved_chats)@.len(),
            forall|j: int|
                i <= j < saved_chats@.len() ==> #[trigger] saved_chats@[j] == old(saved_chats)@[j],
            forall|j: int|
                0 <= j < i ==> {
                    let before = #[trigger] old(saved_chats)@[j];
                    let after = saved_chats@[j];
                    &&& after.id == before.id
                    &&& after.title == before.title
                    &&& after.updated_at == before.updated_at
                    &&& after.messages == before.messages
                    &&& after.pinned == before.pinned
                    &&& after.web_search_enabled == before.web_search_enabled
                &&& after.web_search_enabled == before.web_search_enabled
                    &&& before.profile is Some ==> after.profile == before.profile
                    &&& before.profile is None ==> (after.profile matches Some(p) && p@
                        == LEGACY_PROFILE_ID@)
                },
            changed == exists|j: int| 0 <= j < i && (#[trigger] old(saved_chats)@[j]).profile is None,
        decreases saved_chats@.len() - i,
    {
        if saved_chats[i].profile.is_none() {
            let chat = saved_chats.remove(i);
            let updated = SavedChat {
                id: chat.id,
                title: chat.title,
                updated_at: chat.updated_at,
                profile: Some(copy_string(LEGACY_PROFILE_ID)),
                messages: chat.messages,
                pinned: chat.pinned,
                web_search_enabled: chat.web_search_enabled,
            };
            saved_chats.insert(i, updated);
            changed = true;
        }
        i = i + 1;
    }
    changed
}

} // verus!
