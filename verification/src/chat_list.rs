//! The list of saved chats and the profiles that own them: pinning a chat,
//! finding a profile's newest chat, and deleting a profile that no chat
//! needs any more.
use vstd::prelude::*;
use crate::profiles::{spec_chat_profile_id, chat_profile_id, Profile, ProfileRegistry, SavedChat};
use crate::text::{chars_of, same_text};

verus! {

// ---------------------------------------------------------------------------
// Ordering of timestamps
// ---------------------------------------------------------------------------

/// Lexicographic order of texts by their characters' code points, the
/// order `str`'s `<` gives (UTF-8 keeps code point order byte for byte).
pub open spec fn text_less(a: Seq<char>, b: Seq<char>) -> bool
    decreases a.len(),
{
    if a.len() == 0 {
        b.len() > 0
    } else if b.len() == 0 {
        false
    } else if a[0] != b[0] {
        a[0] < b[0]
    } else {
        text_less(a.drop_first(), b.drop_first())
    }
}

proof fn lemma_text_less_step(a: Seq<char>, b: Seq<char>, i: int)
    requires
        0 <= i < a.len(),
        i < b.len(),
        a[i] == b[i],
    ensures
        text_less(a.skip(i), b.skip(i)) == text_less(a.skip(i + 1), b.skip(i + 1)),
{
    assert(a.skip(i).drop_first() =~= a.skip(i + 1));
    assert(b.skip(i).drop_first() =~= b.skip(i + 1));
}

/// Whether text `a` sorts before text `b`.
pub fn is_text_less(a: &str, b: &str) -> (out: bool)
    ensures
        out == text_less(a@, b@),
{
    let x = chars_of(a);
    let y = chars_of(b);
    let mut i: usize = 0;
    assert(x@.skip(0) =~= x@);
    assert(y@.skip(0) =~= y@);
    while i < x.len() && i < y.len()
        invariant
            i <= x@.len(),
            i <= y@.len(),
            x@ == a@,
            y@ == b@,
            text_less(a@, b@) == text_less(x@.skip(i as int), y@.skip(i as int)),
        decreases x@.len() - i,
    {
        if x[i] != y[i] {
            return x[i] < y[i];
        }
        proof {
            lemma_text_less_step(x@, y@, i as int);
        }
        i = i + 1;
    }
    i == x.len() && i < y.len()
}

// ---------------------------------------------------------------------------
// Pinning
// ---------------------------------------------------------------------------

/// The first position from `from` on of the chat with id `id`.
pub open spec fn chat_index_from(chats: Seq<SavedChat>, id: Seq<char>, from: int) -> Option<int>
    decreases chats.len() - from,
{
    if from < 0 || from >= chats.len() {
        None
    } else if chats[from].id@ == id {
        Some(from)
    } else {
        chat_index_from(chats, id, from + 1)
    }
}

/// The position of the first chat with id `id`, if any.
pub open spec fn chat_index(chats: Seq<SavedChat>, id: Seq<char>) -> Option<int> {
    chat_index_from(chats, id, 0)
}

/// How many of the chats are pinned.
pub open spec fn pinned_count(chats: Seq<SavedChat>) -> nat
    decreases chats.len(),
{
    if chats.len() == 0 {
        0
    } else {
        pinned_count(chats.drop_last()) + if chats.last().pinned {
            1nat
        } else {
            0nat
        }
    }
}

/// The first position from `from` on whose chat was updated before
/// `updated_at`, or the end of the list.
pub open spec fn older_slot(chats: Seq<SavedChat>, from: int, updated_at: Seq<char>) -> int
    decreases chats.len() - from,
{
    if from < 0 || from >= chats.len() {
        chats.len() as int
    } else if text_less(chats[from].updated_at@, updated_at) {
        from
    } else {
        older_slot(chats, from + 1, updated_at)
    }
}

/// The chat with its pin flipped.
pub open spec fn flip_pin(chat: SavedChat) -> SavedChat {
    SavedChat {
        id: chat.id,
        title: chat.title,
        updated_at: chat.updated_at,
        profile: chat.profile,
        messages: chat.messages,
        pinned: !chat.pinned,
        web_search_enabled: chat.web_search_enabled,
    }
}

/// The chat list after flipping the pin of the chat at `k`: the chat
/// leaves its place; a newly pinned chat goes right after the pinned
/// chats, and an unpinned one goes before the first chat past the pinned
/// ones that was updated earlier (newest first), or at the end.
pub open spec fn spec_toggle_pin_at(chats: Seq<SavedChat>, k: int) -> Seq<SavedChat> {
    let chat = flip_pin(chats[k]);
    let rest = chats.remove(k);
    let pins = pinned_count(rest) as int;
    let at = if chat.pinned {
        pins
    } else {
        older_slot(rest, pins, chat.updated_at@)
    };
    rest.insert(at, chat)
}

proof fn lemma_chat_index_from(chats: Seq<SavedChat>, id: Seq<char>, from: int)
    ensures
        chat_index_from(chats, id, from) matches Some(k) ==> from <= k < chats.len() && chats[k].id@ == id,
    decreases chats.len() - from,
{
    if 0 <= from < chats.len() && chats[from].id@ != id {
        lemma_chat_index_from(chats, id, from + 1);
    }
}

fn find_chat(chats: &Vec<SavedChat>, id: &str) -> (out: Option<usize>)
    ensures
        match out {
            Some(k) => chat_index(chats@, id@) == Some(k as int),
            None => chat_index(chats@, id@) is None,
        },
{
    let mut i: usize = 0;
    while i < chats.len()
        invariant
            i <= chats@.len(),
            chat_index(chats@, id@) == chat_index_from(chats@, id@, i as int),
        decreases chats@.len() - i,
    {
        if same_text(chats[i].id.as_str(), id) {
            return Some(i);
        }
        i = i + 1;
    }
    None
}

fn count_pinned(chats: &Vec<SavedChat>) -> (out: usize)
    ensures
        out == pinned_count(chats@),
{
    let mut n: usize = 0;
    let mut i: usize = 0;
    assert(chats@.take(0) =~= Seq::<SavedChat>::empty());
    while i < chats.len()
        invariant
            i <= chats@.len(),
            n == pinned_count(chats@.take(i as int)),
            n <= i,
        decreases chats@.len() - i,
    {
        assert(chats@.take(i + 1).drop_last() =~= chats@.take(i as int));
        if chats[i].pinned {
            n = n + 1;
        }
        i = i + 1;
    }
    assert(chats@.take(i as int) =~= chats@);
    n
}

fn find_older_slot(chats: &Vec<SavedChat>, from: usize, updated_at: &str) -> (out: usize)
    ensures
        out as int == older_slot(chats@, from as int, updated_at@),
{
    if from >= chats.len() {
        return chats.len();
    }
    let mut i: usize = from;
    while i < chats.len()
        invariant
            from <= i <= chats@.len(),
            older_slot(chats@, from as int, updated_at@) == older_slot(chats@, i as int, updated_at@),
        decreases chats@.len() - i,
    {
        if is_text_less(chats[i].updated_at.as_str(), updated_at) {
            return i;
        }
        i = i + 1;
    }
    chats.len()
}

/// Pins or unpins the chat with id `id` (the first one, if ids repeat)
/// and moves it to its new place; the other chats keep their order.
/// Returns whether such a chat was found; if not, nothing changes.
pub fn toggle_chat_pin(chats: &mut Vec<SavedChat>, id: &str) -> (out: bool)
    ensures
        out == (chat_index(old(chats)@, id@) is Some),
        match chat_index(old(chats)@, id@) {
            Some(k) => final(chats)@ == spec_toggle_pin_at(old(chats)@, k),
            None => final(chats)@ == old(chats)@,
        },
{
    let k = match find_chat(chats, id) {
        Some(k) => k,
        None => return false,
    };
    proof {
        lemma_chat_index_from(chats@, id@, 0);
    }
    let ghost before = chats@;
    let chat = chats.remove(k);
    let flipped = SavedChat {
        id: chat.id,
        title: chat.title,
        updated_at: chat.updated_at,
        profile: chat.profile,
        messages: chat.messages,
        pinned: !chat.pinned,
        web_search_enabled: chat.web_search_enabled,
    };
    let pins = count_pinned(chats);
    proof {
        assert(pins <= chats@.len()) by {
            lemma_pinned_count_bound(chats@);
        }
    }
    let at = if flipped.pinned {
        pins
    } else {
        find_older_slot(chats, pins, flipped.updated_at.as_str())
    };
    proof {
        lemma_older_slot_bound(chats@, pins as int, flipped.updated_at@);
    }
    chats.insert(at, flipped);
    assert(flipped == flip_pin(before[k as int]));
    true
}

proof fn lemma_pinned_count_bound(chats: Seq<SavedChat>)
    ensures
        pinned_count(chats) <= chats.len(),
    decreases chats.len(),
{
    if chats.len() > 0 {
        lemma_pinned_count_bound(chats.drop_last());
    }
}

proof fn lemma_older_slot_bound(chats: Seq<SavedChat>, from: int, updated_at: Seq<char>)
    requires
        0 <= from,
    ensures
        older_slot(chats, from, updated_at) <= chats.len(),
        from <= chats.len() ==> from <= older_slot(chats, from, updated_at),
    decreases chats.len() - from,
{
    if from < chats.len() && !text_less(chats[from].updated_at@, updated_at) {
        lemma_older_slot_bound(chats, from + 1, updated_at);
    }
}

// ---------------------------------------------------------------------------
// Deleting a profile
// ---------------------------------------------------------------------------

/// Why a profile was not deleted.
#[derive(Clone, Copy, Debug, PartialEq, Eq, Structural)]
pub enum ProfileDeleteError {
    /// The profile is the one in use.
    ActiveProfile,
    /// A saved chat, a temporary chat or a running prompt still belongs to it.
    StillHasChats,
}

impl ProfileDeleteError {
    pub open spec fn spec_message(self) -> Seq<char> {
        match self {
            ProfileDeleteError::ActiveProfile => "Switch to another profile before deleting this one."@,
            ProfileDeleteError::StillHasChats => "That profile still has chats. Delete them first."@,
        }
    }

    /// The notice shown to the user.
    pub fn message(self) -> (out: &'static str)
        ensures
            out@ == self.spec_message(),
    {
        match self {
            ProfileDeleteError::ActiveProfile => "Switch to another profile before deleting this one.",
            ProfileDeleteError::StillHasChats => "That profile still has chats. Delete them first.",
        }
    }
}

/// Whether a saved chat belongs to profile `id`.
pub open spec fn profile_has_saved_chat(chats: Seq<SavedChat>, id: Seq<char>) -> bool {
    exists|i: int| 0 <= i < chats.len() && spec_chat_profile_id(#[trigger] chats[i]) == id
}

/// Whether `id` is among the ids.
pub open spec fn ids_contain(ids: Seq<String>, id: Seq<char>) -> bool {
    exists|i: int| 0 <= i < ids.len() && (#[trigger] ids[i])@ == id
}

/// The profiles other than those with id `id`, in their order.
pub open spec fn profiles_without(profiles: Seq<Profile>, id: Seq<char>) -> Seq<Profile> {
    profiles.filter(|p: Profile| p.id@ != id)
}

fn any_saved_chat_of(chats: &Vec<SavedChat>, id: &str) -> (out: bool)
    ensures
        out == profile_has_saved_chat(chats@, id@),
{
    let mut i: usize = 0;
    while i < chats.len()
        invariant
            i <= chats@.len(),
            forall|j: int| 0 <= j < i ==> spec_chat_profile_id(#[trigger] chats@[j]) != id@,
        decreases chats@.len() - i,
    {
        if same_text(chat_profile_id(&chats[i]), id) {
            return true;
        }
        i = i + 1;
    }
    false
}

fn contains_id(ids: &Vec<String>, id: &str) -> (out: bool)
    ensures
        out == ids_contain(ids@, id@),
{
    let mut i: usize = 0;
    while i < ids.len()
        invariant
            i <= ids@.len(),
            forall|j: int| 0 <= j < i ==> (#[trigger] ids@[j])@ != id@,
        decreases ids@.len() - i,
    {
        if same_text(ids[i].as_str(), id) {
            return true;
        }
        i = i + 1;
    }
    false
}

fn remove_profiles_with_id(profiles: &mut Vec<Profile>, id: &str)
    ensures
        final(profiles)@ == profiles_without(old(profiles)@, id@),
{
    let ghost f = |p: Profile| p.id@ != id@;
    let mut kept: Vec<Profile> = Vec::new();
    let ghost original = profiles@;
    assert(original.take(0).filter(f) =~= Seq::<Profile>::empty()) by {
        reveal(Seq::filter);
    }
    while profiles.len() > 0
        invariant
            f == (|p: Profile| p.id@ != id@),
            profiles@.len() <= original.len(),
            profiles@ == original.skip(original.len() - profiles@.len()),
            kept@ == original.take(original.len() - profiles@.len()).filter(f),
        decreases profiles@.len(),
    {
        let ghost done = original.len() - profiles@.len();
        let p = profiles.remove(0);
        proof {
            reveal(Seq::filter);
            assert(p == original[done]);
            assert(original.take(done + 1).drop_last() =~= original.take(done));
            assert(profiles@ =~= original.skip(done + 1));
        }
        if !same_text(p.id.as_str(), id) {
            kept.push(p);
        }
    }
    assert(original.take(original.len() as int) =~= original);
    *profiles = kept;
}

/// Deletes profile `id`, unless it is the active profile, or a saved
/// chat belongs to it, or it is among `busy_profile_ids` (the profiles of
/// temporary chats and running prompts). On success every profile with
/// that id leaves the registry and the others keep their order; on an
/// error nothing changes.
pub fn delete_profile(
    registry: &mut ProfileRegistry,
    chats: &Vec<SavedChat>,
    busy_profile_ids: &Vec<String>,
    id: &str,
) -> (out: Result<(), ProfileDeleteError>)
    ensures
        final(registry).active_profile_id == old(registry).active_profile_id,
        id@ == old(registry).active_profile_id@ ==> out == Err::<(), ProfileDeleteError>(
            ProfileDeleteError::ActiveProfile,
        ),
        id@ != old(registry).active_profile_id@ && (profile_has_saved_chat(chats@, id@) || ids_contain(
            busy_profile_ids@,
            id@,
        )) ==> out == Err::<(), ProfileDeleteError>(ProfileDeleteError::StillHasChats),
        out is Ok <==> (id@ != old(registry).active_profile_id@ && !profile_has_saved_chat(chats@, id@)
            && !ids_contain(busy_profile_ids@, id@)),
        out is Ok ==> final(registry).profiles@ == profiles_without(old(registry).profiles@, id@),
        out is Err ==> final(registry).profiles@ == old(registry).profiles@,
{
    if same_text(id, registry.active_profile_id.as_str()) {
        return Err(ProfileDeleteError::ActiveProfile);
    }
    if any_saved_chat_of(chats, id) || contains_id(busy_profile_ids, id) {
        return Err(ProfileDeleteError::StillHasChats);
    }
    remove_profiles_with_id(&mut registry.profiles, id);
    Ok(())
}

// ---------------------------------------------------------------------------
// A profile's newest chat
// ---------------------------------------------------------------------------

proof fn lemma_text_less_asymmetric(a: Seq<char>, b: Seq<char>)
    ensures
        text_less(a, b) ==> !text_less(b, a),
    decreases a.len(),
{
    if a.len() > 0 && b.len() > 0 && a[0] == b[0] {
        lemma_text_less_asymmetric(a.drop_first(), b.drop_first());
    }
}

proof fn lemma_text_less_transitive(a: Seq<char>, b: Seq<char>, c: Seq<char>)
    requires
        text_less(a, b),
        text_less(b, c),
    ensures
        text_less(a, c),
    decreases a.len(),
{
    if a.len() > 0 && b.len() > 0 && c.len() > 0 && a[0] == b[0] && b[0] == c[0] {
        lemma_text_less_transitive(a.drop_first(), b.drop_first(), c.drop_first());
    }
}

proof fn lemma_text_less_total(a: Seq<char>, b: Seq<char>)
    ensures
        !text_less(a, b) && !text_less(b, a) ==> a == b,
    decreases a.len(),
{
    if a.len() > 0 && b.len() > 0 && a[0] == b[0] {
        lemma_text_less_total(a.drop_first(), b.drop_first());
        assert(a =~= seq![a[0]] + a.drop_first());
        assert(b =~= seq![b[0]] + b.drop_first());
    }
}

/// The newest of the first `n` chats that belong to profile `id`: each
/// chat of the profile replaces the one found so far unless it was
/// updated earlier, so among equally new chats the last one wins.
pub open spec fn newest_among(chats: Seq<SavedChat>, id: Seq<char>, n: int) -> Option<int>
    decreases n,
{
    if n <= 0 || n > chats.len() {
        None
    } else {
        let prev = newest_among(chats, id, n - 1);
        if spec_chat_profile_id(chats[n - 1]) != id {
            prev
        } else {
            match prev {
                None => Some(n - 1),
                Some(b) => if text_less(chats[n - 1].updated_at@, chats[b].updated_at@) {
                    Some(b)
                } else {
                    Some(n - 1)
                },
            }
        }
    }
}

/// What `newest_among` picks: a chat of the profile that no chat of the
/// profile is newer than, and newer than every later chat of the profile;
/// `None` when the profile has no chat.
proof fn lemma_newest_among(chats: Seq<SavedChat>, id: Seq<char>, n: int)
    requires
        0 <= n <= chats.len(),
    ensures
        match newest_among(chats, id, n) {
            Some(b) => {
                &&& 0 <= b < n
                &&& spec_chat_profile_id(chats[b]) == id
                &&& forall|j: int|
                    0 <= j < n && spec_chat_profile_id(#[trigger] chats[j]) == id ==> !text_less(
                        chats[b].updated_at@,
                        chats[j].updated_at@,
                    )
                &&& forall|j: int|
                    b < j < n && spec_chat_profile_id(#[trigger] chats[j]) == id ==> text_less(
                        chats[j].updated_at@,
                        chats[b].updated_at@,
                    )
            },
            None => forall|j: int| 0 <= j < n ==> spec_chat_profile_id(#[trigger] chats[j]) != id,
        },
    decreases n,
{
    if n > 0 {
        lemma_newest_among(chats, id, n - 1);
        let c = chats[n - 1];
        if spec_chat_profile_id(c) == id {
            match newest_among(chats, id, n - 1) {
                None => {
                    assert(newest_among(chats, id, n) == Some(n - 1));
                    lemma_text_less_asymmetric(c.updated_at@, c.updated_at@);
                },
                Some(b) => {
                    let ub = chats[b].updated_at@;
                    let uc = c.updated_at@;
                    lemma_text_less_asymmetric(uc, ub);
                    lemma_text_less_total(uc, ub);
                    lemma_text_less_asymmetric(uc, uc);
                    if text_less(uc, ub) {
                        assert(newest_among(chats, id, n) == Some(b));
                        assert forall|j: int|
                            b < j < n && spec_chat_profile_id(#[trigger] chats[j]) == id implies text_less(
                            chats[j].updated_at@,
                            ub,
                        ) by {
                            if j == n - 1 {
                                assert(chats[j] == c);
                            }
                        }
                    } else {
                        assert(newest_among(chats, id, n) == Some(n - 1));
                        assert forall|j: int|
                            0 <= j < n && spec_chat_profile_id(#[trigger] chats[j]) == id implies !text_less(
                            uc,
                            chats[j].updated_at@,
                        ) by {
                            if j < n - 1 {
                                let uj = chats[j].updated_at@;
                                assert(!text_less(ub, uj));
                                if text_less(uc, uj) {
                                    if uc != ub {
                                        lemma_text_less_transitive(ub, uc, uj);
                                    }
                                }
                            } else {
                                assert(chats[j] == c);
                            }
                        }
                    }
                },
            }
        } else {
            assert(newest_among(chats, id, n) == newest_among(chats, id, n - 1));
        }
    }
}

/// The newest saved chat of profile `id` (by `updated_at`, the last of
/// equally new ones), or `None` when the profile has none. Switching to a
/// profile opens this chat.
pub fn newest_chat_of_profile(chats: &Vec<SavedChat>, id: &str) -> (out: Option<usize>)
    ensures
        out matches Some(b) ==> newest_among(chats@, id@, chats@.len() as int) == Some(b as int),
        out is None ==> newest_among(chats@, id@, chats@.len() as int) is None,
        match out {
            Some(b) => {
                &&& b < chats@.len()
                &&& spec_chat_profile_id(chats@[b as int]) == id@
                &&& forall|j: int|
                    0 <= j < chats@.len() && spec_chat_profile_id(#[trigger] chats@[j]) == id@
                        ==> !text_less(chats@[b as int].updated_at@, chats@[j].updated_at@)
                &&& forall|j: int|
                    b < j < chats@.len() && spec_chat_profile_id(#[trigger] chats@[j]) == id@
                        ==> text_less(chats@[j].updated_at@, chats@[b as int].updated_at@)
            },
            None => !profile_has_saved_chat(chats@, id@),
        },
{
    let mut best: Option<usize> = None;
    let mut i: usize = 0;
    while i < chats.len()
        invariant
            i <= chats@.len(),
            match best {
                Some(b) => newest_among(chats@, id@, i as int) == Some(b as int) && b < i,
                None => newest_among(chats@, id@, i as int) is None,
            },
        decreases chats@.len() - i,
    {
        if same_text(chat_profile_id(&chats[i]), id) {
            best = match best {
                None => Some(i),
                Some(b) => if is_text_less(chats[i].updated_at.as_str(), chats[b].updated_at.as_str()) {
                    Some(b)
                } else {
                    Some(i)
                },
            };
        }
        i = i + 1;
    }
    proof {
        lemma_newest_among(chats@, id@, chats@.len() as int);
    }
    best
}

} // verus!
