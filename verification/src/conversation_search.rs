//! Searching the saved conversations: the query's distinctive terms,
//! case-insensitive matching, and excerpts around a match.
use vstd::prelude::*;
use crate::text::{
    char_lowercase, char_to_lowercase, chars_of, copy_string, find, find_chars, is_alphanumeric,
    is_alphanumeric_char, lemma_find_spec, prefix_chars, push_char, string_of, take_chars,
    to_lowercase, unicode_lowercase,
};
use crate::web_search::arguments::{ArgumentValue, ToolArguments};
use crate::profiles::{SavedChat, SavedMessage, spec_chat_profile_id};
use crate::text::{contains, str_contains, trim};

verus! {

/// The characters of an excerpt.
pub const CONVERSATION_EXCERPT_CHARS: usize = 300;

/// The most excerpts shown per conversation.
pub const MAX_EXCERPTS_PER_CONVERSATION: usize = 3;

/// The most terms a query is reduced to.
pub const MAX_QUERY_TERMS: usize = 5;

/// Conversations returned when the call names no limit.
pub const DEFAULT_LIMIT: usize = 5;

/// The most conversations a call may ask for.
pub const MAX_LIMIT: usize = 20;

// ---------------------------------------------------------------------------
// Limit
// ---------------------------------------------------------------------------

/// How many conversations a call returns: its `limit` when that is an
/// integer from 1 to `MAX_LIMIT`, else `DEFAULT_LIMIT`.
pub open spec fn spec_parse_limit(arguments: ToolArguments) -> int {
    match arguments.spec_get("limit"@) {
        Some(ArgumentValue::Unsigned(v)) => if 1 <= v <= MAX_LIMIT {
            v as int
        } else {
            DEFAULT_LIMIT as int
        },
        _ => DEFAULT_LIMIT as int,
    }
}

pub fn parse_limit(arguments: &ToolArguments) -> (out: usize)
    ensures
        out as int == spec_parse_limit(*arguments),
{
    match arguments.get("limit") {
        Some(ArgumentValue::Unsigned(v)) => if 1 <= *v && *v <= MAX_LIMIT as u64 {
            *v as usize
        } else {
            DEFAULT_LIMIT
        },
        _ => DEFAULT_LIMIT,
    }
}

// ---------------------------------------------------------------------------
// Query terms
// ---------------------------------------------------------------------------

/// Words that say nothing about a conversation's topic.
pub open spec fn stop_words() -> Seq<Seq<char>> {
    seq![
        "a"@, "about"@, "an"@, "and"@, "before"@, "chat"@, "conversation"@, "did"@, "discuss"@,
        "discussed"@, "do"@, "find"@, "for"@, "from"@, "have"@, "how"@, "i"@, "in"@, "is"@,
        "it"@, "me"@, "my"@, "of"@, "on"@, "our"@, "past"@, "please"@, "previous"@, "recall"@,
        "search"@, "something"@, "talk"@, "talked"@, "tell"@, "that"@, "the"@, "this"@, "to"@,
        "we"@, "what"@, "when"@, "where"@, "which"@, "who"@, "with"@, "you"@,
    ]
}

fn stop_word_list() -> (out: Vec<&'static str>)
    ensures
        out@.map_values(|w: &'static str| w@) == stop_words(),
{
    let v: Vec<&'static str> = vec![
        "a", "about", "an", "and", "before", "chat", "conversation", "did", "discuss", "discussed",
        "do", "find", "for", "from", "have", "how", "i", "in", "is", "it", "me", "my", "of", "on",
        "our", "past", "please", "previous", "recall", "search", "something", "talk", "talked",
        "tell", "that", "the", "this", "to", "we", "what", "when", "where", "which", "who", "with",
        "you",
    ];
    assert(v@.map_values(|w: &'static str| w@) =~= stop_words());
    v
}

/// `s` split at every character that is not alphanumeric.
pub open spec fn split_words(s: Seq<char>) -> Seq<Seq<char>>
    decreases s.len(),
{
    if s.len() == 0 {
        seq![Seq::<char>::empty()]
    } else {
        let p = split_words(s.drop_last());
        if !is_alphanumeric_char(s.last()) {
            p.push(Seq::<char>::empty())
        } else {
            p.update(p.len() - 1, p.last().push(s.last()))
        }
    }
}

proof fn lemma_split_words_nonempty(s: Seq<char>)
    ensures
        split_words(s).len() >= 1,
    decreases s.len(),
{
    if s.len() > 0 {
        lemma_split_words_nonempty(s.drop_last());
    }
}

/// The terms kept from `pieces` after `acc`: non-empty, not a stop word, at
/// least two characters, not seen before, and at most `MAX_QUERY_TERMS`.
pub open spec fn collect_terms(pieces: Seq<Seq<char>>, acc: Seq<Seq<char>>) -> Seq<Seq<char>>
    decreases pieces.len(),
{
    if pieces.len() == 0 || acc.len() >= MAX_QUERY_TERMS {
        acc
    } else {
        let p = pieces[0];
        let next = if p.len() < 2 || stop_words().contains(p) || acc.contains(p) {
            acc
        } else {
            acc.push(p)
        };
        collect_terms(pieces.drop_first(), next)
    }
}

/// The distinctive terms of a query: its lowercased alphanumeric words,
/// without stop words, one-character words and repeats, at most five.
pub open spec fn spec_query_terms(query: Seq<char>) -> Seq<Seq<char>> {
    collect_terms(split_words(unicode_lowercase(query)), Seq::empty())
}

fn is_stop_word(word: &[char], stops: &Vec<&'static str>) -> (out: bool)
    requires
        stops@.map_values(|w: &'static str| w@) == stop_words(),
    ensures
        out == stop_words().contains(word@),
{
    let mut i: usize = 0;
    while i < stops.len()
        invariant
            i <= stops@.len(),
            stops@.map_values(|w: &'static str| w@) == stop_words(),
            forall|j: int| 0 <= j < i ==> stop_words()[j] != word@,
        decreases stops@.len() - i,
    {
        assert(stop_words()[i as int] == stops@[i as int]@);
        if crate::text::slices_equal(chars_of(stops[i]).as_slice(), word) {
            assert(stop_words()[i as int] == word@);
            return true;
        }
        i = i + 1;
    }
    false
}

pub open spec fn term_views(terms: Seq<String>) -> Seq<Seq<char>> {
    terms.map_values(|t: String| t@)
}

fn has_term(terms: &Vec<String>, word: &[char]) -> (out: bool)
    ensures
        out == term_views(terms@).contains(word@),
{
    let mut i: usize = 0;
    while i < terms.len()
        invariant
            i <= terms@.len(),
            forall|j: int| 0 <= j < i ==> term_views(terms@)[j] != word@,
        decreases terms@.len() - i,
    {
        if crate::text::slices_equal(chars_of(terms[i].as_str()).as_slice(), word) {
            assert(term_views(terms@)[i as int] == word@);
            return true;
        }
        i = i + 1;
    }
    false
}

pub open spec fn piece_views(parts: Seq<Vec<char>>) -> Seq<Seq<char>> {
    parts.map_values(|v: Vec<char>| v@)
}

fn split_words_exec(s: &[char]) -> (out: Vec<Vec<char>>)
    ensures
        piece_views(out@) == split_words(s@),
{
    let mut out: Vec<Vec<char>> = Vec::new();
    out.push(Vec::new());
    let mut i: usize = 0;
    assert(piece_views(out@) =~= split_words(s@.take(0)));
    while i < s.len()
        invariant
            i <= s.len(),
            out@.len() >= 1,
            piece_views(out@) == split_words(s@.take(i as int)),
        decreases s.len() - i,
    {
        let ghost t = s@.take(i + 1);
        assert(t.drop_last() == s@.take(i as int));
        assert(t.last() == s@[i as int]);
        if !is_alphanumeric(s[i]) {
            out.push(Vec::new());
            assert(piece_views(out@) =~= split_words(s@.take(i as int)).push(Seq::<char>::empty()));
        } else {
            let last = out.len() - 1;
            let mut piece = out[last].clone();
            assert(piece@ == out@[last as int]@);
            piece.push(s[i]);
            out.set(last, piece);
            let ghost p = split_words(s@.take(i as int));
            assert(piece_views(out@) =~= p.update(p.len() - 1, p.last().push(s@[i as int])));
        }
        i = i + 1;
    }
    assert(s@.take(s.len() as int) == s@);
    out
}

/// The distinctive terms of a query, lowercased, in the order they appear.
pub fn normalized_query_terms(query: &str) -> (out: Vec<String>)
    ensures
        term_views(out@) == spec_query_terms(query@),
{
    let lower = chars_of(to_lowercase(query).as_str());
    let stops = stop_word_list();
    let pieces = split_words_exec(lower.as_slice());
    let ghost pv = piece_views(pieces@);
    let mut terms: Vec<String> = Vec::new();
    let mut k: usize = 0;
    assert(pv.skip(0) == pv);
    assert(term_views(terms@) =~= Seq::<Seq<char>>::empty());
    while k < pieces.len() && terms.len() < MAX_QUERY_TERMS
        invariant
            k <= pieces@.len(),
            pv == piece_views(pieces@),
            pv == split_words(unicode_lowercase(query@)),
            stops@.map_values(|w: &'static str| w@) == stop_words(),
            collect_terms(pv, Seq::empty()) == collect_terms(pv.skip(k as int), term_views(terms@)),
        decreases pieces@.len() - k,
    {
        let ghost before = term_views(terms@);
        let ghost rest = pv.skip(k as int);
        assert(rest[0] == pieces@[k as int]@);
        assert(rest.drop_first() == pv.skip(k + 1));
        let word = pieces[k].as_slice();
        if !(word.len() < 2 || is_stop_word(word, &stops) || has_term(&terms, word)) {
            terms.push(string_of(word));
            assert(term_views(terms@) =~= before.push(word@));
        }
        k = k + 1;
    }
    proof {
        if k == pieces@.len() {
            assert(pv.skip(k as int) == Seq::<Seq<char>>::empty());
        }
    }
    terms
}

// ---------------------------------------------------------------------------
// Matching
// ---------------------------------------------------------------------------

/// The text with every character replaced by its lowercase mapping.
pub open spec fn folded(t: Seq<char>) -> Seq<char>
    decreases t.len(),
{
    if t.len() == 0 {
        Seq::empty()
    } else {
        folded(t.drop_last()) + char_lowercase(t.last())
    }
}

/// For each character of `folded(t)`, the index of the character of `t` it came from.
pub open spec fn folded_origin(t: Seq<char>) -> Seq<int>
    decreases t.len(),
{
    if t.len() == 0 {
        Seq::empty()
    } else {
        folded_origin(t.drop_last()) + Seq::new(
            char_lowercase(t.last()).len(),
            |k: int| t.len() - 1,
        )
    }
}

/// The range of characters of `text` (start, end) whose lowercase form first
/// contains `needle_lower`.
pub open spec fn spec_char_range(text: Seq<char>, needle_lower: Seq<char>) -> Option<(int, int)> {
    if needle_lower.len() == 0 {
        None
    } else {
        match find(folded(text), needle_lower) {
            None => None,
            Some(f) => Some(
                (folded_origin(text)[f], folded_origin(text)[f + needle_lower.len() - 1] + 1),
            ),
        }
    }
}

proof fn lemma_folded_lengths(t: Seq<char>)
    ensures
        folded(t).len() == folded_origin(t).len(),
        forall|k: int| 0 <= k < folded_origin(t).len() ==> 0 <= #[trigger] folded_origin(t)[k] < t.len(),
    decreases t.len(),
{
    if t.len() > 0 {
        lemma_folded_lengths(t.drop_last());
    }
}

/// The range of characters of `text` where `needle_lower` first occurs,
/// ignoring case: the text is compared in its lowercase form, character
/// by character.
pub fn case_insensitive_char_range(text: &[char], needle_lower: &[char]) -> (out: Option<(usize, usize)>)
    ensures
        match out {
            Some((s, e)) => spec_char_range(text@, needle_lower@) == Some((s as int, e as int)),
            None => spec_char_range(text@, needle_lower@) is None,
        },
        out matches Some((s, e)) ==> s < e <= text@.len(),
{
    if needle_lower.len() == 0 {
        return None;
    }
    let mut folded_text: Vec<char> = Vec::new();
    let mut origin: Vec<usize> = Vec::new();
    let mut i: usize = 0;
    while i < text.len()
        invariant
            i <= text@.len(),
            folded_text@ == folded(text@.take(i as int)),
            origin@.map_values(|o: usize| o as int) == folded_origin(text@.take(i as int)),
            forall|k: int| 0 <= k < origin@.len() ==> #[trigger] origin@[k] < i,
            forall|a: int, b: int| 0 <= a <= b < origin@.len() ==> origin@[a] <= origin@[b],
        decreases text@.len() - i,
    {
        let ghost t = text@.take(i + 1);
        assert(t.drop_last() == text@.take(i as int));
        assert(t.last() == text@[i as int]);
        let lower = char_to_lowercase(text[i]);
        let ghost before_origin = origin@;
        let mut k: usize = 0;
        while k < lower.len()
            invariant
                k <= lower@.len(),
                i < text@.len(),
                folded_text@ == folded(text@.take(i as int)) + lower@.take(k as int),
                origin@ == before_origin + Seq::new(k as nat, |j: int| i),
                forall|m: int| 0 <= m < before_origin.len() ==> #[trigger] before_origin[m] < i,
                forall|a: int, b: int|
                    0 <= a <= b < before_origin.len() ==> before_origin[a] <= before_origin[b],
                forall|a: int, b: int| 0 <= a <= b < origin@.len() ==> origin@[a] <= origin@[b],
                forall|m: int| 0 <= m < origin@.len() ==> #[trigger] origin@[m] <= i,
            decreases lower@.len() - k,
        {
            folded_text.push(lower[k]);
            origin.push(i);
            k = k + 1;
            assert(lower@.take(k as int) == lower@.take(k - 1).push(lower@[k - 1]));
            assert(Seq::new(k as nat, |j: int| i) =~= Seq::new((k - 1) as nat, |j: int| i).push(i));
        }
        assert(lower@.take(lower@.len() as int) == lower@);
        assert(origin@.map_values(|o: usize| o as int) =~= folded_origin(t)) by {
            assert(before_origin.map_values(|o: usize| o as int) == folded_origin(text@.take(i as int)));
        }
        i = i + 1;
    }
    assert(text@.take(text@.len() as int) == text@);
    proof {
        lemma_folded_lengths(text@);
        lemma_find_spec(folded_text@, needle_lower@);
    }
    let start = find_chars(folded_text.as_slice(), needle_lower)?;
    assert(folded_text@ == folded(text@));
    assert(start + needle_lower@.len() <= folded_text@.len());
    assert(origin@.len() == folded_text@.len()) by {
        assert(origin@.map_values(|o: usize| o as int).len() == origin@.len());
    }
    let last = start + needle_lower.len() - 1;
    assert(origin@[start as int] as int == folded_origin(text@)[start as int]);
    assert(origin@[last as int] as int == folded_origin(text@)[last as int]);
    Some((origin[start], origin[last] + 1))
}

// ---------------------------------------------------------------------------
// Excerpts
// ---------------------------------------------------------------------------

/// The earliest-starting range among the needles' ranges; the first such on a tie.
pub open spec fn earliest_range(text: Seq<char>, needles: Seq<Seq<char>>) -> Option<(int, int)>
    decreases needles.len(),
{
    if needles.len() == 0 {
        None
    } else {
        let rest = earliest_range(text, needles.drop_last());
        match spec_char_range(text, needles.last()) {
            None => rest,
            Some(r) => match rest {
                Some(b) => if r.0 < b.0 {
                    Some(r)
                } else {
                    rest
                },
                None => Some(r),
            },
        }
    }
}

/// An excerpt is centred on the earliest match: the chosen range is the
/// first range of one of the needles, it starts no later than the first
/// occurrence of any needle that occurs in the text, and among needles
/// whose first occurrence starts there the first needle wins; with no
/// occurrence at all there is no range.
pub proof fn law_excerpt_centres_on_the_earliest_match(text: Seq<char>, needles: Seq<Seq<char>>)
    ensures
        match earliest_range(text, needles) {
            None => forall|i: int| 0 <= i < needles.len() ==> spec_char_range(text, #[trigger] needles[i]) is None,
            Some(r) => {
                &&& exists|i: int|
                    0 <= i < needles.len() && spec_char_range(text, #[trigger] needles[i]) == Some(r)
                        && forall|j: int|
                        0 <= j < i ==> match spec_char_range(text, #[trigger] needles[j]) {
                            Some(q) => q.0 > r.0,
                            None => true,
                        }
                &&& forall|i: int|
                    0 <= i < needles.len() ==> match spec_char_range(text, #[trigger] needles[i]) {
                        Some(q) => r.0 <= q.0,
                        None => true,
                    }
            },
        },
    decreases needles.len(),
{
    if needles.len() > 0 {
        let rest = needles.drop_last();
        law_excerpt_centres_on_the_earliest_match(text, rest);
        let last = needles.len() - 1;
        assert(needles[last] == needles.last());
        assert forall|i: int| 0 <= i < rest.len() implies #[trigger] needles[i] == rest[i] by {}
        match earliest_range(text, rest) {
            Some(b) => {
                let i = choose|i: int|
                    0 <= i < rest.len() && spec_char_range(text, #[trigger] rest[i]) == Some(b) && forall|j: int|
                        0 <= j < i ==> match spec_char_range(text, #[trigger] rest[j]) {
                            Some(q) => q.0 > b.0,
                            None => true,
                        };
                assert(needles[i] == rest[i]);
                match spec_char_range(text, needles.last()) {
                    Some(r) => if r.0 < b.0 {
                        assert forall|j: int| 0 <= j < last implies match spec_char_range(text, #[trigger] needles[j]) {
                            Some(q) => q.0 > r.0,
                            None => true,
                        } by {
                            assert(needles[j] == rest[j]);
                        }
                    } else {
                        assert forall|j: int| 0 <= j < i implies match spec_char_range(text, #[trigger] needles[j]) {
                            Some(q) => q.0 > b.0,
                            None => true,
                        } by {
                            assert(needles[j] == rest[j]);
                        }
                    },
                    None => {
                        assert forall|j: int| 0 <= j < i implies match spec_char_range(text, #[trigger] needles[j]) {
                            Some(q) => q.0 > b.0,
                            None => true,
                        } by {
                            assert(needles[j] == rest[j]);
                        }
                    },
                }
            },
            None => {
                assert forall|j: int| 0 <= j < last implies spec_char_range(text, #[trigger] needles[j]) is None by {
                    assert(needles[j] == rest[j]);
                }
            },
        }
    }
}

pub open spec fn min(a: int, b: int) -> int {
    if a < b {
        a
    } else {
        b
    }
}

/// An excerpt of at most `max_chars` characters (plus an ellipsis on each
/// cut side) centred on the earliest match of a needle, or the start of the
/// text when nothing matches.
pub open spec fn spec_build_excerpt(text: Seq<char>, needles: Seq<Seq<char>>, max_chars: int) -> Seq<char> {
    match earliest_range(text, needles) {
        None => prefix_chars(text, max_chars as nat),
        Some((ms, me)) => {
            let match_end = min(me, ms + max_chars);
            let match_len = match_end - ms;
            let context = (max_chars - match_len) / 2;
            let start = if ms > context {
                ms - context
            } else {
                0
            };
            let end = min(match_end + context, text.len() as int);
            (if start > 0 {
                seq!['…']
            } else {
                Seq::empty()
            }) + text.subrange(start, end) + (if end < text.len() {
                seq!['…']
            } else {
                Seq::empty()
            })
        },
    }
}

pub open spec fn needle_views(needles: Seq<&str>) -> Seq<Seq<char>> {
    needles.map_values(|n: &str| n@)
}

/// An excerpt of `text` around the earliest match of any of the
/// (lowercase) needles.
pub fn build_excerpt(text: &str, needles_lower: &[&str], max_chars: usize) -> (out: String)
    ensures
        out@ == spec_build_excerpt(text@, needle_views(needles_lower@), max_chars as int),
{
    let chars = chars_of(text);
    let mut best: Option<(usize, usize)> = None;
    let mut i: usize = 0;
    while i < needles_lower.len()
        invariant
            i <= needles_lower@.len(),
            chars@ == text@,
            match best {
                Some((s, e)) => earliest_range(text@, needle_views(needles_lower@).take(i as int))
                    == Some((s as int, e as int)) && s < e <= chars@.len(),
                None => earliest_range(text@, needle_views(needles_lower@).take(i as int)) is None,
            },
        decreases needles_lower@.len() - i,
    {
        let ghost n = needle_views(needles_lower@).take(i + 1);
        assert(n.drop_last() == needle_views(needles_lower@).take(i as int));
        assert(n.last() == needles_lower@[i as int]@);
        let needle = chars_of(needles_lower[i]);
        match case_insensitive_char_range(chars.as_slice(), needle.as_slice()) {
            Some((s, e)) => {
                match best {
                    Some((bs, _)) => if s < bs {
                        best = Some((s, e));
                    },
                    None => {
                        best = Some((s, e));
                    },
                }
            },
            None => {},
        }
        i = i + 1;
    }
    assert(needle_views(needles_lower@).take(needles_lower@.len() as int) == needle_views(
        needles_lower@,
    ));
    let (match_start, match_end) = match best {
        Some(r) => r,
        None => {
            let t = take_chars(chars.as_slice(), max_chars);
            return string_of(t.as_slice());
        },
    };
    let len = chars.len();
    let match_end = if max_chars > len - match_start || match_end <= match_start + max_chars {
        match_end
    } else {
        match_start + max_chars
    };
    let match_len = match_end - match_start;
    let context = (max_chars - match_len) / 2;
    let start = if match_start > context {
        match_start - context
    } else {
        0
    };
    let end = if context > len - match_end {
        len
    } else {
        match_end + context
    };
    let mut out = String::new();
    if start > 0 {
        push_char(&mut out, '…');
    }
    let piece = crate::text::slice_range(chars.as_slice(), start, end);
    crate::text::push_chars(&mut out, piece.as_slice());
    if end < len {
        push_char(&mut out, '…');
    }
    out
}

// ---------------------------------------------------------------------------
// Searching saved conversations
// ---------------------------------------------------------------------------

/// A message excerpt that matched.
#[derive(Clone, Debug)]
pub struct ExcerptMatch {
    /// One-based.
    pub message_number: usize,
    /// `assistant` for the bot's messages, else the saved role.
    pub role: String,
    pub matched_terms: Vec<String>,
    pub exact_phrase_matched: bool,
    pub excerpt: String,
}

/// A conversation that matched every term.
#[derive(Clone, Debug)]
pub struct ConversationMatch {
    pub conversation_id: String,
    pub title: String,
    pub updated_at: String,
    pub exact_phrase_matched: bool,
    /// Where the terms matched: `title`, `messages`.
    pub locations: Vec<&'static str>,
    /// At most `MAX_EXCERPTS_PER_CONVERSATION`, best first.
    pub excerpts: Vec<ExcerptMatch>,
    /// How well it matched, for ordering.
    pub relevance_score: usize,
}

/// How a search ended.
#[derive(Clone, Copy, Debug, PartialEq, Eq)]
pub enum ConversationSearchStatus {
    /// The query had no distinctive term.
    NeedsSpecificQuery,
    NoMatches,
    Matched,
}

/// The outcome of a search over the saved conversations.
#[derive(Clone, Debug)]
pub struct ConversationSearch {
    pub status: ConversationSearchStatus,
    pub terms: Vec<String>,
    /// Whether the search was limited to the active profile.
    pub active_profile_only: bool,
    /// How many conversations matched, before the limit.
    pub total_matches: usize,
    /// The best matches, at most `limit`.
    pub conversations: Vec<ConversationMatch>,
}

pub open spec fn views(v: Seq<String>) -> Seq<Seq<char>> {
    v.map_values(|s: String| s@)
}

/// The terms found in a lowercased text, in the order of the terms.
pub open spec fn terms_in(terms: Seq<Seq<char>>, lower: Seq<char>) -> Seq<Seq<char>> {
    terms.filter(|t: Seq<char>| contains(lower, t))
}

/// Whether every term occurs in the lowercased title or in some lowercased message.
pub open spec fn all_terms_matched(terms: Seq<Seq<char>>, title: Seq<char>, messages: Seq<SavedMessage>) -> bool {
    forall|i: int|
        0 <= i < terms.len() ==> contains(unicode_lowercase(title), #[trigger] terms[i]) || exists|
            j: int,
        |
            0 <= j < messages.len() && contains(
                unicode_lowercase(#[trigger] messages[j].text@),
                terms[i],
            )
}

/// The score of a matching message: 100 for the exact phrase, plus one per term.
pub open spec fn excerpt_score(exact: bool, matched: nat) -> int {
    (if exact { 100int } else { 0int }) + matched
}

/// Whether excerpt `a` is shown before excerpt `b`: higher score first, then earlier message.
pub open spec fn excerpt_before(a: (usize, usize), b: (usize, usize)) -> bool {
    a.0 > b.0 || (a.0 == b.0 && a.1 < b.1)
}

fn search_text_lower(s: &str) -> (out: Vec<char>)
    ensures
        out@ == unicode_lowercase(s@),
{
    chars_of(to_lowercase(s).as_str())
}

fn terms_found(terms: &Vec<String>, lower: &[char]) -> (out: Vec<String>)
    ensures
        views(out@) == terms_in(views(terms@), lower@),
{
    let ghost f = |t: Seq<char>| contains(lower@, t);
    let mut out: Vec<String> = Vec::new();
    let mut i: usize = 0;
    while i < terms.len()
        invariant
            i <= terms@.len(),
            f == (|t: Seq<char>| contains(lower@, t)),
            views(out@) == views(terms@).take(i as int).filter(f),
        decreases terms@.len() - i,
    {
        reveal(Seq::filter);
        assert(views(terms@).take(i + 1).drop_last() =~= views(terms@).take(i as int));
        assert(views(terms@).take(i + 1).last() == terms@[i as int]@);
        if crate::text::contains_chars(lower, chars_of(terms[i].as_str()).as_slice()) {
            let ghost before = views(out@);
            out.push(terms[i].clone());
            assert(views(out@) =~= before.push(terms@[i as int]@));
        }
        i = i + 1;
    }
    assert(views(terms@).take(terms@.len() as int) =~= views(terms@));
    out
}

/// The position where an excerpt with key `k` goes among excerpts sorted
/// by `excerpt_before`: after every one it does not come before.
pub open spec fn excerpt_slot(sorted: Seq<(usize, usize, ExcerptMatch)>, k: (usize, usize)) -> int
    decreases sorted.len(),
{
    if sorted.len() == 0 {
        0
    } else if excerpt_before(k, (sorted[0].0, sorted[0].1)) {
        0
    } else {
        1 + excerpt_slot(sorted.drop_first(), k)
    }
}

/// Excerpt candidates in order: inserted one by one after all that do not
/// come after them (a stable sort by `excerpt_before`).
pub open spec fn sort_excerpts(s: Seq<(usize, usize, ExcerptMatch)>) -> Seq<(usize, usize, ExcerptMatch)>
    decreases s.len(),
{
    if s.len() == 0 {
        s
    } else {
        let sorted = sort_excerpts(s.drop_last());
        sorted.insert(excerpt_slot(sorted, (s.last().0, s.last().1)), s.last())
    }
}

proof fn lemma_excerpt_slot_bounds(sorted: Seq<(usize, usize, ExcerptMatch)>, k: (usize, usize))
    ensures
        0 <= excerpt_slot(sorted, k) <= sorted.len(),
    decreases sorted.len(),
{
    if sorted.len() > 0 {
        lemma_excerpt_slot_bounds(sorted.drop_first(), k);
    }
}

proof fn lemma_sort_excerpts_len(s: Seq<(usize, usize, ExcerptMatch)>)
    ensures
        sort_excerpts(s).len() == s.len(),
    decreases s.len(),
{
    if s.len() > 0 {
        lemma_sort_excerpts_len(s.drop_last());
        lemma_excerpt_slot_bounds(sort_excerpts(s.drop_last()), (s.last().0, s.last().1));
    }
}

fn excerpt_slot_exec(sorted: &Vec<(usize, usize, ExcerptMatch)>, k: (usize, usize)) -> (out: usize)
    ensures
        out as int == excerpt_slot(sorted@, k),
        out <= sorted@.len(),
{
    let mut i: usize = 0;
    assert(sorted@.skip(0) == sorted@);
    while i < sorted.len()
        invariant
            i <= sorted@.len(),
            excerpt_slot(sorted@, k) == i + excerpt_slot(sorted@.skip(i as int), k),
            forall|j: int| 0 <= j < i ==> !excerpt_before(k, (#[trigger] sorted@[j].0, sorted@[j].1)),
        decreases sorted@.len() - i,
    {
        let ghost rest = sorted@.skip(i as int);
        assert(rest[0] == sorted@[i as int]);
        assert(rest.drop_first() == sorted@.skip(i + 1));
        if k.0 > sorted[i].0 || (k.0 == sorted[i].0 && k.1 < sorted[i].1) {
            return i;
        }
        i = i + 1;
    }
    i
}

/// Sorts excerpt candidates, best first.
fn sort_excerpt_candidates(items: Vec<(usize, usize, ExcerptMatch)>) -> (out: Vec<(usize, usize, ExcerptMatch)>)
    ensures
        out@ == sort_excerpts(items@),
{
    let mut sorted: Vec<(usize, usize, ExcerptMatch)> = Vec::new();
    let mut rest = items;
    let ghost all = rest@;
    let n = rest.len();
    let mut i: usize = 0;
    while rest.len() > 0
        invariant
            i <= all.len(),
            all.len() == n,
            rest@ == all.skip(i as int),
            rest@.len() == all.len() - i,
            sorted@ == sort_excerpts(all.take(i as int)),
        decreases rest@.len(),
    {
        let x = rest.remove(0);
        let ghost t = all.take(i + 1);
        assert(t.drop_last() == all.take(i as int));
        assert(t.last() == x);
        let k = excerpt_slot_exec(&sorted, (x.0, x.1));
        sorted.insert(k, x);
        assert(rest@ =~= all.skip(i + 1));
        i = i + 1;
    }
    assert(all.take(i as int) == all);
    sorted
}

/// The role shown for a message: `assistant` for the bot.
pub open spec fn shown_role(role: Seq<char>) -> Seq<char> {
    if role == "bot"@ {
        "assistant"@
    } else {
        role
    }
}

/// The excerpt candidates of a conversation's messages: each message
/// that holds a term or the exact phrase, with its score and index.
pub open spec fn excerpt_candidates_ok(
    cands: Seq<(usize, usize, ExcerptMatch)>,
    messages: Seq<SavedMessage>,
    terms: Seq<Seq<char>>,
    query_lower: Seq<char>,
) -> bool {
    &&& forall|c: int|
        0 <= c < cands.len() ==> {
            let (score, index, e) = #[trigger] cands[c];
            let lower = unicode_lowercase(messages[index as int].text@);
            let matched = terms_in(terms, lower);
            let exact = contains(lower, query_lower);
            &&& index < messages.len()
            &&& (matched.len() > 0 || exact)
            &&& score == excerpt_score(exact, matched.len())
            &&& e.message_number == index + 1
            &&& e.exact_phrase_matched == exact
            &&& views(e.matched_terms@) == matched
            &&& e.role@ == shown_role(messages[index as int].role@)
            &&& e.excerpt@ == spec_build_excerpt(
                messages[index as int].text@,
                (if exact {
                    seq![query_lower]
                } else {
                    Seq::empty()
                }) + matched,
                CONVERSATION_EXCERPT_CHARS as int,
            )
        }
    &&& forall|a: int, b: int| 0 <= a < b < cands.len() ==> (#[trigger] cands[a]).1 < (#[trigger] cands[b]).1
    &&& forall|m: int|
        0 <= m < messages.len() && (terms_in(terms, unicode_lowercase(messages[m].text@)).len() > 0
            || contains(unicode_lowercase(messages[m].text@), query_lower)) ==> exists|c: int|
            0 <= c < cands.len() && (#[trigger] cands[c]).1 == m
}

/// Everything a conversation match states about the conversation it came from.
pub open spec fn conversation_match_ok(
    m: ConversationMatch,
    chat: SavedChat,
    terms: Seq<Seq<char>>,
    query_lower: Seq<char>,
) -> bool {
    let title_lower = unicode_lowercase(chat.title@);
    let title_terms = terms_in(terms, title_lower);
    let title_exact = contains(title_lower, query_lower);
    let message_exact = exists|j: int|
        0 <= j < chat.messages@.len() && contains(
            unicode_lowercase(#[trigger] chat.messages@[j].text@),
            query_lower,
        );
    &&& all_terms_matched(terms, chat.title@, chat.messages@)
    &&& m.conversation_id == chat.id
    &&& m.title == chat.title
    &&& m.updated_at == chat.updated_at
    &&& m.exact_phrase_matched == (title_exact || message_exact)
    &&& exists|cands: Seq<(usize, usize, ExcerptMatch)>|
        #![trigger sort_excerpts(cands)]
        excerpt_candidates_ok(cands, chat.messages@, terms, query_lower) && m.excerpts@
            == crate::web_search::providers::first_n(
            sort_excerpts(cands),
            MAX_EXCERPTS_PER_CONVERSATION as int,
        ).map_values(|c: (usize, usize, ExcerptMatch)| c.2)
    &&& m.locations@.map_values(|l: &'static str| l@) == (if title_terms.len() > 0 {
        seq!["title"@]
    } else {
        Seq::empty()
    }) + (if m.excerpts@.len() > 0 {
        seq!["messages"@]
    } else {
        Seq::empty()
    })
    &&& m.relevance_score == (if title_exact { 1000int } else { 0int }) + (if message_exact {
        500int
    } else {
        0int
    }) + title_terms.len() * 50 + m.excerpts@.len()
}

fn excerpt_needles<'a>(exact: bool, query_lower: &'a str, matched: &'a Vec<String>) -> (out: Vec<&'a str>)
    ensures
        needle_views(out@) == (if exact {
            seq![query_lower@]
        } else {
            Seq::empty()
        }) + views(matched@),
{
    let mut v: Vec<&str> = Vec::new();
    if exact {
        v.push(query_lower);
    }
    let ghost start = needle_views(v@);
    let mut i: usize = 0;
    while i < matched.len()
        invariant
            i <= matched@.len(),
            start == (if exact {
                seq![query_lower@]
            } else {
                Seq::<Seq<char>>::empty()
            }),
            needle_views(v@) == start + views(matched@).take(i as int),
        decreases matched@.len() - i,
    {
        let ghost before = needle_views(v@);
        v.push(matched[i].as_str());
        assert(needle_views(v@) =~= before.push(matched@[i as int]@));
        assert(views(matched@).take(i + 1) =~= views(matched@).take(i as int).push(matched@[i as int]@));
        i = i + 1;
    }
    assert(views(matched@).take(matched@.len() as int) =~= views(matched@));
    v
}

fn shown_role_exec(role: &str) -> (out: String)
    ensures
        out@ == shown_role(role@),
{
    if crate::text::same_text(role, "bot") {
        copy_string("assistant")
    } else {
        copy_string(role)
    }
}

/// The excerpt candidates of a conversation: one for each message that
/// holds a term or the exact phrase, in message order.
fn excerpt_candidates(
    messages: &Vec<SavedMessage>,
    terms: &Vec<String>,
    query_lower: &str,
) -> (out: (Vec<(usize, usize, ExcerptMatch)>, bool))
    requires
        messages@.len() < usize::MAX,
        terms@.len() <= MAX_QUERY_TERMS,
    ensures
        excerpt_candidates_ok(out.0@, messages@, views(terms@), query_lower@),
        out.1 == exists|j: int|
            0 <= j < messages@.len() && contains(
                unicode_lowercase(#[trigger] messages@[j].text@),
                query_lower@,
            ),
{
    let mut cands: Vec<(usize, usize, ExcerptMatch)> = Vec::new();
    let mut any_exact = false;
    let mut i: usize = 0;
    while i < messages.len()
        invariant
            i <= messages@.len(),
            messages@.len() < usize::MAX,
            terms@.len() <= MAX_QUERY_TERMS,
            forall|c: int| 0 <= c < cands@.len() ==> (#[trigger] cands@[c]).1 < i,
            excerpt_candidates_ok(cands@, messages@.take(i as int), views(terms@), query_lower@),
            any_exact == exists|j: int|
                0 <= j < i && contains(
                    unicode_lowercase(#[trigger] messages@[j].text@),
                    query_lower@,
                ),
        decreases messages@.len() - i,
    {
        let ghost before = cands@;
        let message = &messages[i];
        let lower = search_text_lower(message.text.as_str());
        let matched = terms_found(terms, lower.as_slice());
        let exact = crate::text::contains_chars(lower.as_slice(), chars_of(query_lower).as_slice());
        proof {
            assert(views(matched@).len() <= views(terms@).len()) by {
                views(terms@).lemma_filter_len(|t: Seq<char>| contains(lower@, t));
            }
        }
        if matched.len() > 0 || exact {
            any_exact = any_exact || exact;
            let needles = excerpt_needles(exact, query_lower, &matched);
            let excerpt = build_excerpt(message.text.as_str(), needles.as_slice(), CONVERSATION_EXCERPT_CHARS);
            let score: usize = (if exact { 100 } else { 0 }) + matched.len();
            let role = shown_role_exec(message.role.as_str());
            cands.push((score, i, ExcerptMatch {
                message_number: i + 1,
                role,
                matched_terms: matched,
                exact_phrase_matched: exact,
                excerpt,
            }));
        }
        proof {
            let t = messages@.take(i + 1);
            assert forall|c: int| 0 <= c < cands@.len() implies {
                let (score, index, e) = #[trigger] cands@[c];
                let l = unicode_lowercase(t[index as int].text@);
                let m = terms_in(views(terms@), l);
                let x = contains(l, query_lower@);
                &&& index < t.len()
                &&& (m.len() > 0 || x)
                &&& score == excerpt_score(x, m.len())
                &&& e.message_number == index + 1
                &&& e.exact_phrase_matched == x
                &&& views(e.matched_terms@) == m
                &&& e.role@ == shown_role(t[index as int].role@)
                &&& e.excerpt@ == spec_build_excerpt(
                    t[index as int].text@,
                    (if x {
                        seq![query_lower@]
                    } else {
                        Seq::empty()
                    }) + m,
                    CONVERSATION_EXCERPT_CHARS as int,
                )
            } by {
                if c < before.len() {
                    assert(cands@[c] == before[c]);
                    assert(messages@.take(i as int)[cands@[c].1 as int] == t[cands@[c].1 as int]);
                }
            }
            assert forall|m: int|
                0 <= m < t.len() && (terms_in(views(terms@), unicode_lowercase(t[m].text@)).len() > 0
                    || contains(unicode_lowercase(t[m].text@), query_lower@)) implies exists|c: int|
                0 <= c < cands@.len() && (#[trigger] cands@[c]).1 == m by {
                if m < i {
                    assert(t[m] == messages@.take(i as int)[m]);
                    let c = choose|c: int| 0 <= c < before.len() && (#[trigger] before[c]).1 == m;
                    assert(cands@[c] == before[c]);
                } else {
                    assert(cands@[cands@.len() - 1].1 == m);
                }
            }
        }
        i = i + 1;
    }
    assert(messages@.take(messages@.len() as int) == messages@);
    (cands, any_exact)
}

fn lowered_messages(messages: &Vec<SavedMessage>) -> (out: Vec<Vec<char>>)
    ensures
        out@.len() == messages@.len(),
        forall|j: int| 0 <= j < messages@.len() ==> (#[trigger] out@[j])@ == unicode_lowercase(
            messages@[j].text@,
        ),
{
    let mut out: Vec<Vec<char>> = Vec::new();
    let mut i: usize = 0;
    while i < messages.len()
        invariant
            i <= messages@.len(),
            out@.len() == i,
            forall|j: int| 0 <= j < i ==> (#[trigger] out@[j])@ == unicode_lowercase(
                messages@[j].text@,
            ),
        decreases messages@.len() - i,
    {
        out.push(search_text_lower(messages[i].text.as_str()));
        i = i + 1;
    }
    out
}

fn term_anywhere(term: &[char], title_lower: &[char], lowers: &Vec<Vec<char>>) -> (out: bool)
    ensures
        out == (contains(title_lower@, term@) || exists|j: int|
            0 <= j < lowers@.len() && contains((#[trigger] lowers@[j])@, term@)),
{
    if crate::text::contains_chars(title_lower, term) {
        return true;
    }
    let mut j: usize = 0;
    while j < lowers.len()
        invariant
            j <= lowers@.len(),
            forall|k: int| 0 <= k < j ==> !contains((#[trigger] lowers@[k])@, term@),
        decreases lowers@.len() - j,
    {
        if crate::text::contains_chars(lowers[j].as_slice(), term) {
            return true;
        }
        j = j + 1;
    }
    false
}

/// How a conversation matches the terms and the exact phrase, or `None`
/// when some term occurs neither in its title nor in any message.
pub fn match_conversation(chat: &SavedChat, terms: &Vec<String>, query_lower: &str) -> (out: Option<ConversationMatch>)
    requires
        chat.messages@.len() < usize::MAX,
        terms@.len() <= MAX_QUERY_TERMS,
    ensures
        !all_terms_matched(views(terms@), chat.title@, chat.messages@) ==> out is None,
        all_terms_matched(views(terms@), chat.title@, chat.messages@) ==> (out matches Some(m)
            && conversation_match_ok(m, *chat, views(terms@), query_lower@)),
{
    let title_lower = search_text_lower(chat.title.as_str());
    let lowers = lowered_messages(&chat.messages);
    let mut i: usize = 0;
    while i < terms.len()
        invariant
            i <= terms@.len(),
            title_lower@ == unicode_lowercase(chat.title@),
            lowers@.len() == chat.messages@.len(),
            forall|j: int| 0 <= j < chat.messages@.len() ==> (#[trigger] lowers@[j])@
                == unicode_lowercase(chat.messages@[j].text@),
            forall|k: int|
                0 <= k < i ==> contains(unicode_lowercase(chat.title@), #[trigger] views(terms@)[k])
                    || exists|j: int|
                    0 <= j < chat.messages@.len() && contains(
                        unicode_lowercase(#[trigger] chat.messages@[j].text@),
                        views(terms@)[k],
                    ),
        decreases terms@.len() - i,
    {
        let term = chars_of(terms[i].as_str());
        assert(views(terms@)[i as int] == term@);
        if !term_anywhere(term.as_slice(), title_lower.as_slice(), &lowers) {
            assert(!all_terms_matched(views(terms@), chat.title@, chat.messages@)) by {
                assert forall|j: int| 0 <= j < chat.messages@.len() implies !contains(
                    unicode_lowercase(#[trigger] chat.messages@[j].text@),
                    views(terms@)[i as int],
                ) by {
                    assert(lowers@[j]@ == unicode_lowercase(chat.messages@[j].text@));
                }
            }
            return None;
        } else {
            proof {
                if !contains(unicode_lowercase(chat.title@), views(terms@)[i as int]) {
                    let j = choose|j: int| 0 <= j < lowers@.len() && contains((#[trigger] lowers@[j])@, term@);
                    assert(contains(unicode_lowercase(chat.messages@[j].text@), views(terms@)[i as int]));
                }
            }
        }
        i = i + 1;
    }
    let title_terms = terms_found(terms, title_lower.as_slice());
    let title_exact = crate::text::contains_chars(title_lower.as_slice(), chars_of(query_lower).as_slice());
    proof {
        views(terms@).lemma_filter_len(|t: Seq<char>| contains(title_lower@, t));
    }
    let (cands, message_exact) = excerpt_candidates(&chat.messages, terms, query_lower);
    let ghost all_cands = cands@;
    let sorted = sort_excerpt_candidates(cands);
    proof {
        lemma_sort_excerpts_len(all_cands);
    }
    let mut excerpts: Vec<ExcerptMatch> = Vec::new();
    let mut rest = sorted;
    let ghost s = rest@;
    let mut k: usize = 0;
    while k < MAX_EXCERPTS_PER_CONVERSATION && rest.len() > 0
        invariant
            k <= MAX_EXCERPTS_PER_CONVERSATION,
            k <= s.len(),
            rest@ == s.skip(k as int),
            excerpts@ == s.take(k as int).map_values(|c: (usize, usize, ExcerptMatch)| c.2),
        decreases MAX_EXCERPTS_PER_CONVERSATION - k,
    {
        let c = rest.remove(0);
        assert(c == s[k as int]);
        excerpts.push(c.2);
        assert(s.take(k + 1).map_values(|c: (usize, usize, ExcerptMatch)| c.2) =~= s.take(
            k as int,
        ).map_values(|c: (usize, usize, ExcerptMatch)| c.2).push(s[k as int].2));
        assert(rest@ =~= s.skip(k + 1));
        k = k + 1;
    }
    assert(excerpts@ == crate::web_search::providers::first_n(
        s,
        MAX_EXCERPTS_PER_CONVERSATION as int,
    ).map_values(|c: (usize, usize, ExcerptMatch)| c.2)) by {
        if s.len() <= MAX_EXCERPTS_PER_CONVERSATION {
            assert(s.take(k as int) =~= s);
        }
    }
    let mut locations: Vec<&'static str> = Vec::new();
    if title_terms.len() > 0 {
        locations.push("title");
    }
    if excerpts.len() > 0 {
        locations.push("messages");
    }
    assert(locations@.map_values(|l: &'static str| l@) =~= (if views(title_terms@).len() > 0 {
        seq!["title"@]
    } else {
        Seq::empty()
    }) + (if excerpts@.len() > 0 {
        seq!["messages"@]
    } else {
        Seq::empty()
    }));
    let relevance_score: usize = (if title_exact { 1000 } else { 0 }) + (if message_exact {
        500
    } else {
        0
    }) + title_terms.len() * 50 + excerpts.len();
    Some(ConversationMatch {
        conversation_id: chat.id.clone(),
        title: chat.title.clone(),
        updated_at: chat.updated_at.clone(),
        exact_phrase_matched: title_exact || message_exact,
        locations,
        excerpts,
        relevance_score,
    })
}

/// Text order (`String`'s order): whether `a` comes after `b`, comparing
/// characters by code point and a longer text after its prefix.
pub open spec fn text_after(a: Seq<char>, b: Seq<char>) -> bool
    decreases a.len(),
{
    if a.len() == 0 {
        false
    } else if b.len() == 0 {
        true
    } else if a[0] != b[0] {
        a[0] > b[0]
    } else {
        text_after(a.drop_first(), b.drop_first())
    }
}

fn text_after_exec(a: &[char], b: &[char]) -> (out: bool)
    ensures
        out == text_after(a@, b@),
{
    let mut i: usize = 0;
    assert(a@.skip(0) == a@ && b@.skip(0) == b@);
    while i < a.len() && i < b.len() && a[i] == b[i]
        invariant
            i <= a@.len(),
            i <= b@.len(),
            text_after(a@, b@) == text_after(a@.skip(i as int), b@.skip(i as int)),
        decreases a@.len() - i,
    {
        assert(a@.skip(i as int).drop_first() == a@.skip(i + 1));
        assert(b@.skip(i as int).drop_first() == b@.skip(i + 1));
        i = i + 1;
    }
    if i == a.len() {
        return false;
    }
    if i == b.len() {
        return true;
    }
    assert(a@.skip(i as int)[0] == a@[i as int]);
    assert(b@.skip(i as int)[0] == b@[i as int]);
    a[i] > b[i]
}

/// Whether match `a` is listed before match `b`: more relevant first, then
/// the more recently updated.
pub open spec fn match_before(a: ConversationMatch, b: ConversationMatch) -> bool {
    a.relevance_score > b.relevance_score || (a.relevance_score == b.relevance_score && text_after(
        a.updated_at@,
        b.updated_at@,
    ))
}

pub open spec fn match_slot(sorted: Seq<ConversationMatch>, m: ConversationMatch) -> int
    decreases sorted.len(),
{
    if sorted.len() == 0 {
        0
    } else if match_before(m, sorted[0]) {
        0
    } else {
        1 + match_slot(sorted.drop_first(), m)
    }
}

/// Matches in listing order: inserted one by one after all that do not
/// come after them (a stable sort by `match_before`;
/// `lemma_sort_matches_is_listing` shows it meets `is_listing_of`).
pub open spec fn sort_matches(s: Seq<ConversationMatch>) -> Seq<ConversationMatch>
    decreases s.len(),
{
    if s.len() == 0 {
        s
    } else {
        let sorted = sort_matches(s.drop_last());
        sorted.insert(match_slot(sorted, s.last()), s.last())
    }
}

/// Two matches that neither comes before the other: equally relevant and
/// updated at the same time.
pub open spec fn ties(a: ConversationMatch, b: ConversationMatch) -> bool {
    !match_before(a, b) && !match_before(b, a)
}

/// `p` shows that `sorted` lists the matches `s` in listing order: each
/// listed match is the match of `s` at its own position `p[k]`, no
/// position is used twice, no match is listed after one it comes before,
/// and tied matches keep the order they have in `s` (a stable sort).
pub open spec fn listing_witness(sorted: Seq<ConversationMatch>, s: Seq<ConversationMatch>, p: Seq<int>) -> bool {
    &&& sorted.len() == s.len()
    &&& p.len() == s.len()
    &&& forall|k: int| 0 <= k < p.len() ==> 0 <= #[trigger] p[k] < s.len() && sorted[k] == s[p[k]]
    &&& forall|k: int, l: int| 0 <= k < l < p.len() ==> #[trigger] p[k] != #[trigger] p[l]
    &&& forall|k: int, l: int|
        0 <= k < l < sorted.len() ==> !match_before(#[trigger] sorted[l], #[trigger] sorted[k])
    &&& forall|k: int, l: int|
        0 <= k < l < sorted.len() && ties(#[trigger] sorted[k], #[trigger] sorted[l]) ==> p[k] < p[l]
}

/// `sorted` is `s` in listing order: most relevant first, then the most
/// recently updated, tied matches in their saved order.
pub open spec fn is_listing_of(sorted: Seq<ConversationMatch>, s: Seq<ConversationMatch>) -> bool {
    exists|p: Seq<int>| listing_witness(sorted, s, p)
}

proof fn lemma_text_after_asymmetric(a: Seq<char>, b: Seq<char>)
    ensures
        text_after(a, b) ==> !text_after(b, a),
    decreases a.len(),
{
    if a.len() > 0 && b.len() > 0 && a[0] == b[0] {
        lemma_text_after_asymmetric(a.drop_first(), b.drop_first());
    }
}

proof fn lemma_text_after_transitive(a: Seq<char>, b: Seq<char>, c: Seq<char>)
    requires
        text_after(a, b),
        text_after(b, c),
    ensures
        text_after(a, c),
    decreases a.len(),
{
    if a.len() > 0 && b.len() > 0 && c.len() > 0 && a[0] == b[0] && b[0] == c[0] {
        lemma_text_after_transitive(a.drop_first(), b.drop_first(), c.drop_first());
    }
}

proof fn lemma_text_after_total(a: Seq<char>, b: Seq<char>)
    ensures
        !text_after(a, b) && !text_after(b, a) ==> a == b,
    decreases a.len(),
{
    if a.len() > 0 && b.len() > 0 && a[0] == b[0] {
        lemma_text_after_total(a.drop_first(), b.drop_first());
        assert(a =~= seq![a[0]] + a.drop_first());
        assert(b =~= seq![b[0]] + b.drop_first());
    }
}

/// `match_before` is a strict weak order: asymmetric, transitive, and tied
/// matches compare alike with every other match.
proof fn lemma_match_order(a: ConversationMatch, b: ConversationMatch, c: ConversationMatch)
    ensures
        match_before(a, b) ==> !match_before(b, a),
        match_before(a, b) && match_before(b, c) ==> match_before(a, c),
        ties(a, b) ==> (match_before(a, c) == match_before(b, c) && match_before(c, a) == match_before(c, b)),
        !match_before(a, b) && !match_before(b, c) ==> !match_before(a, c),
{
    lemma_text_after_asymmetric(a.updated_at@, b.updated_at@);
    lemma_text_after_asymmetric(a.updated_at@, c.updated_at@);
    lemma_text_after_asymmetric(c.updated_at@, a.updated_at@);
    lemma_text_after_asymmetric(b.updated_at@, c.updated_at@);
    lemma_text_after_total(a.updated_at@, b.updated_at@);
    lemma_text_after_total(b.updated_at@, c.updated_at@);
    lemma_text_after_total(a.updated_at@, c.updated_at@);
    if text_after(a.updated_at@, b.updated_at@) && text_after(b.updated_at@, c.updated_at@) {
        lemma_text_after_transitive(a.updated_at@, b.updated_at@, c.updated_at@);
    }
    if text_after(c.updated_at@, b.updated_at@) && text_after(b.updated_at@, a.updated_at@) {
        lemma_text_after_transitive(c.updated_at@, b.updated_at@, a.updated_at@);
    }
}

proof fn lemma_match_slot_props(sorted: Seq<ConversationMatch>, m: ConversationMatch)
    ensures
        0 <= match_slot(sorted, m) <= sorted.len(),
        forall|k: int| 0 <= k < match_slot(sorted, m) ==> !match_before(m, #[trigger] sorted[k]),
        match_slot(sorted, m) < sorted.len() ==> match_before(m, sorted[match_slot(sorted, m)]),
    decreases sorted.len(),
{
    if sorted.len() > 0 && !match_before(m, sorted[0]) {
        let rest = sorted.drop_first();
        lemma_match_slot_props(rest, m);
        assert forall|k: int| 0 <= k < match_slot(sorted, m) implies !match_before(m, #[trigger] sorted[k]) by {
            if k > 0 {
                assert(sorted[k] == rest[k - 1]);
            }
        }
        if match_slot(sorted, m) < sorted.len() {
            assert(sorted[match_slot(sorted, m)] == rest[match_slot(rest, m)]);
        }
    }
}

/// `sort_matches` lists the matches in listing order (see `is_listing_of`).
pub proof fn lemma_sort_matches_is_listing(s: Seq<ConversationMatch>) -> (p: Seq<int>)
    ensures
        listing_witness(sort_matches(s), s, p),
    decreases s.len(),
{
    if s.len() == 0 {
        Seq::empty()
    } else {
        let n = s.len() - 1;
        let s0 = s.drop_last();
        let x = s.last();
        let sorted0 = sort_matches(s0);
        let p0 = lemma_sort_matches_is_listing(s0);
        let slot = match_slot(sorted0, x);
        lemma_match_slot_props(sorted0, x);
        let sorted = sorted0.insert(slot, x);
        let p = p0.insert(slot, n);
        assert(sorted == sort_matches(s));
        assert forall|k: int| 0 <= k < p.len() implies 0 <= #[trigger] p[k] < s.len() && sorted[k] == s[p[k]] by {
            if k < slot {
                assert(p[k] == p0[k] && sorted[k] == sorted0[k]);
                assert(s0[p0[k]] == s[p0[k]]);
            } else if k == slot {
            } else {
                assert(p[k] == p0[k - 1] && sorted[k] == sorted0[k - 1]);
                assert(s0[p0[k - 1]] == s[p0[k - 1]]);
            }
        }
        assert forall|k: int, l: int| 0 <= k < l < p.len() implies #[trigger] p[k] != #[trigger] p[l] by {
            let pk = if k < slot { p0[k] } else if k == slot { n } else { p0[k - 1] };
            let pl = if l < slot { p0[l] } else if l == slot { n } else { p0[l - 1] };
            assert(p[k] == pk && p[l] == pl);
            if k != slot && l != slot {
                let k0 = if k < slot { k } else { k - 1 };
                let l0 = if l < slot { l } else { l - 1 };
                assert(k0 < l0);
                assert(p0[k0] != p0[l0]);
            } else if k == slot {
                assert(0 <= p0[l - 1] < s0.len());
            } else {
                assert(0 <= p0[k] < s0.len());
            }
        }
        assert forall|k: int, l: int| 0 <= k < l < sorted.len() implies !match_before(
            #[trigger] sorted[l],
            #[trigger] sorted[k],
        ) by {
            let ik = if k < slot { k } else { k - 1 };
            let il = if l < slot { l } else { l - 1 };
            if k != slot && l != slot {
                assert(sorted[k] == sorted0[ik] && sorted[l] == sorted0[il]);
                assert(ik < il);
            } else if k == slot {
                // x comes before sorted0[slot], which nothing later comes before.
                assert(sorted[l] == sorted0[l - 1]);
                lemma_match_order(sorted0[l - 1], x, sorted0[slot]);
                lemma_match_order(x, sorted0[slot], sorted0[l - 1]);
                if l - 1 > slot {
                    assert(!match_before(sorted0[l - 1], sorted0[slot]));
                }
                lemma_match_order(sorted0[l - 1], sorted0[slot], x);
            } else {
                assert(sorted[k] == sorted0[k]);
                assert(!match_before(x, sorted0[k]));
            }
        }
        assert forall|k: int, l: int|
            0 <= k < l < sorted.len() && ties(#[trigger] sorted[k], #[trigger] sorted[l]) implies p[k] < p[l] by {
            let ik = if k < slot { k } else { k - 1 };
            let il = if l < slot { l } else { l - 1 };
            if k != slot && l != slot {
                assert(sorted[k] == sorted0[ik] && sorted[l] == sorted0[il]);
                assert(p[k] == p0[ik] && p[l] == p0[il]);
                assert(ik < il);
            } else if k == slot {
                // a match after x that ties with x would come before sorted0[slot] too.
                assert(sorted[l] == sorted0[l - 1]);
                lemma_match_order(x, sorted0[l - 1], sorted0[slot]);
                if l - 1 > slot {
                    assert(!match_before(sorted0[l - 1], sorted0[slot]));
                }
                assert(false);
            } else {
                assert(p[k] == p0[k]);
                assert(0 <= p0[k] < s0.len());
            }
        }
        p
    }
}

fn match_slot_exec(sorted: &Vec<ConversationMatch>, m: &ConversationMatch) -> (out: usize)
    ensures
        out as int == match_slot(sorted@, *m),
        out <= sorted@.len(),
{
    let mut i: usize = 0;
    assert(sorted@.skip(0) == sorted@);
    let updated = chars_of(m.updated_at.as_str());
    while i < sorted.len()
        invariant
            i <= sorted@.len(),
            updated@ == m.updated_at@,
            match_slot(sorted@, *m) == i + match_slot(sorted@.skip(i as int), *m),
        decreases sorted@.len() - i,
    {
        let ghost rest = sorted@.skip(i as int);
        assert(rest[0] == sorted@[i as int]);
        assert(rest.drop_first() == sorted@.skip(i + 1));
        let other = &sorted[i];
        let before = m.relevance_score > other.relevance_score || (m.relevance_score
            == other.relevance_score && text_after_exec(
            updated.as_slice(),
            chars_of(other.updated_at.as_str()).as_slice(),
        ));
        if before {
            return i;
        }
        i = i + 1;
    }
    i
}

fn sort_conversation_matches(items: Vec<ConversationMatch>) -> (out: Vec<ConversationMatch>)
    ensures
        out@ == sort_matches(items@),
{
    let mut sorted: Vec<ConversationMatch> = Vec::new();
    let mut rest = items;
    let ghost all = rest@;
    let n = rest.len();
    let mut i: usize = 0;
    while rest.len() > 0
        invariant
            i <= all.len(),
            all.len() == n,
            rest@ == all.skip(i as int),
            rest@.len() == all.len() - i,
            sorted@ == sort_matches(all.take(i as int)),
        decreases rest@.len(),
    {
        let x = rest.remove(0);
        let ghost t = all.take(i + 1);
        assert(t.drop_last() == all.take(i as int));
        assert(t.last() == x);
        let k = match_slot_exec(&sorted, &x);
        sorted.insert(k, x);
        assert(rest@ =~= all.skip(i + 1));
        i = i + 1;
    }
    assert(all.take(i as int) == all);
    sorted
}

/// Whether a conversation is searched: it belongs to the active profile,
/// when the search is limited to one.
pub open spec fn in_scope(chat: SavedChat, active_profile: Option<Seq<char>>) -> bool {
    match active_profile {
        Some(p) => spec_chat_profile_id(chat) == p,
        None => true,
    }
}

/// How many conversations are in scope and hold every term.
pub open spec fn count_matching(
    chats: Seq<SavedChat>,
    terms: Seq<Seq<char>>,
    active_profile: Option<Seq<char>>,
) -> nat
    decreases chats.len(),
{
    if chats.len() == 0 {
        0
    } else {
        count_matching(chats.drop_last(), terms, active_profile) + if in_scope(chats.last(), active_profile)
            && all_terms_matched(terms, chats.last().title@, chats.last().messages@) {
            1nat
        } else {
            0nat
        }
    }
}

/// `ms` are the matches of the conversations in scope that hold every
/// term, in the order the conversations are saved: each listed match
/// comes from such a conversation, and each such conversation is listed.
pub open spec fn matches_of(
    ms: Seq<ConversationMatch>,
    chats: Seq<SavedChat>,
    terms: Seq<Seq<char>>,
    query_lower: Seq<char>,
    active_profile: Option<Seq<char>>,
) -> bool {
    exists|idx: Seq<int>|
        #![trigger idx.len()]
        idx.len() == ms.len() && (forall|k: int|
            0 <= k < idx.len() ==> 0 <= #[trigger] idx[k] < chats.len() && in_scope(
                chats[idx[k]],
                active_profile,
            ) && conversation_match_ok(ms[k], chats[idx[k]], terms, query_lower)) && (forall|
            a: int,
            b: int,
        | 0 <= a < b < idx.len() ==> #[trigger] idx[a] < #[trigger] idx[b]) && (forall|c: int|
            0 <= c < chats.len() && in_scope(#[trigger] chats[c], active_profile)
                && all_terms_matched(terms, chats[c].title@, chats[c].messages@) ==> exists|k: int|
                0 <= k < idx.len() && idx[k] == c)
}

/// Searches the saved conversations for a query's distinctive terms. A
/// query without such terms asks for a specific topic. Every term must
/// occur in the conversation's title or messages; matches are ordered by
/// relevance (exact phrase in the title, then in a message, then title
/// terms, then excerpts) and recency, and at most `limit` are returned.
pub fn search_conversations(
    chats: &Vec<SavedChat>,
    query: &str,
    limit: usize,
    active_profile_id: Option<&str>,
) -> (out: ConversationSearch)
    requires
        forall|c: int| 0 <= c < chats@.len() ==> (#[trigger] chats@[c]).messages@.len() < usize::MAX,
    ensures
        views(out.terms@) == spec_query_terms(query@),
        out.active_profile_only == active_profile_id is Some,
        spec_query_terms(query@).len() == 0 ==> out.status == ConversationSearchStatus::NeedsSpecificQuery
            && out.total_matches == 0 && out.conversations@.len() == 0,
        spec_query_terms(query@).len() > 0 ==> exists|ms: Seq<ConversationMatch>|
            #![trigger sort_matches(ms)]
            matches_of(
                ms,
                chats@,
                spec_query_terms(query@),
                unicode_lowercase(trim(query@)),
                crate::web_search::opt_str_view(active_profile_id),
            ) && out.total_matches == ms.len() && ms.len() == count_matching(
                chats@,
                spec_query_terms(query@),
                crate::web_search::opt_str_view(active_profile_id),
            ) && out.conversations@
                == crate::web_search::providers::first_n(sort_matches(ms), limit as int)
                && is_listing_of(sort_matches(ms), ms) && out.status == (if ms.len() == 0 {
                ConversationSearchStatus::NoMatches
            } else {
                ConversationSearchStatus::Matched
            }),
{
    let terms = normalized_query_terms(query);
    proof {
        lemma_query_terms_bounded(query@);
    }
    if terms.len() == 0 {
        return ConversationSearch {
            status: ConversationSearchStatus::NeedsSpecificQuery,
            terms,
            active_profile_only: active_profile_id.is_some(),
            total_matches: 0,
            conversations: Vec::new(),
        };
    }
    let trimmed_query = crate::text::trimmed(query);
    let query_lower = to_lowercase(trimmed_query.as_str());
    let ghost active = crate::web_search::opt_str_view(active_profile_id);
    let mut found: Vec<ConversationMatch> = Vec::new();
    let ghost mut idx: Seq<int> = Seq::empty();
    let mut c: usize = 0;
    while c < chats.len()
        invariant
            c <= chats@.len(),
            forall|j: int| 0 <= j < chats@.len() ==> (#[trigger] chats@[j]).messages@.len() < usize::MAX,
            terms@.len() <= MAX_QUERY_TERMS,
            query_lower@ == unicode_lowercase(trim(query@)),
            active == crate::web_search::opt_str_view(active_profile_id),
            idx.len() == found@.len(),
            found@.len() == count_matching(chats@.take(c as int), views(terms@), active),
            forall|k: int|
                0 <= k < idx.len() ==> 0 <= #[trigger] idx[k] < c && in_scope(chats@[idx[k]], active)
                    && conversation_match_ok(found@[k], chats@[idx[k]], views(terms@), query_lower@),
            forall|a: int, b: int| 0 <= a < b < idx.len() ==> #[trigger] idx[a] < #[trigger] idx[b],
            forall|j: int|
                0 <= j < c && in_scope(#[trigger] chats@[j], active) && all_terms_matched(
                    views(terms@),
                    chats@[j].title@,
                    chats@[j].messages@,
                ) ==> exists|k: int| 0 <= k < idx.len() && idx[k] == j,
        decreases chats@.len() - c,
    {
        let chat = &chats[c];
        let ghost idx_before = idx;
        let scoped = match active_profile_id {
            Some(p) => crate::text::same_text(crate::profiles::chat_profile_id(chat), p),
            None => true,
        };
        if scoped {
            match match_conversation(chat, &terms, query_lower.as_str()) {
                Some(m) => {
                    found.push(m);
                    proof {
                        idx = idx.push(c as int);
                    }
                },
                None => {},
            }
        }
        proof {
            assert(chats@.take(c + 1).drop_last() =~= chats@.take(c as int));
            assert(chats@.take(c + 1).last() == chats@[c as int]);
            assert forall|j: int|
                0 <= j < c + 1 && in_scope(#[trigger] chats@[j], active) && all_terms_matched(
                    views(terms@),
                    chats@[j].title@,
                    chats@[j].messages@,
                ) implies exists|k: int| 0 <= k < idx.len() && idx[k] == j by {
                if j == c {
                    assert(scoped);
                    assert(idx[idx.len() - 1] == j);
                } else {
                    let k = choose|k: int| 0 <= k < idx_before.len() && idx_before[k] == j;
                    assert(idx[k] == idx_before[k]);
                }
            }
        }
        c = c + 1;
    }
    let total = found.len();
    assert(chats@.take(chats@.len() as int) =~= chats@);
    let ghost ms = found@;
    assert(matches_of(ms, chats@, views(terms@), query_lower@, active)) by {
        assert(idx.len() == ms.len());
    }
    let sorted = sort_conversation_matches(found);
    let mut conversations: Vec<ConversationMatch> = Vec::new();
    let mut rest = sorted;
    let ghost s = rest@;
    let mut k: usize = 0;
    while k < limit && rest.len() > 0
        invariant
            k <= limit,
            k <= s.len(),
            rest@ == s.skip(k as int),
            conversations@ == s.take(k as int),
        decreases limit - k,
    {
        let m = rest.remove(0);
        assert(m == s[k as int]);
        conversations.push(m);
        assert(s.take(k + 1) =~= s.take(k as int).push(s[k as int]));
        assert(rest@ =~= s.skip(k + 1));
        k = k + 1;
    }
    proof {
        lemma_sort_matches_len(ms);
        let p = lemma_sort_matches_is_listing(ms);
        assert(listing_witness(sort_matches(ms), ms, p));
        if s.len() <= limit {
            assert(s.take(k as int) =~= s);
        }
    }
    ConversationSearch {
        status: if total == 0 {
            ConversationSearchStatus::NoMatches
        } else {
            ConversationSearchStatus::Matched
        },
        terms,
        active_profile_only: active_profile_id.is_some(),
        total_matches: total,
        conversations,
    }
}

proof fn lemma_match_slot_bounds(sorted: Seq<ConversationMatch>, m: ConversationMatch)
    ensures
        0 <= match_slot(sorted, m) <= sorted.len(),
    decreases sorted.len(),
{
    if sorted.len() > 0 {
        lemma_match_slot_bounds(sorted.drop_first(), m);
    }
}

proof fn lemma_sort_matches_len(s: Seq<ConversationMatch>)
    ensures
        sort_matches(s).len() == s.len(),
    decreases s.len(),
{
    if s.len() > 0 {
        lemma_sort_matches_len(s.drop_last());
        lemma_match_slot_bounds(sort_matches(s.drop_last()), s.last());
    }
}

proof fn lemma_collect_terms_bounded(pieces: Seq<Seq<char>>, acc: Seq<Seq<char>>)
    requires
        acc.len() <= MAX_QUERY_TERMS,
    ensures
        collect_terms(pieces, acc).len() <= MAX_QUERY_TERMS,
    decreases pieces.len(),
{
    if pieces.len() > 0 && acc.len() < MAX_QUERY_TERMS {
        let p = pieces[0];
        let next = if p.len() < 2 || stop_words().contains(p) || acc.contains(p) {
            acc
        } else {
            acc.push(p)
        };
        lemma_collect_terms_bounded(pieces.drop_first(), next);
    }
}

/// A query never has more than `MAX_QUERY_TERMS` terms.
pub proof fn lemma_query_terms_bounded(query: Seq<char>)
    ensures
        spec_query_terms(query).len() <= MAX_QUERY_TERMS,
{
    lemma_collect_terms_bounded(split_words(unicode_lowercase(query)), Seq::empty());
}

} // verus!
