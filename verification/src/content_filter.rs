//! The content filter: with filtering on, inappropriate words in prompts
//! and replies are hidden behind `#` characters.
use vstd::prelude::*;

verus! {

/// What `rustrict`'s censor gives for a text, with `#` as the replacement
/// character and whole words hidden from the `INAPPROPRIATE` level up.
pub uninterp spec fn spec_censored(text: Seq<char>) -> Seq<char>;

/// Calls `rustrict::Censor::from_str` with `#` as the replacement and
/// `Type::INAPPROPRIATE` as the threshold for hiding a word's first
/// character too, then `censor`. Trusted: the result is named
/// `spec_censored` and depends on the text alone (the built-in word list is
/// not changed at run time); what the censor detects is not stated.
#[verifier::external_body]
fn censor(input: &str) -> (out: String)
    ensures
        out@ == spec_censored(input@),
{
    rustrict::Censor::from_str(input)
        .with_censor_replacement('#')
        .with_censor_first_character_threshold(rustrict::Type::INAPPROPRIATE)
        .censor()
}

/// A text as it is shown or sent: censored when filtering is on, unchanged
/// otherwise.
pub fn filtered_text(filtering: bool, text: &str) -> (out: String)
    ensures
        out@ == if filtering {
            spec_censored(text@)
        } else {
            text@
        },
{
    if filtering {
        censor(text)
    } else {
        crate::text::copy_string(text)
    }
}

} // verus!
