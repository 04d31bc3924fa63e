//! What the user's answers to the prompts mean.

use vstd::prelude::*;

verus! {

/// The text that `str::trim` leaves of a text.
pub uninterp spec fn trimmed(words: Seq<char>) -> Seq<char>;

/// The text that `str::to_uppercase` makes of a text.
pub uninterp spec fn uppercased(words: Seq<char>) -> Seq<char>;

/// Calls `str::trim` and copies the slice that it returns.
#[verifier::external_body]
fn trim(words: &str) -> (r: String)
    ensures
        r@ == trimmed(words@),
{
    words.trim().to_string()
}

/// Calls `str::to_uppercase`.
#[verifier::external_body]
fn to_uppercase(words: &str) -> (r: String)
    ensures
        r@ == uppercased(words@),
{
    words.to_uppercase()
}

/// An answer as the prompts compare it: without the white space around it, in upper
/// case.
pub fn normalize(words: &str) -> (r: String)
    ensures
        r@ == uppercased(trimmed(words@)),
{
    let kept = trim(words);
    to_uppercase(kept.as_str())
}

/// What an answer says to a question that asks for yes or no.
pub open spec fn yes_or_no_of(state: Seq<char>) -> Option<bool> {
    if state == "YES"@ {
        Some(true)
    } else if state == "NO"@ {
        Some(false)
    } else {
        None
    }
}

/// What an answer, as [`normalize`] returns it, says to a question that asks for yes or no:
/// `YES` or `NO`; anything else is no answer, and the question is to be asked again.
pub fn answer(state: &String) -> (r: Option<bool>)
    ensures
        r == yes_or_no_of(state@),
{
    if *state == "YES".to_string() {
        Some(true)
    } else if *state == "NO".to_string() {
        Some(false)
    } else {
        None
    }
}

/// What a line that the user typed says to a question that asks for yes or no.
#[must_use]
pub fn yes_or_no(words: &str) -> (r: Option<bool>)
    ensures
        r == yes_or_no_of(uppercased(trimmed(words@))),
{
    let state = normalize(words);
    answer(&state)
}

} // verus!
