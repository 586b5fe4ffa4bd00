//! Regular expressions, matched by the `regex` crate.
//!
//! Nothing in this file is proved: it states what the rest of the library
//! relies on when it matches a pattern.

use vstd::prelude::*;

verus! {

/// The error with which `regex` refuses a pattern. Nothing is known of it.
#[verifier::external_type_specification]
#[verifier::external_body]
pub struct ExRegexError(regex::Error);

/// What matching `pattern` against `text` gives:
/// - `Err` where `regex::Regex::new` does not accept `pattern`;
/// - `Ok(None)` where `regex::Regex::captures` finds no match in `text`;
/// - `Ok(Some(groups))` for the first match, where `groups` holds what each
///   capture group of the pattern matched, in the order of
///   `regex::Captures::iter`: the whole match at index 0, and `None` for a
///   group that took no part in the match.
pub uninterp spec fn regex_captures(pattern: Seq<char>, text: Seq<char>) -> Result<
    Option<Seq<Option<Seq<char>>>>,
    (),
>;

/// Compiles `pattern` with `regex::Regex::new` and searches `text` with
/// `regex::Regex::captures`; the groups of the match are copied out in the
/// order of `regex::Captures::iter`.
///
/// The contract claims only that the outcome is the one that
/// [`regex_captures`] names: the same pattern and text always give the same
/// groups, or the same refusal.
#[verifier::external_body]
pub(crate) fn match_groups(pattern: &str, text: &str) -> (r: Result<
    Option<Vec<Option<String>>>,
    regex::Error,
>)
    ensures
        match r {
            Ok(caps) => regex_captures(pattern@, text@) == Ok::<
                Option<Seq<Option<Seq<char>>>>,
                (),
            >(caps.deep_view()),
            Err(_) => regex_captures(pattern@, text@) is Err,
        },
{
    let re = regex::Regex::new(pattern)?;
    Ok(
        re.captures(text).map(
            |caps| caps.iter().map(|group| group.map(|s| s.to_string())).collect(),
        ),
    )
}

} // verus!
