//! The patterns handed to the `regex` crate, and what is known of them.

use regex::Regex;
use vstd::prelude::*;
use crate::text::{is_letter, same_ignoring_case};

verus! {

/// Longest run of letters of which [`is_word`] speaks.
pub const WORD_LIMIT: usize = 64;

/// A run of ASCII letters: at least one, at most [`WORD_LIMIT`].
pub open spec fn is_word(s: Seq<char>) -> bool {
    &&& 0 < s.len() <= WORD_LIMIT
    &&& forall|i: int| 0 <= i < s.len() ==> is_letter(#[trigger] s[i])
}

/// The pattern for `piece`: case-insensitive, and anchored at both ends, so
/// that it can only match a whole text.
pub open spec fn anchored(piece: Seq<char>) -> Seq<char> {
    "(?i)^"@ + piece + "$"@
}

/// Whether `regex::Regex::new` accepts `pattern`.
pub uninterp spec fn pattern_is_valid(pattern: Seq<char>) -> bool;

/// Whether `regex::Regex::is_match` finds a match in `haystack`, for the
/// expression that `regex::Regex::new` makes of `pattern`.
pub uninterp spec fn pattern_matches(pattern: Seq<char>, haystack: Seq<char>) -> bool;

/// Builds the pattern for `piece`.
pub fn anchored_pattern(piece: &str) -> (pattern: String)
    ensures
        pattern@ == anchored(piece@),
{
    let mut pattern = String::from_str("(?i)^");
    pattern.append(piece);
    pattern.append("$");
    pattern
}

/// Trusted: `regex::Regex::new` on `pattern`, then `regex::Regex::is_match`
/// on `haystack`. `None` where the pattern is refused.
///
/// Both calls depend on their arguments alone, so the outcome is named by
/// [`pattern_is_valid`] and [`pattern_matches`]. One thing is claimed beyond
/// the names. Where the pattern is `(?i)^`, a run of one to [`WORD_LIMIT`]
/// ASCII letters and `$`, the crate accepts it (letters are literals, and so
/// short a pattern stays far below the crate's size limit), and it matches
/// exactly the texts with as many characters as the run has letters, each in
/// the simple case folding class of its letter: `^` and `$` stand for the two
/// ends of the haystack, and `(?i)` lets a letter match the members of its
/// class, which for an ASCII letter are its two cases and, for `k` and `s`,
/// U+212A and U+017F. This holds of the crate built with Unicode case folding,
/// as it is by default.
#[verifier::external_body]
pub(crate) fn match_pattern(pattern: &str, haystack: &str) -> (outcome: Option<bool>)
    ensures
        outcome == (if pattern_is_valid(pattern@) {
            Some(pattern_matches(pattern@, haystack@))
        } else {
            None::<bool>
        }),
        forall|word: Seq<char>|
            is_word(word) && pattern@ == #[trigger] anchored(word) ==> outcome == Some(
                same_ignoring_case(word, haystack@),
            ),
{
    match Regex::new(pattern) {
        Ok(regex) => Some(regex.is_match(haystack)),
        Err(_) => None,
    }
}

} // verus!
