//! Matching a text against the pieces of a target.
//!
//! A piece of a target is a non-empty contiguous run of its characters. A
//! text matches the target when the anchored, case-insensitive pattern of
//! some piece matches the whole text.

use vstd::pervasive::unreached;
use vstd::prelude::*;
use vstd::utf8::is_ascii_chars;
use crate::pattern::{
    anchored, anchored_pattern, is_word, match_pattern, pattern_is_valid, pattern_matches,
};
use crate::text::{is_letter, same_ignoring_case};

verus! {

/// The pattern of `piece` is one that the `regex` crate accepts: the piece is
/// a word, or the crate says so.
pub open spec fn piece_is_usable(piece: Seq<char>) -> bool {
    is_word(piece) || pattern_is_valid(anchored(piece))
}

/// The pattern of `piece` matches `input`. For a word this is to say that
/// `input` is the word but for case; for any other piece it is what the
/// `regex` crate makes of the pattern.
pub open spec fn piece_matches(piece: Seq<char>, input: Seq<char>) -> bool {
    if is_word(piece) {
        same_ignoring_case(piece, input)
    } else {
        pattern_is_valid(anchored(piece)) && pattern_matches(anchored(piece), input)
    }
}

/// Every piece of `target` can be cut at byte positions and has a pattern
/// that the `regex` crate accepts.
pub open spec fn is_matchable(target: Seq<char>) -> bool {
    &&& is_ascii_chars(target)
    &&& forall|i: int, j: int|
        0 <= i < j <= target.len() ==> piece_is_usable(#[trigger] target.subrange(i, j))
}

/// Some piece of `target` matches `input`.
pub open spec fn has_matching_piece(target: Seq<char>, input: Seq<char>) -> bool {
    exists|i: int, j: int|
        0 <= i < j <= target.len() && piece_matches(#[trigger] target.subrange(i, j), input)
}

/// `entry` is, but for case, a non-empty contiguous run of the characters of
/// `label`.
pub open spec fn names_piece_of(label: Seq<char>, entry: Seq<char>) -> bool {
    exists|i: int, j: int|
        0 <= i < j <= label.len() && same_ignoring_case(#[trigger] label.subrange(i, j), entry)
}

/// A word is matchable, and a text matches it exactly when the text is one of
/// its pieces but for case.
pub proof fn lemma_word_matching(target: Seq<char>, input: Seq<char>)
    requires
        is_word(target),
    ensures
        is_matchable(target),
        has_matching_piece(target, input) == names_piece_of(target, input),
{
    assert forall|i: int, j: int| 0 <= i < j <= target.len() implies is_word(
        #[trigger] target.subrange(i, j),
    ) by {
        let piece = target.subrange(i, j);
        assert forall|k: int| 0 <= k < piece.len() implies is_letter(#[trigger] piece[k]) by {
            assert(piece[k] == target[i + k]);
        }
    }
    if has_matching_piece(target, input) {
        let (i, j) = choose|i: int, j: int|
            0 <= i < j <= target.len() && piece_matches(#[trigger] target.subrange(i, j), input);
        assert(same_ignoring_case(target.subrange(i, j), input));
    }
    if names_piece_of(target, input) {
        let (i, j) = choose|i: int, j: int|
            0 <= i < j <= target.len() && same_ignoring_case(
                #[trigger] target.subrange(i, j),
                input,
            );
        assert(piece_matches(target.subrange(i, j), input));
    }
}

/// Tests one piece against `input`: `None` where the piece has no usable
/// pattern.
fn piece_outcome(piece: &str, input: &str) -> (outcome: Option<bool>)
    ensures
        outcome == (if piece_is_usable(piece@) {
            Some(piece_matches(piece@, input@))
        } else {
            None::<bool>
        }),
{
    let pattern = anchored_pattern(piece);
    match_pattern(pattern.as_str(), input)
}

/// Whether every piece of `target` can be cut and tested.
fn every_piece_is_usable(target: &str) -> (usable: bool)
    ensures
        usable == is_matchable(target@),
{
    if !target.is_ascii() {
        return false;
    }
    let n = target.unicode_len();
    let mut i: usize = 0;
    while i < n
        invariant
            n == target@.len(),
            i <= n,
            target.is_ascii(),
            forall|a: int, b: int|
                0 <= a < i && a < b <= n ==> piece_is_usable(#[trigger] target@.subrange(a, b)),
        decreases n - i,
    {
        let mut j: usize = i;
        while j < n
            invariant
                n == target@.len(),
                i <= j <= n,
                i < n,
                target.is_ascii(),
                forall|b: int|
                    i < b <= j ==> piece_is_usable(#[trigger] target@.subrange(i as int, b)),
            decreases n - j,
        {
            j += 1;
            let piece = target.substring_ascii(i, j);
            if piece_outcome(piece, "").is_none() {
                return false;
            }
        }
        i += 1;
    }
    true
}

/// Whether `input`, taken whole and without regard to case, matches some
/// piece of `target`.
///
/// The pieces are tried from the first character on, the shorter before the
/// longer, each through its anchored pattern. A target with a piece that
/// cannot be tested is left out: [`try_match_substring`] takes any target.
/// A word is never left out, by [`lemma_word_matching`].
pub fn match_substring(target: &str, input: &str) -> (found: bool)
    requires
        is_matchable(target@),
    ensures
        found == has_matching_piece(target@, input@),
        is_word(target@) ==> found == names_piece_of(target@, input@),
{
    proof {
        if is_word(target@) {
            lemma_word_matching(target@, input@);
        }
    }
    let n = target.unicode_len();
    let mut i: usize = 0;
    while i < n
        invariant
            n == target@.len(),
            i <= n,
            is_matchable(target@),
            forall|a: int, b: int|
                0 <= a < i && a < b <= n ==> !piece_matches(
                    #[trigger] target@.subrange(a, b),
                    input@,
                ),
        decreases n - i,
    {
        let mut j: usize = i;
        while j < n
            invariant
                n == target@.len(),
                i <= j <= n,
                i < n,
                is_matchable(target@),
                forall|b: int|
                    i < b <= j ==> !piece_matches(
                        #[trigger] target@.subrange(i as int, b),
                        input@,
                    ),
            decreases n - j,
        {
            j += 1;
            let piece = target.substring_ascii(i, j);
            let hit = match piece_outcome(piece, input) {
                Some(hit) => hit,
                None => unreached(),
            };
            if hit {
                return true;
            }
        }
        i += 1;
    }
    false
}

/// [`match_substring`] for any target: `None` where some piece of `target`
/// cannot be cut or has a pattern that is refused.
pub fn try_match_substring(target: &str, input: &str) -> (found: Option<bool>)
    ensures
        found == (if is_matchable(target@) {
            Some(has_matching_piece(target@, input@))
        } else {
            None::<bool>
        }),
{
    if every_piece_is_usable(target) {
        Some(match_substring(target, input))
    } else {
        None
    }
}

} // verus!
