//! From a line typed at the menu to the choice it names.

use vstd::prelude::*;
use crate::matcher::{lemma_word_matching, match_substring, names_piece_of};
use crate::menu::Menu;
use crate::pattern::is_word;
use crate::text::{
    fold, is_blank, is_lowercase_letter, is_white_space, lemma_trimmed_blank,
    lemma_trimmed_ignores_padding, lemma_trimmed_is_identity, same_ignoring_case, trim, trimmed,
};

verus! {

/// `entry` is, but for case, a piece of the label of `choice`.
pub open spec fn names(choice: Menu, entry: Seq<char>) -> bool {
    names_piece_of(choice.label_text(), entry)
}

/// The choice that `entry` names: the first from the top of the menu whose
/// label has `entry` as a piece, `Invalid` where no label has.
pub open spec fn resolved(entry: Seq<char>) -> Menu {
    if names(Menu::Ownership, entry) {
        Menu::Ownership
    } else if names(Menu::Structs, entry) {
        Menu::Structs
    } else if names(Menu::Enums, entry) {
        Menu::Enums
    } else if names(Menu::Reliability, entry) {
        Menu::Reliability
    } else if names(Menu::Quit, entry) {
        Menu::Quit
    } else {
        Menu::Invalid
    }
}

/// `piece` is a non-empty contiguous run of the characters of `label`.
pub open spec fn is_piece_of(piece: Seq<char>, label: Seq<char>) -> bool {
    exists|a: int, b: int| 0 <= a < b <= label.len() && #[trigger] label.subrange(a, b) == piece
}

/// `line` is the characters `i` to `j` of the label of `choice`, in any case,
/// and no choice above `choice` in the menu has these characters in its label.
pub open spec fn spells_piece(line: Seq<char>, choice: Menu, i: int, j: int) -> bool {
    &&& 0 <= i < j <= choice.label_text().len()
    &&& same_ignoring_case(choice.label_text().subrange(i, j), line)
    &&& forall|other: Menu|
        other.rank() < choice.rank() ==> !is_piece_of(
            choice.label_text().subrange(i, j),
            #[trigger] other.label_text(),
        )
}

/// Every label is a word of lowercase letters.
pub proof fn lemma_labels_are_words(choice: Menu)
    requires
        choice != Menu::Invalid,
    ensures
        is_word(choice.label_text()),
        forall|k: int|
            0 <= k < choice.label_text().len() ==> is_lowercase_letter(
                #[trigger] choice.label_text()[k],
            ),
{
    reveal_strlit("ownership");
    reveal_strlit("structs");
    reveal_strlit("enums");
    reveal_strlit("reliability");
    reveal_strlit("quit");
}

/// The choice resolved is the first in menu order that the entry names: the
/// entry names it, unless it is `Invalid`, and names no choice above it.
pub proof fn law_first_named_wins(entry: Seq<char>)
    ensures
        resolved(entry) != Menu::Invalid ==> names(resolved(entry), entry),
        forall|other: Menu|
            other != Menu::Invalid && #[trigger] names(other, entry) ==> resolved(entry).rank()
                <= other.rank(),
{
}

/// A piece of a label, typed in any case, resolves to the choice of that
/// label, unless the label of a choice higher in the menu holds the piece too.
pub proof fn law_piece_resolves_to_its_choice(line: Seq<char>, choice: Menu, i: int, j: int)
    requires
        spells_piece(line, choice, i, j),
    ensures
        trimmed(line) == line,
        resolved(trimmed(line)) == choice,
{
    let label = choice.label_text();
    let piece = label.subrange(i, j);
    lemma_labels_are_words(choice);
    assert forall|k: int| 0 <= k < line.len() implies !is_white_space(#[trigger] line[k]) by {
        assert(fold(piece[k]) == fold(line[k]));
        assert(piece[k] == label[i + k]);
    }
    lemma_trimmed_is_identity(line);
    assert(names(choice, line));
    assert forall|other: Menu| other.rank() < choice.rank() implies !names(other, line) by {
        if names(other, line) {
            lemma_labels_are_words(other);
            let (a, b) = choose|a: int, b: int|
                0 <= a < b <= other.label_text().len() && same_ignoring_case(
                    #[trigger] other.label_text().subrange(a, b),
                    line,
                );
            let found = other.label_text().subrange(a, b);
            assert forall|k: int| 0 <= k < piece.len() implies found[k] == piece[k] by {
                assert(fold(found[k]) == fold(line[k]));
                assert(fold(piece[k]) == fold(line[k]));
                assert(found[k] == other.label_text()[a + k]);
                assert(piece[k] == label[i + k]);
            }
            assert(found =~= piece);
            assert(is_piece_of(piece, other.label_text()));
        }
    }
}

/// A line of white space alone, or an empty one, resolves to `Invalid`.
pub proof fn law_blank_line_is_invalid(line: Seq<char>)
    requires
        is_blank(line),
    ensures
        resolved(trimmed(line)) == Menu::Invalid,
{
    lemma_trimmed_blank(line);
}

/// White space before and after a line does not change what it resolves to.
pub proof fn law_white_space_around_is_ignored(
    before: Seq<char>,
    line: Seq<char>,
    after: Seq<char>,
)
    requires
        is_blank(before),
        is_blank(after),
    ensures
        resolved(trimmed(before + line + after)) == resolved(trimmed(line)),
{
    lemma_trimmed_ignores_padding(before, line, after);
}

/// A line that, once trimmed, holds a character found in no label, case
/// aside, resolves to `Invalid`. White space inside a line is such a
/// character.
pub proof fn law_character_of_no_label_is_invalid(line: Seq<char>, k: int)
    requires
        0 <= k < trimmed(line).len(),
        forall|choice: Menu, at: int|
            0 <= at < choice.label_text().len() ==> fold(
                #[trigger] choice.label_text()[at],
            ) != fold(trimmed(line)[k]),
    ensures
        resolved(trimmed(line)) == Menu::Invalid,
{
    let entry = trimmed(line);
    assert forall|choice: Menu| !#[trigger] names(choice, entry) by {
        if names(choice, entry) {
            let label = choice.label_text();
            let (i, j) = choose|i: int, j: int|
                0 <= i < j <= label.len() && same_ignoring_case(
                    #[trigger] label.subrange(i, j),
                    entry,
                );
            assert(fold(label.subrange(i, j)[k]) == fold(entry[k]));
            assert(label.subrange(i, j)[k] == label[i + k]);
        }
    }
}

/// Resolution depends on the line alone: two outcomes for the same line, each
/// as [`resolve`] promises it, are the same choice.
pub proof fn law_same_line_same_choice(line: Seq<char>, first: Menu, second: Menu)
    requires
        first == resolved(trimmed(line)),
        second == resolved(trimmed(line)),
    ensures
        first == second,
{
}

/// Whether `entry` names `choice`.
fn entry_names(choice: Menu, entry: &str) -> (named: bool)
    ensures
        named == names(choice, entry@),
{
    match choice.label() {
        Some(label) => {
            proof {
                lemma_labels_are_words(choice);
                lemma_word_matching(label@, entry@);
            }
            match_substring(label, entry)
        },
        None => false,
    }
}

/// Resolves a line typed at the menu.
///
/// The line is taken without the white space around it and held against the
/// labels from the top of the menu down; the first label that has it as a
/// piece, whatever the case of the letters typed, decides.
pub fn resolve(input: &str) -> (choice: Menu)
    ensures
        choice == resolved(trimmed(input@)),
        is_blank(input@) ==> choice == Menu::Invalid,
        forall|named: Menu, i: int, j: int| #[trigger]
            spells_piece(input@, named, i, j) ==> choice == named,
{
    let entry = trim(input);
    proof {
        if is_blank(input@) {
            law_blank_line_is_invalid(input@);
        }
        assert forall|named: Menu, i: int, j: int| #[trigger]
            spells_piece(input@, named, i, j) implies resolved(trimmed(input@)) == named by {
            law_piece_resolves_to_its_choice(input@, named, i, j);
        }
    }
    if entry_names(Menu::Ownership, entry) {
        Menu::Ownership
    } else if entry_names(Menu::Structs, entry) {
        Menu::Structs
    } else if entry_names(Menu::Enums, entry) {
        Menu::Enums
    } else if entry_names(Menu::Reliability, entry) {
        Menu::Reliability
    } else if entry_names(Menu::Quit, entry) {
        Menu::Quit
    } else {
        Menu::Invalid
    }
}

} // verus!
