//! Letters without their case, and white space at the ends of a line.

use vstd::prelude::*;

verus! {

/// An ASCII letter, of either case.
pub open spec fn is_letter(c: char) -> bool {
    ('a' <= c <= 'z') || ('A' <= c <= 'Z')
}

/// A lowercase ASCII letter.
pub open spec fn is_lowercase_letter(c: char) -> bool {
    'a' <= c <= 'z'
}

/// The character that stands for `c` once case is set aside.
///
/// Simple case folding, on the classes that hold an ASCII letter: a capital
/// goes to its small letter, the Kelvin sign U+212A goes to `k` and the long s
/// U+017F goes to `s`. Every other character stands for itself.
pub open spec fn fold(c: char) -> char {
    if 'A' <= c <= 'Z' {
        ((c as int) + 32) as char
    } else if c == '\u{212A}' {
        'k'
    } else if c == '\u{17F}' {
        's'
    } else {
        c
    }
}

/// Two texts are the same but for the case of their characters.
pub open spec fn same_ignoring_case(a: Seq<char>, b: Seq<char>) -> bool {
    &&& a.len() == b.len()
    &&& forall|i: int|
        #![trigger a[i]]
        #![trigger b[i]]
        0 <= i < a.len() ==> fold(a[i]) == fold(b[i])
}

/// The characters with the Unicode property `White_Space`.
pub open spec fn is_white_space(c: char) -> bool {
    ||| '\u{9}' <= c <= '\u{D}'
    ||| c == ' '
    ||| c == '\u{85}'
    ||| c == '\u{A0}'
    ||| c == '\u{1680}'
    ||| '\u{2000}' <= c <= '\u{200A}'
    ||| c == '\u{2028}'
    ||| c == '\u{2029}'
    ||| c == '\u{202F}'
    ||| c == '\u{205F}'
    ||| c == '\u{3000}'
}

/// `s` without the white space it begins with.
pub open spec fn trimmed_start(s: Seq<char>) -> Seq<char>
    decreases s.len(),
{
    if s.len() > 0 && is_white_space(s.first()) {
        trimmed_start(s.drop_first())
    } else {
        s
    }
}

/// `s` without the white space it ends with.
pub open spec fn trimmed_end(s: Seq<char>) -> Seq<char>
    decreases s.len(),
{
    if s.len() > 0 && is_white_space(s.last()) {
        trimmed_end(s.drop_last())
    } else {
        s
    }
}

/// `s` without the white space around it. White space inside stays.
pub open spec fn trimmed(s: Seq<char>) -> Seq<char> {
    trimmed_end(trimmed_start(s))
}

/// Trusted: `str::trim` of the standard library.
///
/// The standard library documents that `trim` returns the slice with leading
/// and trailing white space removed, white space being the characters with
/// the Unicode property `White_Space`. The contract says so over
/// [`trimmed`], with the property written out in [`is_white_space`].
#[verifier::external_body]
pub(crate) fn trim(text: &str) -> (inner: &str)
    ensures
        inner@ == trimmed(text@),
{
    text.trim()
}

/// `s` holds white space and nothing else.
pub open spec fn is_blank(s: Seq<char>) -> bool {
    forall|k: int| 0 <= k < s.len() ==> is_white_space(#[trigger] s[k])
}

/// A text that neither begins nor ends with white space is its own trimming.
pub proof fn lemma_trimmed_is_identity(s: Seq<char>)
    requires
        s.len() > 0 ==> !is_white_space(s.first()) && !is_white_space(s.last()),
    ensures
        trimmed(s) == s,
{
}

/// Trimming a text made of white space alone leaves nothing.
pub proof fn lemma_trimmed_blank(s: Seq<char>)
    requires
        is_blank(s),
    ensures
        trimmed_start(s) == Seq::<char>::empty(),
        trimmed(s) == Seq::<char>::empty(),
    decreases s.len(),
{
    if s.len() > 0 {
        lemma_trimmed_blank(s.drop_first());
    } else {
        assert(s =~= Seq::<char>::empty());
    }
}

/// White space put before a text is trimmed away with the text's own.
proof fn lemma_trimmed_start_skips(before: Seq<char>, s: Seq<char>)
    requires
        is_blank(before),
    ensures
        trimmed_start(before + s) == trimmed_start(s),
    decreases before.len(),
{
    if before.len() > 0 {
        assert((before + s).drop_first() =~= before.drop_first() + s);
        lemma_trimmed_start_skips(before.drop_first(), s);
    } else {
        assert(before + s =~= s);
    }
}

/// White space put after a text is trimmed away with the text's own.
proof fn lemma_trimmed_end_skips(s: Seq<char>, after: Seq<char>)
    requires
        is_blank(after),
    ensures
        trimmed_end(s + after) == trimmed_end(s),
    decreases after.len(),
{
    if after.len() > 0 {
        assert((s + after).drop_last() =~= s + after.drop_last());
        lemma_trimmed_end_skips(s, after.drop_last());
    } else {
        assert(s + after =~= s);
    }
}

/// Trimming the start of a text that is not blank leaves what follows it
/// in place.
proof fn lemma_trimmed_start_keeps(s: Seq<char>, after: Seq<char>)
    requires
        !is_blank(s),
    ensures
        trimmed_start(s + after) == trimmed_start(s) + after,
    decreases s.len(),
{
    if is_white_space(s.first()) {
        let rest = s.drop_first();
        assert forall|k: int| 0 <= k < s.len() && !is_white_space(s[k]) implies !is_blank(
            rest,
        ) by {
            assert(rest[k - 1] == s[k]);
        }
        assert((s + after).drop_first() =~= rest + after);
        lemma_trimmed_start_keeps(rest, after);
    }
}

/// White space around a text does not change its trimming.
pub proof fn lemma_trimmed_ignores_padding(before: Seq<char>, s: Seq<char>, after: Seq<char>)
    requires
        is_blank(before),
        is_blank(after),
    ensures
        trimmed(before + s + after) == trimmed(s),
{
    assert(before + s + after =~= before + (s + after));
    lemma_trimmed_start_skips(before, s + after);
    if is_blank(s) {
        lemma_trimmed_blank(s);
        lemma_trimmed_blank(s + after);
    } else {
        lemma_trimmed_start_keeps(s, after);
        lemma_trimmed_end_skips(trimmed_start(s), after);
    }
}

} // verus!
