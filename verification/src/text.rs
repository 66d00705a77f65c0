//! Text: whitespace, prefixes and joined lines.

use vstd::prelude::*;

verus! {

/// The characters with the Unicode property `White_Space`.
pub open spec fn is_white_space(c: char) -> bool {
    ||| '\u{9}' <= c <= '\u{d}'
    ||| c == ' '
    ||| c == '\u{85}'
    ||| c == '\u{a0}'
    ||| c == '\u{1680}'
    ||| '\u{2000}' <= c <= '\u{200a}'
    ||| c == '\u{2028}'
    ||| c == '\u{2029}'
    ||| c == '\u{202f}'
    ||| c == '\u{205f}'
    ||| c == '\u{3000}'
}

/// `text` without the white space that it starts with.
pub open spec fn trimmed_start(text: Seq<char>) -> Seq<char>
    decreases text.len(),
{
    if text.len() > 0 && is_white_space(text.first()) {
        trimmed_start(text.drop_first())
    } else {
        text
    }
}

/// `text` without the white space that it ends with.
pub open spec fn trimmed_end(text: Seq<char>) -> Seq<char>
    decreases text.len(),
{
    if text.len() > 0 && is_white_space(text.last()) {
        trimmed_end(text.drop_last())
    } else {
        text
    }
}

/// `text` without the white space that it starts and ends with.
pub open spec fn trimmed(text: Seq<char>) -> Seq<char> {
    trimmed_end(trimmed_start(text))
}

/// Whether `text` is empty or all white space.
pub open spec fn blank(text: Seq<char>) -> bool {
    forall|i: int| 0 <= i < text.len() ==> is_white_space(#[trigger] text[i])
}

/// A text is blank exactly where nothing of it is left once it is trimmed.
pub proof fn lemma_blank_is_trimmed_empty(text: Seq<char>)
    ensures
        blank(text) <==> trimmed(text).len() == 0,
{
    lemma_trimmed_start(text);
    lemma_trimmed_end(trimmed_start(text));
}

/// A text that is not blank is not blank once it is trimmed either.
pub proof fn lemma_trimmed_is_not_blank(text: Seq<char>)
    requires
        !blank(text),
    ensures
        !blank(trimmed(text)),
{
    lemma_trimmed_start(text);
    lemma_trimmed_end(trimmed_start(text));
    assert(!is_white_space(trimmed(text)[0]));
}

proof fn lemma_trimmed_start(text: Seq<char>)
    ensures
        blank(text) <==> trimmed_start(text).len() == 0,
        trimmed_start(text).len() > 0 ==> !is_white_space(trimmed_start(text).first()),
    decreases text.len(),
{
    if text.len() > 0 && is_white_space(text.first()) {
        let rest = text.drop_first();
        lemma_trimmed_start(rest);
        if blank(rest) {
            assert forall|i: int| 0 <= i < text.len() implies is_white_space(#[trigger] text[i]) by {
                if i > 0 {
                    assert(rest[i - 1] == text[i]);
                }
            }
        }
        if blank(text) {
            assert forall|i: int| 0 <= i < rest.len() implies is_white_space(#[trigger] rest[i]) by {
                assert(rest[i] == text[i + 1]);
            }
        }
    } else if text.len() > 0 {
        assert(!is_white_space(text[0]));
    }
}

proof fn lemma_trimmed_end(text: Seq<char>)
    requires
        text.len() > 0 ==> !is_white_space(text.first()),
    ensures
        trimmed_end(text).len() == 0 <==> text.len() == 0,
        text.len() > 0 ==> trimmed_end(text).first() == text.first(),
    decreases text.len(),
{
    if text.len() > 0 && is_white_space(text.last()) {
        lemma_trimmed_end(text.drop_last());
    }
}

/// `str::trim`: the text without its leading and trailing white space.
#[verifier::external_body]
pub(crate) fn trim(text: &str) -> (inner: &str)
    ensures
        inner@ == trimmed(text@),
{
    text.trim()
}

/// Whether a text is empty or all white space.
pub(crate) fn is_blank(text: &str) -> (empty: bool)
    ensures
        empty == blank(text@),
{
    proof {
        lemma_blank_is_trimmed_empty(text@);
    }
    trim(text).is_empty()
}

/// `str::starts_with` with a string: whether `text` begins with `prefix`.
#[verifier::external_body]
pub(crate) fn starts_with(text: &str, prefix: &str) -> (found: bool)
    ensures
        found == prefix@.is_prefix_of(text@),
{
    text.starts_with(prefix)
}

/// `<str as PartialEq>::eq`: whether two texts hold the same characters.
pub assume_specification[ <str as PartialEq>::eq ](left: &str, right: &str) -> (same: bool)
    ensures
        same == (left@ == right@),
;

/// The texts in order, with a line break between each two.
pub open spec fn joined(texts: Seq<Seq<char>>) -> Seq<char>
    decreases texts.len(),
{
    if texts.len() == 0 {
        Seq::empty()
    } else if texts.len() == 1 {
        texts[0]
    } else {
        joined(texts.drop_last()) + "\n"@ + texts.last()
    }
}

} // verus!
