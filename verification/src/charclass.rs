//! The character classes that decide where a token starts and ends.

use vstd::prelude::*;

verus! {

/// The four whitespace characters that the scanner knows.
pub open spec fn is_space(c: char) -> bool {
    c == ' ' || c == '\t' || c == '\r' || c == '\n'
}

/// The two characters that open a quoted literal.
pub open spec fn is_quote(c: char) -> bool {
    c == '"' || c == '\''
}

/// The characters that continue a word: ASCII letters, ASCII digits and the
/// underscore.
pub open spec fn is_word_char(c: char) -> bool {
    ||| 'a' <= c <= 'z'
    ||| 'A' <= c <= 'Z'
    ||| '0' <= c <= '9'
    ||| c == '_'
}

/// Whether `c` is alphabetic in the sense of Unicode, as the standard
/// library reports it. A word starts with such a character.
pub uninterp spec fn alphabetic(c: char) -> bool;

/// `char::is_alphabetic` of the standard library. Its answer is looked up in
/// Unicode tables; all that is claimed here is that the answer depends on the
/// character alone, under the name [`alphabetic`].
pub assume_specification[ char::is_alphabetic ](c: char) -> (yes: bool)
    ensures
        yes == alphabetic(c),
;

/// Whether `c` continues a word.
pub fn word_char(c: char) -> (yes: bool)
    ensures
        yes == is_word_char(c),
{
    ('a' <= c && c <= 'z') || ('A' <= c && c <= 'Z') || ('0' <= c && c <= '9') || c == '_'
}

} // verus!
