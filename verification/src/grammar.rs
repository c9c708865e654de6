//! Where each token ends and what kind it has, stated over the text as a
//! sequence of characters. Positions are character indices.

use vstd::prelude::*;
use crate::charclass::{alphabetic, is_quote, is_space, is_word_char};
use crate::token::{keyword_of, TokenType};

verus! {

/// The character at index `i`, if the text has one there.
pub open spec fn at(s: Seq<char>, i: int) -> Option<char> {
    if 0 <= i < s.len() {
        Some(s[i])
    } else {
        None
    }
}

/// The index at which the run of word characters that starts at `i` ends:
/// the first index from `i` on that holds no word character, or the end of
/// the text.
pub open spec fn word_end(s: Seq<char>, i: int) -> int
    decreases s.len() - i,
{
    if 0 <= i < s.len() && is_word_char(s[i]) {
        word_end(s, i + 1)
    } else {
        i
    }
}

/// The index behind the first line feed from `j` on, if there is one.
pub open spec fn line_comment_end(s: Seq<char>, j: int) -> Option<int>
    decreases s.len() - j,
{
    if j < 0 || j >= s.len() {
        None
    } else if s[j] == '\n' {
        Some(j + 1)
    } else {
        line_comment_end(s, j + 1)
    }
}

/// Whether a `*/` starts at index `j`.
pub open spec fn closes_block(s: Seq<char>, j: int) -> bool {
    at(s, j) == Some('*') && at(s, j + 1) == Some('/')
}

/// The index behind the first `*/` that starts at `j` or later, if there is
/// one.
pub open spec fn block_comment_end(s: Seq<char>, j: int) -> Option<int>
    decreases s.len() - j,
{
    if j < 0 || j + 1 >= s.len() {
        None
    } else if closes_block(s, j) {
        Some(j + 2)
    } else {
        block_comment_end(s, j + 1)
    }
}

/// The token that a `/` starts, where `p` is the index behind the `/`: its
/// kind and its end. A `/*` runs through the first `*/` from `p` on (so `/*/`
/// is a whole comment), a `//` through the next line feed, and either is
/// `Other` running to the end of the text where that is missing. A `/` before
/// anything else stands alone.
pub open spec fn comment_token(s: Seq<char>, p: int) -> (TokenType, int) {
    if at(s, p) == Some('*') {
        match block_comment_end(s, p) {
            Some(end) => (TokenType::Comment, end),
            None => (TokenType::Other, s.len() as int),
        }
    } else if at(s, p) == Some('/') {
        match line_comment_end(s, p) {
            Some(end) => (TokenType::Comment, end),
            None => (TokenType::Other, s.len() as int),
        }
    } else {
        (TokenType::Other, p)
    }
}

/// Whether a quote at index `i` is escaped: a backslash stands before it,
/// and no second backslash before that one. Only these two characters are
/// looked at, so of three backslashes before a quote the last two count.
pub open spec fn escaped(s: Seq<char>, i: int) -> bool {
    at(s, i - 1) == Some('\\') && at(s, i - 2) != Some('\\')
}

/// Whether an unescaped `quote` stands at index `i`.
pub open spec fn closes_string(s: Seq<char>, i: int, quote: char) -> bool {
    at(s, i) == Some(quote) && !escaped(s, i)
}

/// The end of a quoted literal whose content starts at `i` and which `quote`
/// closes: the index behind the first unescaped `quote` from `i` on, or the
/// end of the text where there is none.
pub open spec fn string_end(s: Seq<char>, i: int, quote: char) -> int
    decreases s.len() - i,
{
    if i < 0 || i >= s.len() {
        s.len() as int
    } else if closes_string(s, i, quote) {
        i + 1
    } else {
        string_end(s, i + 1, quote)
    }
}

/// The index of the first `(` from `j` on, if there is one.
pub open spec fn open_paren(s: Seq<char>, j: int) -> Option<int>
    decreases s.len() - j,
{
    if j < 0 || j >= s.len() {
        None
    } else if s[j] == '(' {
        Some(j)
    } else {
        open_paren(s, j + 1)
    }
}

/// Whether the `"` at index `k` closes the raw string literal whose delimiter
/// name stands between `name_from` and the opening parenthesis at `paren`:
/// the name stands directly before it, a `)` directly before the name, behind
/// the opening parenthesis, and the name holds no `)`.
pub open spec fn closes_raw(s: Seq<char>, name_from: int, paren: int, k: int) -> bool {
    let close = k - (paren - name_from) - 1;
    &&& at(s, k) == Some('"')
    &&& paren < close
    &&& s[close] == ')'
    &&& s.subrange(close + 1, k) == s.subrange(name_from, paren)
    &&& forall|m: int| close < m < k ==> s[m] != ')'
}

/// The index behind the first `"` from `j` on that closes the raw string
/// literal, if there is one.
pub open spec fn raw_close(s: Seq<char>, name_from: int, paren: int, j: int) -> Option<int>
    decreases s.len() - j,
{
    if j < 0 || j >= s.len() {
        None
    } else if closes_raw(s, name_from, paren, j) {
        Some(j + 1)
    } else {
        raw_close(s, name_from, paren, j + 1)
    }
}

/// The token that `R"` starts, where `p` is the index of the `"`: a raw
/// string literal through its closing sequence, or `Other` running to the end
/// of the text where the opening parenthesis or the closing sequence is
/// missing.
pub open spec fn raw_string_token(s: Seq<char>, p: int) -> (TokenType, int) {
    match open_paren(s, p + 1) {
        Some(paren) => match raw_close(s, p + 1, paren, paren + 1) {
            Some(end) => (TokenType::RawString, end),
            None => (TokenType::Other, s.len() as int),
        },
        None => (TokenType::Other, s.len() as int),
    }
}

/// The word that starts at `start` and whose first character has been
/// consumed up to `p`: its kind and its end.
pub open spec fn word_token(s: Seq<char>, start: int, p: int) -> (TokenType, int) {
    let end = word_end(s, p);
    (keyword_of(s.subrange(start, end)), end)
}

/// The token that started at `start` and whose first character, `c`, has
/// been consumed up to index `p`, where `letter` says whether `c` is
/// alphabetic: its kind and the index behind it. The first character decides:
/// a whitespace character stands alone, a `/` starts a comment, a quote a
/// literal, a letter a raw string literal or a word, and anything else stands
/// alone.
pub open spec fn token_given(s: Seq<char>, start: int, p: int, c: char, letter: bool) -> (
    TokenType,
    int,
) {
    if is_space(c) {
        (TokenType::Space, p)
    } else if c == '/' {
        comment_token(s, p)
    } else if is_quote(c) {
        (TokenType::String, string_end(s, p, c))
    } else if letter {
        if c == 'R' && at(s, p) == Some('"') {
            raw_string_token(s, p)
        } else {
            word_token(s, start, p)
        }
    } else {
        (TokenType::Other, p)
    }
}

/// The token that starts at index `i` of the text: its kind and the index
/// behind it.
pub open spec fn scan(s: Seq<char>, i: int) -> (TokenType, int)
    recommends
        0 <= i < s.len(),
{
    token_given(s, i, i + 1, s[i], alphabetic(s[i]))
}

/// A run of word characters holds nothing else, and what follows it is no
/// word character.
pub proof fn lemma_word_end(s: Seq<char>, i: int)
    requires
        0 <= i <= s.len(),
    ensures
        i <= word_end(s, i) <= s.len(),
        forall|k: int| i <= k < word_end(s, i) ==> is_word_char(#[trigger] s[k]),
        word_end(s, i) < s.len() ==> !is_word_char(s[word_end(s, i)]),
    decreases s.len() - i,
{
    if i < s.len() && is_word_char(s[i]) {
        lemma_word_end(s, i + 1);
    }
}

/// A line comment ends behind the first line feed from `j` on; it has no end
/// where there is no line feed.
pub proof fn lemma_line_comment_end(s: Seq<char>, j: int)
    requires
        0 <= j,
    ensures
        match line_comment_end(s, j) {
            Some(end) => {
                &&& j < end <= s.len()
                &&& s[end - 1] == '\n'
                &&& forall|k: int| j <= k < end - 1 ==> #[trigger] s[k] != '\n'
            },
            None => forall|k: int| j <= k < s.len() ==> #[trigger] s[k] != '\n',
        },
    decreases s.len() - j,
{
    if j < s.len() && s[j] != '\n' {
        lemma_line_comment_end(s, j + 1);
    }
}

/// A block comment ends behind the first `*/` that starts at `j` or later;
/// it has no end where there is none.
pub proof fn lemma_block_comment_end(s: Seq<char>, j: int)
    requires
        0 <= j,
    ensures
        match block_comment_end(s, j) {
            Some(end) => {
                &&& j + 1 < end <= s.len()
                &&& closes_block(s, end - 2)
                &&& forall|k: int| j <= k < end - 2 ==> !closes_block(s, k)
            },
            None => forall|k: int| j <= k ==> !closes_block(s, k),
        },
    decreases s.len() - j,
{
    if j + 1 < s.len() && !closes_block(s, j) {
        lemma_block_comment_end(s, j + 1);
    }
}

/// A quoted literal ends behind the first unescaped quote from `i` on, or
/// at the end of the text where there is none.
pub proof fn lemma_string_end(s: Seq<char>, i: int, quote: char)
    requires
        0 <= i <= s.len(),
    ensures
        i <= string_end(s, i, quote) <= s.len(),
        forall|k: int| i <= k < string_end(s, i, quote) - 1 ==> !closes_string(s, k, quote),
        ({
            let end = string_end(s, i, quote);
            ||| i < end && closes_string(s, end - 1, quote)
            ||| end == s.len() && forall|k: int| i <= k ==> !closes_string(s, k, quote)
        }),
    decreases s.len() - i,
{
    if i < s.len() && !closes_string(s, i, quote) {
        lemma_string_end(s, i + 1, quote);
    }
}

/// The opening parenthesis that is found is the first from `j` on; none is
/// found where there is none.
pub proof fn lemma_open_paren(s: Seq<char>, j: int)
    requires
        0 <= j,
    ensures
        match open_paren(s, j) {
            Some(paren) => {
                &&& j <= paren < s.len()
                &&& s[paren] == '('
                &&& forall|k: int| j <= k < paren ==> #[trigger] s[k] != '('
            },
            None => forall|k: int| j <= k < s.len() ==> #[trigger] s[k] != '(',
        },
    decreases s.len() - j,
{
    if j < s.len() && s[j] != '(' {
        lemma_open_paren(s, j + 1);
    }
}

/// A raw string literal ends behind the first `"` from `j` on that closes
/// it; it has no end where there is none.
pub proof fn lemma_raw_close(s: Seq<char>, name_from: int, paren: int, j: int)
    requires
        0 <= j,
    ensures
        match raw_close(s, name_from, paren, j) {
            Some(end) => {
                &&& j < end <= s.len()
                &&& closes_raw(s, name_from, paren, end - 1)
                &&& forall|k: int| j <= k < end - 1 ==> !closes_raw(s, name_from, paren, k)
            },
            None => forall|k: int| j <= k ==> !closes_raw(s, name_from, paren, k),
        },
    decreases s.len() - j,
{
    if j < s.len() && !closes_raw(s, name_from, paren, j) {
        lemma_raw_close(s, name_from, paren, j + 1);
    }
}

/// Every token holds at least one character and ends within the text.
pub proof fn lemma_scan_bounds(s: Seq<char>, i: int)
    requires
        0 <= i < s.len(),
    ensures
        i < scan(s, i).1 <= s.len(),
{
    lemma_block_comment_end(s, i + 1);
    lemma_line_comment_end(s, i + 1);
    lemma_string_end(s, i + 1, s[i]);
    lemma_word_end(s, i + 1);
    lemma_open_paren(s, i + 2);
    match open_paren(s, i + 2) {
        Some(paren) => {
            lemma_raw_close(s, i + 2, paren, paren + 1);
        },
        None => {},
    }
}

} // verus!
