//! What holds of every text: the tokens cover it, only whole keywords are
//! replaced, and a text without keyword tokens comes out as it went in.

use vstd::prelude::*;
use crate::charclass::{alphabetic, is_quote, is_space, is_word_char};
use crate::grammar::{
    at, closes_block, closes_raw, closes_string, lemma_block_comment_end, lemma_line_comment_end,
    lemma_open_paren, lemma_raw_close, lemma_scan_bounds, lemma_string_end, lemma_word_end,
    open_paren, scan, word_end,
};
use crate::token::{emitted, is_keyword_spelling, keyword_of, TokenType};
use crate::transform::{rewritten, rewritten_from};

verus! {

/// The tokens of the text from index `i` on, each with its kind and lexeme,
/// in the order in which the scanner hands them out.
pub open spec fn tokens_from(s: Seq<char>, i: int) -> Seq<(TokenType, Seq<char>)>
    decreases s.len() - i,
    via tokens_from_decreases
{
    if 0 <= i < s.len() {
        let (kind, end) = scan(s, i);
        seq![(kind, s.subrange(i, end))] + tokens_from(s, end)
    } else {
        Seq::empty()
    }
}

#[via_fn]
proof fn tokens_from_decreases(s: Seq<char>, i: int) {
    if 0 <= i < s.len() {
        lemma_scan_bounds(s, i);
    }
}

/// The tokens of the whole text.
pub open spec fn tokens(s: Seq<char>) -> Seq<(TokenType, Seq<char>)> {
    tokens_from(s, 0)
}

/// The lexemes of the tokens, one after the other.
pub open spec fn joined_lexemes(ts: Seq<(TokenType, Seq<char>)>) -> Seq<char>
    decreases ts.len(),
{
    if ts.len() == 0 {
        Seq::empty()
    } else {
        ts[0].1 + joined_lexemes(ts.drop_first())
    }
}

/// What the tokens contribute to the output, one after the other.
pub open spec fn joined_outputs(ts: Seq<(TokenType, Seq<char>)>) -> Seq<char>
    decreases ts.len(),
{
    if ts.len() == 0 {
        Seq::empty()
    } else {
        emitted(ts[0].0, ts[0].1) + joined_outputs(ts.drop_first())
    }
}

/// Whether none of the tokens is a keyword.
pub open spec fn keyword_free(ts: Seq<(TokenType, Seq<char>)>) -> bool {
    forall|k: int| 0 <= k < ts.len() ==> !(#[trigger] ts[k]).0.is_keyword()
}

/// The lexemes of the tokens from `i` on, put together, are the text from
/// `i` on: nothing is dropped, repeated or moved.
pub proof fn lemma_coverage_from(s: Seq<char>, i: int)
    requires
        0 <= i <= s.len(),
    ensures
        joined_lexemes(tokens_from(s, i)) == s.skip(i),
    decreases s.len() - i,
{
    if i < s.len() {
        lemma_scan_bounds(s, i);
        let end = scan(s, i).1;
        lemma_coverage_from(s, end);
        let ts = tokens_from(s, i);
        assert(ts.drop_first() =~= tokens_from(s, end));
        assert(s.skip(i) =~= s.subrange(i, end) + s.skip(end));
    } else {
        assert(s.skip(i) =~= Seq::<char>::empty());
    }
}

/// The lexemes of all tokens of a text, put together in order, are the text.
pub proof fn lemma_total_coverage(s: Seq<char>)
    ensures
        joined_lexemes(tokens(s)) == s,
{
    lemma_coverage_from(s, 0);
    assert(s.skip(0) =~= s);
}

/// No token is empty, and each starts where the one before it ended: the
/// token at `i` ends behind `i`, within the text.
pub proof fn lemma_progress(s: Seq<char>, i: int)
    requires
        0 <= i < s.len(),
    ensures
        i < scan(s, i).1 <= s.len(),
        tokens_from(s, i).len() > 0,
        tokens_from(s, i)[0] == (scan(s, i).0, s.subrange(i, scan(s, i).1)),
        tokens_from(s, i).drop_first() == tokens_from(s, scan(s, i).1),
{
    lemma_scan_bounds(s, i);
    assert(tokens_from(s, i).drop_first() =~= tokens_from(s, scan(s, i).1));
}

/// The output is what the tokens contribute, one after the other.
pub proof fn lemma_rewritten_from_tokens(s: Seq<char>, i: int)
    requires
        0 <= i <= s.len(),
    ensures
        rewritten_from(s, i) == joined_outputs(tokens_from(s, i)),
    decreases s.len() - i,
{
    if i < s.len() {
        lemma_scan_bounds(s, i);
        let end = scan(s, i).1;
        lemma_rewritten_from_tokens(s, end);
        assert(tokens_from(s, i).drop_first() =~= tokens_from(s, end));
    }
}

/// Tokens none of which is a keyword contribute their lexemes.
pub proof fn lemma_outputs_without_keywords(ts: Seq<(TokenType, Seq<char>)>)
    requires
        keyword_free(ts),
    ensures
        joined_outputs(ts) == joined_lexemes(ts),
    decreases ts.len(),
{
    if ts.len() > 0 {
        let rest = ts.drop_first();
        assert forall|k: int| 0 <= k < rest.len() implies !(#[trigger] rest[k]).0.is_keyword() by {
            assert(rest[k] == ts[k + 1]);
        }
        lemma_outputs_without_keywords(rest);
        assert(!ts[0].0.is_keyword());
    }
}

/// A text none of whose tokens is a keyword is a fixed point: it comes out
/// as it went in, and so does its output when it is rewritten again.
pub proof fn lemma_fixed_point(s: Seq<char>)
    requires
        keyword_free(tokens(s)),
    ensures
        rewritten(s) == s,
        rewritten(rewritten(s)) == rewritten(s),
{
    lemma_rewritten_from_tokens(s, 0);
    lemma_outputs_without_keywords(tokens(s));
    lemma_total_coverage(s);
}

/// A word is classified as a keyword exactly when it is spelled like one.
/// Another case, a longer word or a shorter one is an identifier.
pub proof fn lemma_keyword_spelling(word: Seq<char>)
    ensures
        keyword_of(word).is_keyword() <==> is_keyword_spelling(word),
        !is_keyword_spelling(word) ==> keyword_of(word) == TokenType::Identifier,
{
}

/// A token is replaced only where it is a whole word, starting with a letter
/// and running through all the word characters that follow, that is spelled
/// exactly like a keyword. Every other token contributes its lexeme.
pub proof fn lemma_replaced_only_as_whole_keyword(s: Seq<char>, i: int)
    requires
        0 <= i < s.len(),
    ensures
        ({
            let (kind, end) = scan(s, i);
            let lexeme = s.subrange(i, end);
            &&& kind.is_keyword() ==> {
                &&& alphabetic(s[i])
                &&& !is_space(s[i]) && s[i] != '/' && !is_quote(s[i])
                &&& !(s[i] == 'R' && at(s, i + 1) == Some('"'))
                &&& is_keyword_spelling(lexeme)
                &&& kind == keyword_of(lexeme)
                &&& forall|k: int| i < k < end ==> is_word_char(#[trigger] s[k])
                &&& end < s.len() ==> !is_word_char(s[end])
            }
            &&& !kind.is_keyword() ==> emitted(kind, lexeme) == lexeme
        }),
{
    lemma_word_end(s, i + 1);
}

/// What starts with a quote, with a `/`, with `R"` or with a whitespace
/// character passes through whole, whatever it holds: the output from there
/// on is the token's lexeme, then the output for what follows the token.
pub proof fn lemma_literals_pass_through(s: Seq<char>, i: int)
    requires
        0 <= i < s.len(),
        is_quote(s[i]) || s[i] == '/' || is_space(s[i]) || (s[i] == 'R' && at(s, i + 1) == Some(
            '"',
        )),
    ensures
        !scan(s, i).0.is_keyword(),
        rewritten_from(s, i) == s.subrange(i, scan(s, i).1) + rewritten_from(s, scan(s, i).1),
{
    lemma_scan_bounds(s, i);
}

/// What a token of each kind looks like. A comment, a literal in quotes and
/// a raw string literal end with the first sequence that closes them; a
/// literal in quotes that nothing closes runs to the end of the text, and so
/// does every `Other` token of more than one character.
pub proof fn lemma_token_shapes(s: Seq<char>, i: int)
    requires
        0 <= i < s.len(),
    ensures
        ({
            let (kind, end) = scan(s, i);
            let name_from = i + 2;
            &&& i < end <= s.len()
            &&& kind == TokenType::Space ==> is_space(s[i]) && end == i + 1
            &&& kind == TokenType::Other ==> end == i + 1 || end == s.len()
            &&& kind == TokenType::Comment ==> {
                &&& s[i] == '/'
                &&& at(s, i + 1) == Some('*') ==> {
                    &&& i + 1 <= end - 2
                    &&& closes_block(s, end - 2)
                    &&& forall|k: int| i + 1 <= k < end - 2 ==> !closes_block(s, k)
                }
                &&& at(s, i + 1) != Some('*') ==> {
                    &&& at(s, i + 1) == Some('/')
                    &&& s[end - 1] == '\n'
                    &&& forall|k: int| i + 1 <= k < end - 1 ==> #[trigger] s[k] != '\n'
                }
            }
            &&& kind == TokenType::String ==> {
                &&& is_quote(s[i])
                &&& forall|k: int| i + 1 <= k < end - 1 ==> !closes_string(s, k, s[i])
                &&& {
                    ||| i + 1 < end && closes_string(s, end - 1, s[i])
                    ||| end == s.len() && forall|k: int| i + 1 <= k ==> !closes_string(s, k, s[i])
                }
            }
            &&& kind == TokenType::RawString ==> {
                &&& s[i] == 'R'
                &&& at(s, i + 1) == Some('"')
                &&& open_paren(s, name_from) matches Some(paren) && {
                    &&& paren < end - 1
                    &&& closes_raw(s, name_from, paren, end - 1)
                    &&& forall|k: int|
                        paren + 1 <= k < end - 1 ==> !closes_raw(s, name_from, paren, k)
                }
            }
            &&& kind == TokenType::Identifier || kind.is_keyword() ==> {
                &&& alphabetic(s[i])
                &&& end == word_end(s, i + 1)
                &&& kind == keyword_of(s.subrange(i, end))
            }
        }),
{
    lemma_scan_bounds(s, i);
    lemma_block_comment_end(s, i + 1);
    lemma_line_comment_end(s, i + 1);
    lemma_string_end(s, i + 1, s[i]);
    lemma_word_end(s, i + 1);
    lemma_open_paren(s, i + 2);
    match open_paren(s, i + 2) {
        Some(paren) => {
            lemma_raw_close(s, i + 2, paren, paren + 1);
        },
        None => {},
    }
}

} // verus!
