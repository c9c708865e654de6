//! The scanner: a cursor over a source text that hands out one token per
//! call.

use vstd::prelude::*;
use vstd::string::StrSliceExecFns;
use crate::charclass::word_char;
use crate::encoding::{
    byte_len, byte_offset, decode, lemma_offset_monotone, lemma_offset_step, slice, utf8_width,
};
use crate::grammar::{
    at, block_comment_end, closes_raw, comment_token, lemma_scan_bounds, line_comment_end,
    open_paren, raw_close, raw_string_token, scan, string_end, token_given, word_end, word_token,
};
use crate::token::{Token, TokenType};

verus! {

/// A cursor over a source text. It keeps the byte offsets of the token that
/// is being scanned and a window of four characters round the cursor: the
/// two before the current one, the current one, and the one ahead.
pub struct Scanner<'a> {
    src: &'a str,
    chars: Vec<char>,
    prev_prev_char: Option<char>,
    prev_char: Option<char>,
    curr_char: Option<char>,
    next_char: Option<char>,
    start: usize,
    current: usize,
    start_index: usize,
    index: usize,
    steps: Ghost<int>,
}

impl<'a> Scanner<'a> {
    /// The source text, as characters.
    pub closed spec fn source(&self) -> Seq<char> {
        self.src@
    }

    /// The index of the character at which the token in progress starts.
    pub closed spec fn token_start(&self) -> int {
        self.start_index as int
    }

    /// The number of characters consumed so far: the index of the character
    /// ahead, or the length of the text once all of it is consumed.
    pub closed spec fn position(&self) -> int {
        self.index as int
    }

    /// How many places the window has moved. Up to the length of the text
    /// this is the position; it goes on counting where `advance` is called
    /// at the end of the text.
    pub closed spec fn steps(&self) -> int {
        self.steps@
    }

    /// The scanner's invariant. The token in progress lies within the text,
    /// the byte offsets are those of its first character and of the
    /// character ahead, so both are character boundaries, and the window
    /// holds the characters round the cursor.
    pub closed spec fn wf(&self) -> bool {
        let s = self.src@;
        let n = self.steps@;
        &&& self.chars@ == s
        &&& byte_len(s) <= usize::MAX
        &&& 0 <= n
        &&& self.index == if n < s.len() { n } else { s.len() as int }
        &&& self.start_index <= self.index
        &&& self.start == byte_offset(s, self.start_index as int)
        &&& self.current == byte_offset(s, self.index as int)
        &&& self.next_char == at(s, n)
        &&& self.curr_char == at(s, n - 1)
        &&& self.prev_char == at(s, n - 2)
        &&& self.prev_prev_char == at(s, n - 3)
    }

    /// What `wf` says of the positions.
    pub proof fn lemma_positions(&self)
        requires
            self.wf(),
        ensures
            0 <= self.token_start() <= self.position() <= self.source().len(),
            0 <= self.steps(),
            self.position() == if self.steps() < self.source().len() {
                self.steps()
            } else {
                self.source().len() as int
            },
    {
    }

    /// A scanner at the start of `src`.
    pub fn new(src: &'a str) -> (scanner: Self)
        ensures
            scanner.wf(),
            scanner.source() == src@,
            scanner.token_start() == 0,
            scanner.position() == 0,
    {
        let chars = decode(src);
        let next_char = if chars.len() > 0 {
            Some(chars[0])
        } else {
            None
        };
        proof {
            lemma_offset_monotone(src@, 0, 0);
        }
        Scanner {
            src,
            chars,
            prev_prev_char: None,
            prev_char: None,
            curr_char: None,
            next_char,
            start: 0,
            current: 0,
            start_index: 0,
            index: 0,
            steps: Ghost(0),
        }
    }

    /// Consumes the character ahead, if there is one, and moves the window
    /// on by one place.
    pub fn advance(&mut self)
        requires
            old(self).wf(),
        ensures
            final(self).wf(),
            final(self).source() == old(self).source(),
            final(self).token_start() == old(self).token_start(),
            final(self).steps() == old(self).steps() + 1,
            final(self).position() == if old(self).position() < old(self).source().len() {
                old(self).position() + 1
            } else {
                old(self).position()
            },
    {
        let ghost s = self.src@;
        match self.next_char {
            Some(c) => {
                proof {
                    assert(self.index < self.chars.len());
                    lemma_offset_step(s, self.index as int);
                    lemma_offset_monotone(s, self.index + 1, self.index + 1);
                }
                self.current = self.current + utf8_width(c);
                self.index = self.index + 1;
            },
            None => {},
        }
        self.prev_prev_char = self.prev_char;
        self.prev_char = self.curr_char;
        self.curr_char = self.next_char;
        self.next_char = if self.index < self.chars.len() {
            Some(self.chars[self.index])
        } else {
            None
        };
        self.steps = Ghost(self.steps@ + 1);
    }

    /// The token of the given kind whose lexeme runs from the start of the
    /// token in progress to the cursor.
    pub fn make_token(&self, token_type: TokenType) -> (token: Token<'a>)
        requires
            self.wf(),
        ensures
            token.token_type == token_type,
            token.lexeme@ == self.source().subrange(self.token_start(), self.position()),
    {
        Token {
            lexeme: slice(
                self.src,
                self.start,
                self.current,
                Ghost(self.start_index as int),
                Ghost(self.index as int),
            ),
            token_type,
        }
    }

    /// The next token, or `None` once the whole text is consumed. The token
    /// starts where the last one ended, holds at least one character, and its
    /// kind and end are those that the first character decides.
    pub fn next(&mut self) -> (token: Option<Token<'a>>)
        requires
            old(self).wf(),
        ensures
            final(self).wf(),
            final(self).source() == old(self).source(),
            final(self).token_start() == old(self).position(),
            match token {
                Some(t) => {
                    &&& old(self).position() < final(self).position() <= old(self).source().len()
                    &&& (t.token_type, final(self).position()) == scan(
                        old(self).source(),
                        old(self).position(),
                    )
                    &&& t.lexeme@ == old(self).source().subrange(
                        old(self).position(),
                        final(self).position(),
                    )
                },
                None => {
                    &&& old(self).position() == old(self).source().len()
                    &&& final(self).position() == old(self).position()
                },
            },
    {
        proof {
            if self.index < self.src@.len() {
                lemma_scan_bounds(self.src@, self.index as int);
            }
        }
        self.start = self.current;
        self.start_index = self.index;

        self.advance();
        match self.curr_char {
            Some(c) => Some(self.dispatch(c, c.is_alphabetic())),
            None => None,
        }
    }

    /// Scans the token whose first character, `c`, has been consumed, given
    /// whether `c` is alphabetic.
    pub fn dispatch(&mut self, c: char, letter: bool) -> (token: Token<'a>)
        requires
            old(self).wf(),
        ensures
            final(self).wf(),
            final(self).source() == old(self).source(),
            final(self).token_start() == old(self).token_start(),
            (token.token_type, final(self).position()) == token_given(
                old(self).source(),
                old(self).token_start(),
                old(self).position(),
                c,
                letter,
            ),
            token.lexeme@ == final(self).source().subrange(
                final(self).token_start(),
                final(self).position(),
            ),
    {
        match c {
            ' ' | '\t' | '\r' | '\n' => self.make_token(TokenType::Space),
            '/' => self.handle_comment(),
            '"' | '\'' => self.handle_string(c),
            _ => {
                if letter {
                    if c == 'R' && is_double_quote(self.next_char) {
                        self.handle_raw_string()
                    } else {
                        self.handle_identifier()
                    }
                } else {
                    self.make_token(TokenType::Other)
                }
            },
        }
    }

    /// Whether the lexeme of the token in progress is spelled exactly like
    /// `word`.
    fn spells(&self, word: &str) -> (yes: bool)
        requires
            self.wf(),
        ensures
            yes == (self.source().subrange(self.token_start(), self.position()) == word@),
    {
        let ghost lexeme = self.src@.subrange(self.start_index as int, self.index as int);
        let n = word.unicode_len();
        if self.index - self.start_index != n {
            return false;
        }
        let mut i: usize = 0;
        while i < n
            invariant
                self.wf(),
                n == word@.len(),
                n == lexeme.len(),
                lexeme == self.src@.subrange(self.start_index as int, self.index as int),
                i <= n,
                forall|k: int| 0 <= k < i ==> lexeme[k] == word@[k],
            decreases n - i,
        {
            if self.chars[self.start_index + i] != word.get_char(i) {
                assert(lexeme[i as int] != word@[i as int]);
                return false;
            }
            i = i + 1;
        }
        assert(lexeme =~= word@);
        true
    }

    /// Scans the rest of a word whose first character has been consumed: the
    /// word characters ahead are consumed, and the word is classified by its
    /// exact spelling.
    pub fn handle_identifier(&mut self) -> (token: Token<'a>)
        requires
            old(self).wf(),
        ensures
            final(self).wf(),
            final(self).source() == old(self).source(),
            final(self).token_start() == old(self).token_start(),
            (token.token_type, final(self).position()) == word_token(
                old(self).source(),
                old(self).token_start(),
                old(self).position(),
            ),
            token.lexeme@ == final(self).source().subrange(
                final(self).token_start(),
                final(self).position(),
            ),
    {
        let ghost s = self.src@;
        loop
            invariant
                self.wf(),
                self.src@ == s,
                s == old(self).src@,
                self.start_index == old(self).start_index,
                old(self).index <= self.index,
                word_end(s, self.index as int) == word_end(s, old(self).index as int),
            ensures
                self.wf(),
                self.src@ == s,
                self.start_index == old(self).start_index,
                self.index == word_end(s, old(self).index as int),
            decreases s.len() - self.index,
        {
            match self.next_char {
                Some(c) => {
                    if word_char(c) {
                        self.advance();
                    } else {
                        break;
                    }
                },
                None => {
                    break;
                },
            }
        }

        if self.spells("AND") {
            self.make_token(TokenType::And)
        } else if self.spells("OR") {
            self.make_token(TokenType::Or)
        } else if self.spells("EQ") {
            self.make_token(TokenType::Eq)
        } else if self.spells("NEQ") {
            self.make_token(TokenType::Neq)
        } else if self.spells("XOR") {
            self.make_token(TokenType::Xor)
        } else if self.spells("NULL") {
            self.make_token(TokenType::Null)
        } else {
            self.make_token(TokenType::Identifier)
        }
    }

    /// Scans the token that a `/` starts, the `/` itself consumed: a block
    /// comment through its `*/`, a line comment through its line feed, either
    /// of them as `Other` to the end of the text where it is not closed, or
    /// the `/` alone.
    pub fn handle_comment(&mut self) -> (token: Token<'a>)
        requires
            old(self).wf(),
        ensures
            final(self).wf(),
            final(self).source() == old(self).source(),
            final(self).token_start() == old(self).token_start(),
            (token.token_type, final(self).position()) == comment_token(
                old(self).source(),
                old(self).position(),
            ),
            token.lexeme@ == final(self).source().subrange(
                final(self).token_start(),
                final(self).position(),
            ),
    {
        let ghost s = self.src@;
        let ghost p = self.index as int;
        if let Some(next) = self.next_char {
            if next == '*' {
                loop
                    invariant_except_break
                        self.index < s.len(),
                        block_comment_end(s, self.index as int) == block_comment_end(s, p),
                    invariant
                        self.wf(),
                        self.src@ == s,
                        s == old(self).src@,
                        p == old(self).index,
                        self.start_index == old(self).start_index,
                        at(s, p) == Some('*'),
                    ensures
                        self.index == s.len(),
                        block_comment_end(s, p) is None,
                    decreases s.len() - self.index,
                {
                    self.advance();
                    if let Some(c) = self.curr_char {
                        if let Some(n) = self.next_char {
                            if c == '*' && n == '/' {
                                self.advance();
                                return self.make_token(TokenType::Comment);
                            }
                        } else {
                            break;
                        }
                    } else {
                        break;
                    }
                }
            } else if next == '/' {
                loop
                    invariant_except_break
                        line_comment_end(s, self.index as int) == line_comment_end(s, p),
                    invariant
                        self.wf(),
                        self.src@ == s,
                        s == old(self).src@,
                        p == old(self).index,
                        self.start_index == old(self).start_index,
                        at(s, p) == Some('/'),
                    ensures
                        self.index == s.len(),
                        line_comment_end(s, p) is None,
                    decreases s.len() - self.index,
                {
                    match self.next_char {
                        Some(c) => {
                            if c == '\n' {
                                self.advance();
                                return self.make_token(TokenType::Comment);
                            }
                            self.advance();
                        },
                        None => {
                            break;
                        },
                    }
                }
            }
        }

        self.make_token(TokenType::Other)
    }

    /// Scans a quoted literal whose opening quote, `start_char`, has been
    /// consumed: through the first unescaped `start_char`, or to the end of
    /// the text where there is none. The kind is `String` either way.
    pub fn handle_string(&mut self, start_char: char) -> (token: Token<'a>)
        requires
            old(self).wf(),
        ensures
            final(self).wf(),
            final(self).source() == old(self).source(),
            final(self).token_start() == old(self).token_start(),
            token.token_type == TokenType::String,
            final(self).position() == string_end(
                old(self).source(),
                old(self).position(),
                start_char,
            ),
            token.lexeme@ == final(self).source().subrange(
                final(self).token_start(),
                final(self).position(),
            ),
    {
        let ghost s = self.src@;
        let ghost p = self.index as int;
        loop
            invariant_except_break
                string_end(s, self.index as int, start_char) == string_end(s, p, start_char),
            invariant
                self.wf(),
                self.src@ == s,
                s == old(self).src@,
                p == old(self).index,
                self.start_index == old(self).start_index,
            ensures
                self.index == string_end(s, p, start_char),
            decreases s.len() - self.index,
        {
            self.advance();
            match self.curr_char {
                Some(c) => {
                    if c == start_char {
                        if is_backslash(self.prev_char) && is_backslash(self.prev_prev_char) {
                            break;
                        } else if !is_backslash(self.prev_char) {
                            break;
                        }
                    }
                },
                None => {
                    break;
                },
            }
        }
        self.make_token(TokenType::String)
    }

    /// Whether the characters from `a` to `b` are the same text as those from
    /// `c` to `d`.
    fn same_text(&self, a: usize, b: usize, c: usize, d: usize) -> (yes: bool)
        requires
            self.wf(),
            a <= b <= self.source().len(),
            c <= d <= self.source().len(),
        ensures
            yes == (self.source().subrange(a as int, b as int) == self.source().subrange(
                c as int,
                d as int,
            )),
    {
        let ghost left = self.src@.subrange(a as int, b as int);
        let ghost right = self.src@.subrange(c as int, d as int);
        let n = b - a;
        if d - c != n {
            assert(left.len() != right.len());
            return false;
        }
        let mut i: usize = 0;
        while i < n
            invariant
                self.wf(),
                a <= b <= self.src@.len(),
                c <= d <= self.src@.len(),
                n == b - a,
                n == d - c,
                left == self.src@.subrange(a as int, b as int),
                right == self.src@.subrange(c as int, d as int),
                i <= n,
                forall|k: int| 0 <= k < i ==> left[k] == right[k],
            decreases n - i,
        {
            if self.chars[a + i] != self.chars[c + i] {
                assert(left[i as int] != right[i as int]);
                return false;
            }
            i = i + 1;
        }
        assert(left =~= right);
        true
    }

    /// Scans a raw string literal whose `R` has been consumed and whose `"`
    /// is ahead. The characters up to the first `(` are the delimiter name;
    /// the literal closes at the first `"` that has the name directly before
    /// it and a `)` directly before the name. Where the `(` or the closing
    /// sequence is missing, the token is `Other` and runs to the end of the
    /// text.
    pub fn handle_raw_string(&mut self) -> (token: Token<'a>)
        requires
            old(self).wf(),
        ensures
            final(self).wf(),
            final(self).source() == old(self).source(),
            final(self).token_start() == old(self).token_start(),
            (token.token_type, final(self).position()) == raw_string_token(
                old(self).source(),
                old(self).position(),
            ),
            token.lexeme@ == final(self).source().subrange(
                final(self).token_start(),
                final(self).position(),
            ),
    {
        let ghost s = self.src@;
        let ghost p = self.index as int;
        self.advance();
        let name_from = self.index;

        loop
            invariant_except_break
                open_paren(s, self.index as int) == open_paren(s, p + 1),
            invariant
                self.wf(),
                self.src@ == s,
                s == old(self).src@,
                p == old(self).index,
                self.start_index == old(self).start_index,
                name_from <= self.index,
                p < s.len() ==> name_from == p + 1,
            ensures
                p < s.len(),
                name_from < self.index,
                open_paren(s, p + 1) == Some(self.index - 1),
            decreases s.len() - self.index,
        {
            self.advance();
            match self.curr_char {
                Some(c) => {
                    if c == '(' {
                        break;
                    }
                },
                None => {
                    return self.make_token(TokenType::Other);
                },
            }
        }

        let name_to = self.index - 1;
        let ghost paren = name_to as int;

        let mut mark: usize = 0;
        loop
            invariant_except_break
                raw_close(s, p + 1, paren, self.index as int) == raw_close(
                    s,
                    p + 1,
                    paren,
                    paren + 1,
                ),
            invariant
                self.wf(),
                self.src@ == s,
                s == old(self).src@,
                p == old(self).index,
                self.start_index == old(self).start_index,
                name_from == p + 1,
                name_from <= name_to,
                paren == name_to,
                open_paren(s, p + 1) == Some(paren),
                paren < self.index,
                mark <= self.index,
                mark == 0 ==> forall|m: int| paren < m < self.index ==> s[m] != ')',
                mark != 0 ==> paren + 1 < mark && s[mark - 1] == ')' && forall|m: int|
                    mark <= m < self.index ==> s[m] != ')',
            ensures
                raw_close(s, p + 1, paren, paren + 1) == Some(self.index as int),
            decreases s.len() - self.index,
        {
            let ghost k = self.index as int;
            self.advance();
            match self.curr_char {
                Some(c) => {
                    if c == ')' {
                        mark = self.index;
                    } else if c == '"' {
                        if self.same_text(name_from, name_to, mark, self.index - 1) {
                            assert(closes_raw(s, p + 1, paren, k)) by {
                                let name = s.subrange(p + 1, paren);
                                let tail = s.subrange(mark as int, k);
                                assert(name.len() == paren - (p + 1));
                                assert(tail.len() == k - mark);
                                assert(name == tail);
                                assert(mark != 0);
                                assert(k - (paren - (p + 1)) - 1 == mark - 1);
                            }
                            break;
                        }
                        assert(!closes_raw(s, p + 1, paren, k)) by {
                            if closes_raw(s, p + 1, paren, k) {
                                let close = k - (paren - (p + 1)) - 1;
                                if mark != 0 {
                                    assert(close == mark - 1);
                                }
                            }
                        }
                    }
                },
                None => {
                    return self.make_token(TokenType::Other);
                },
            }
        }

        self.make_token(TokenType::RawString)
    }
}

/// Whether the window holds a double quote at this place.
fn is_double_quote(c: Option<char>) -> (yes: bool)
    ensures
        yes == (c == Some('"')),
{
    match c {
        Some(c) => c == '"',
        None => false,
    }
}

/// Whether the window holds a backslash at this place.
fn is_backslash(c: Option<char>) -> (yes: bool)
    ensures
        yes == (c == Some('\\')),
{
    match c {
        Some(c) => c == '\\',
        None => false,
    }
}

} // verus!
