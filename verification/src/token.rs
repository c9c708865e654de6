//! Tokens and the substitution table.

use vstd::prelude::*;

verus! {

/// The lexical category of a token.
#[derive(Debug, Clone, Copy, PartialEq, Eq, Structural)]
pub enum TokenType {
    /// One whitespace character: a space, a tab, a carriage return or a line feed.
    Space,
    /// A single character of no other category, or a malformed construct
    /// that runs to the end of the text.
    Other,
    /// A whole block comment or line comment.
    Comment,
    /// A whole literal in double or single quotes.
    String,
    /// A whole raw string literal.
    RawString,
    /// A word that is none of the six keywords.
    Identifier,
    /// The word `AND`.
    And,
    /// The word `OR`.
    Or,
    /// The word `EQ`.
    Eq,
    /// The word `NEQ`.
    Neq,
    /// The word `XOR`.
    Xor,
    /// The word `NULL`.
    Null,
}

/// A classified span of the source text.
#[derive(Debug, Clone, Copy)]
pub struct Token<'a> {
    /// The text of the token, borrowed from the source.
    pub lexeme: &'a str,
    /// Its category.
    pub token_type: TokenType,
}

/// The category of a finished word: one of the six keyword kinds where the
/// word is spelled exactly like that keyword, `Identifier` otherwise.
pub open spec fn keyword_of(word: Seq<char>) -> TokenType {
    if word == "AND"@ {
        TokenType::And
    } else if word == "OR"@ {
        TokenType::Or
    } else if word == "EQ"@ {
        TokenType::Eq
    } else if word == "NEQ"@ {
        TokenType::Neq
    } else if word == "XOR"@ {
        TokenType::Xor
    } else if word == "NULL"@ {
        TokenType::Null
    } else {
        TokenType::Identifier
    }
}

/// Whether the word is spelled exactly like one of the six keywords, letter
/// for letter and in capitals.
pub open spec fn is_keyword_spelling(word: Seq<char>) -> bool {
    ||| word == "AND"@
    ||| word == "OR"@
    ||| word == "EQ"@
    ||| word == "NEQ"@
    ||| word == "XOR"@
    ||| word == "NULL"@
}

/// What the six keyword kinds are replaced with; `None` for the kinds whose
/// lexeme passes through.
pub open spec fn replacement_of(kind: TokenType) -> Option<Seq<char>> {
    match kind {
        TokenType::And => Some("&&"@),
        TokenType::Or => Some("||"@),
        TokenType::Eq => Some("=="@),
        TokenType::Neq => Some("!="@),
        TokenType::Xor => Some("^"@),
        TokenType::Null => Some("nullptr"@),
        _ => None,
    }
}

/// The text that a token of the given kind and lexeme contributes to the
/// output.
pub open spec fn emitted(kind: TokenType, lexeme: Seq<char>) -> Seq<char> {
    match replacement_of(kind) {
        Some(text) => text,
        None => lexeme,
    }
}

impl TokenType {
    /// Whether this is one of the six keyword kinds.
    pub open spec fn is_keyword(self) -> bool {
        replacement_of(self) is Some
    }

    /// The replacement text of a keyword kind, `None` for every other kind.
    pub fn replacement(self) -> (text: Option<&'static str>)
        ensures
            match text {
                Some(t) => replacement_of(self) == Some(t@),
                None => replacement_of(self) is None,
            },
    {
        match self {
            TokenType::And => Some("&&"),
            TokenType::Or => Some("||"),
            TokenType::Eq => Some("=="),
            TokenType::Neq => Some("!="),
            TokenType::Xor => Some("^"),
            TokenType::Null => Some("nullptr"),
            _ => None,
        }
    }
}

impl<'a> Token<'a> {
    /// The text that this token contributes to the output: the replacement
    /// for a keyword, the lexeme itself for every other kind.
    pub fn output(&self) -> (text: &'a str)
        ensures
            text@ == emitted(self.token_type, self.lexeme@),
    {
        match self.token_type.replacement() {
            Some(t) => t,
            None => self.lexeme,
        }
    }
}

} // verus!
