use keyword_rewrite::scanner::Scanner;
use keyword_rewrite::token::TokenType;

fn all_tokens(text: &str) -> Vec<(TokenType, String)> {
    let mut scanner = Scanner::new(text);
    let mut found = Vec::new();
    while let Some(token) = scanner.next() {
        assert!(!token.lexeme.is_empty());
        found.push((token.token_type, token.lexeme.to_string()));
        assert!(found.len() <= text.len());
    }
    assert!(scanner.next().is_none());
    found
}

fn kinds(text: &str) -> Vec<TokenType> {
    all_tokens(text).into_iter().map(|t| t.0).collect()
}

fn lexemes(text: &str) -> Vec<String> {
    all_tokens(text).into_iter().map(|t| t.1).collect()
}

fn covers(text: &str) {
    assert_eq!(lexemes(text).concat(), text);
}

#[test]
fn empty_text_has_no_token() {
    let mut scanner = Scanner::new("");
    assert!(scanner.next().is_none());
    assert!(scanner.next().is_none());
}

#[test]
fn lexemes_put_together_are_the_text() {
    covers("if (a AND b) { return NULL; } // done\n");
    covers("/* open");
    covers("\"open");
    covers("R\"x(open");
    covers("R\"(a)\" R\"d(b)d\"");
    covers("a\t\r\n b");
    covers("é→日本語 \"ü\" // ö");
    covers("'\\'' \"\\\\\" \\");
}

#[test]
fn each_whitespace_character_is_a_token() {
    assert_eq!(
        kinds(" \t\r\n"),
        vec![TokenType::Space, TokenType::Space, TokenType::Space, TokenType::Space]
    );
    assert_eq!(lexemes("  "), vec![" ", " "]);
}

#[test]
fn escaped_quote_does_not_end_the_string() {
    let tokens = all_tokens("\"a\\\"b\"");
    assert_eq!(tokens, vec![(TokenType::String, "\"a\\\"b\"".to_string())]);
}

#[test]
fn escaped_backslash_before_quote_ends_the_string() {
    let tokens = all_tokens("\"a\\\\\"b");
    assert_eq!(
        tokens,
        vec![
            (TokenType::String, "\"a\\\\\"".to_string()),
            (TokenType::Identifier, "b".to_string()),
        ]
    );
}

#[test]
fn three_backslashes_before_quote_end_the_string() {
    // Only the two characters before the quote are looked at.
    let tokens = all_tokens("\"\\\\\\\"b");
    assert_eq!(
        tokens,
        vec![
            (TokenType::String, "\"\\\\\\\"".to_string()),
            (TokenType::Identifier, "b".to_string()),
        ]
    );
}

#[test]
fn single_quotes_make_a_string_too() {
    assert_eq!(
        all_tokens("'a' 'b\"c'"),
        vec![
            (TokenType::String, "'a'".to_string()),
            (TokenType::Space, " ".to_string()),
            (TokenType::String, "'b\"c'".to_string()),
        ]
    );
}

#[test]
fn backslash_before_opening_quote_does_not_count() {
    assert_eq!(
        all_tokens("\\\"\" x"),
        vec![
            (TokenType::Other, "\\".to_string()),
            (TokenType::String, "\"\"".to_string()),
            (TokenType::Space, " ".to_string()),
            (TokenType::Identifier, "x".to_string()),
        ]
    );
}

#[test]
fn unterminated_string_runs_to_the_end() {
    assert_eq!(
        all_tokens("a \"bc d"),
        vec![
            (TokenType::Identifier, "a".to_string()),
            (TokenType::Space, " ".to_string()),
            (TokenType::String, "\"bc d".to_string()),
        ]
    );
    assert_eq!(all_tokens("\""), vec![(TokenType::String, "\"".to_string())]);
}

#[test]
fn raw_string_closes_at_its_own_delimiter() {
    let text = "R\"tag(content)notTag\"content)tag\"";
    assert_eq!(all_tokens(text), vec![(TokenType::RawString, text.to_string())]);
}

#[test]
fn raw_string_stops_at_the_first_closing_sequence() {
    assert_eq!(
        all_tokens("R\"tag(a)tag\"b)tag\""),
        vec![
            (TokenType::RawString, "R\"tag(a)tag\"".to_string()),
            (TokenType::Identifier, "b".to_string()),
            (TokenType::Other, ")".to_string()),
            (TokenType::Identifier, "tag".to_string()),
            (TokenType::String, "\"".to_string()),
        ]
    );
}

#[test]
fn raw_string_with_empty_delimiter() {
    assert_eq!(
        all_tokens("R\"(a\"b)\"c"),
        vec![
            (TokenType::RawString, "R\"(a\"b)\"".to_string()),
            (TokenType::Identifier, "c".to_string()),
        ]
    );
}

#[test]
fn raw_string_needs_the_parenthesis_before_the_name() {
    // `xtag"` has the name before the quote but no `)` before the name.
    let text = "R\"tag(xtag\" y)tag\"";
    assert_eq!(all_tokens(text), vec![(TokenType::RawString, text.to_string())]);
}

#[test]
fn raw_string_without_parenthesis_is_other() {
    assert_eq!(all_tokens("R\"abc"), vec![(TokenType::Other, "R\"abc".to_string())]);
    assert_eq!(all_tokens("R\""), vec![(TokenType::Other, "R\"".to_string())]);
}

#[test]
fn raw_string_without_end_is_other() {
    assert_eq!(
        all_tokens("R\"x(abc)y\" d"),
        vec![(TokenType::Other, "R\"x(abc)y\" d".to_string())]
    );
    assert_eq!(all_tokens("R\"x("), vec![(TokenType::Other, "R\"x(".to_string())]);
}

#[test]
fn letter_r_alone_is_a_word() {
    assert_eq!(
        all_tokens("R Rx R'"),
        vec![
            (TokenType::Identifier, "R".to_string()),
            (TokenType::Space, " ".to_string()),
            (TokenType::Identifier, "Rx".to_string()),
            (TokenType::Space, " ".to_string()),
            (TokenType::Identifier, "R".to_string()),
            (TokenType::String, "'".to_string()),
        ]
    );
}

#[test]
fn block_comment_is_one_token() {
    assert_eq!(
        all_tokens("/* a\n * b */c"),
        vec![
            (TokenType::Comment, "/* a\n * b */".to_string()),
            (TokenType::Identifier, "c".to_string()),
        ]
    );
    assert_eq!(all_tokens("/**/"), vec![(TokenType::Comment, "/**/".to_string())]);
}

#[test]
fn block_comment_may_close_on_its_own_star() {
    assert_eq!(
        all_tokens("/*/x"),
        vec![
            (TokenType::Comment, "/*/".to_string()),
            (TokenType::Identifier, "x".to_string()),
        ]
    );
}

#[test]
fn unterminated_block_comment_is_other() {
    assert_eq!(all_tokens("/* a *"), vec![(TokenType::Other, "/* a *".to_string())]);
    assert_eq!(all_tokens("/*"), vec![(TokenType::Other, "/*".to_string())]);
}

#[test]
fn line_comment_takes_its_line_feed() {
    assert_eq!(
        all_tokens("// a\nb"),
        vec![
            (TokenType::Comment, "// a\n".to_string()),
            (TokenType::Identifier, "b".to_string()),
        ]
    );
    assert_eq!(all_tokens("//\n"), vec![(TokenType::Comment, "//\n".to_string())]);
}

#[test]
fn line_comment_without_line_feed_is_other() {
    assert_eq!(all_tokens("// a"), vec![(TokenType::Other, "// a".to_string())]);
    assert_eq!(all_tokens("//"), vec![(TokenType::Other, "//".to_string())]);
}

#[test]
fn slash_before_anything_else_stands_alone() {
    assert_eq!(
        all_tokens("a/b"),
        vec![
            (TokenType::Identifier, "a".to_string()),
            (TokenType::Other, "/".to_string()),
            (TokenType::Identifier, "b".to_string()),
        ]
    );
    assert_eq!(all_tokens("/"), vec![(TokenType::Other, "/".to_string())]);
}

#[test]
fn keywords_have_their_own_kinds() {
    assert_eq!(
        kinds("AND OR EQ NEQ XOR NULL"),
        vec![
            TokenType::And,
            TokenType::Space,
            TokenType::Or,
            TokenType::Space,
            TokenType::Eq,
            TokenType::Space,
            TokenType::Neq,
            TokenType::Space,
            TokenType::Xor,
            TokenType::Space,
            TokenType::Null,
        ]
    );
}

#[test]
fn other_spellings_are_identifiers() {
    for word in ["and", "And", "ANDROID", "android", "AN", "ANDAND", "AND_", "AND1", "OR2", "Null"] {
        assert_eq!(
            all_tokens(word),
            vec![(TokenType::Identifier, word.to_string())],
            "{}",
            word
        );
    }
}

#[test]
fn word_runs_through_letters_digits_and_underscores() {
    assert_eq!(
        all_tokens("a_1b-c"),
        vec![
            (TokenType::Identifier, "a_1b".to_string()),
            (TokenType::Other, "-".to_string()),
            (TokenType::Identifier, "c".to_string()),
        ]
    );
}

#[test]
fn digit_and_underscore_start_no_word() {
    assert_eq!(
        all_tokens("1a _b"),
        vec![
            (TokenType::Other, "1".to_string()),
            (TokenType::Identifier, "a".to_string()),
            (TokenType::Space, " ".to_string()),
            (TokenType::Other, "_".to_string()),
            (TokenType::Identifier, "b".to_string()),
        ]
    );
}

#[test]
fn letter_outside_ascii_starts_a_word_and_continues_none() {
    assert_eq!(
        all_tokens("éa aé"),
        vec![
            (TokenType::Identifier, "éa".to_string()),
            (TokenType::Space, " ".to_string()),
            (TokenType::Identifier, "a".to_string()),
            (TokenType::Identifier, "é".to_string()),
        ]
    );
}

#[test]
fn character_of_several_bytes_is_one_token() {
    assert_eq!(
        all_tokens("→€"),
        vec![(TokenType::Other, "→".to_string()), (TokenType::Other, "€".to_string())]
    );
    assert_eq!(all_tokens("😀"), vec![(TokenType::Other, "😀".to_string())]);
}

#[test]
fn advance_and_make_token_cut_by_characters() {
    let mut scanner = Scanner::new("é→x");
    assert_eq!(scanner.make_token(TokenType::Other).lexeme, "");
    scanner.advance();
    assert_eq!(scanner.make_token(TokenType::Other).lexeme, "é");
    scanner.advance();
    let token = scanner.make_token(TokenType::Identifier);
    assert_eq!(token.lexeme, "é→");
    assert_eq!(token.token_type, TokenType::Identifier);
    scanner.advance();
    scanner.advance();
    scanner.advance();
    assert_eq!(scanner.make_token(TokenType::Other).lexeme, "é→x");
}

#[test]
fn handle_identifier_takes_the_word_characters_ahead() {
    let mut scanner = Scanner::new("AND+");
    scanner.advance();
    let token = scanner.handle_identifier();
    assert_eq!(token.lexeme, "AND");
    assert_eq!(token.token_type, TokenType::And);
    let token = scanner.handle_identifier();
    assert_eq!(token.lexeme, "AND");
}

#[test]
fn handle_comment_looks_at_the_character_ahead() {
    let mut scanner = Scanner::new("/*x*/y");
    scanner.advance();
    let token = scanner.handle_comment();
    assert_eq!(token.lexeme, "/*x*/");
    assert_eq!(token.token_type, TokenType::Comment);
    let token = scanner.handle_comment();
    assert_eq!(token.lexeme, "/*x*/");
    assert_eq!(token.token_type, TokenType::Other);
}

#[test]
fn handle_string_ends_at_the_given_quote() {
    let mut scanner = Scanner::new("'a\"b'c");
    scanner.advance();
    let token = scanner.handle_string('\'');
    assert_eq!(token.lexeme, "'a\"b'");
    assert_eq!(token.token_type, TokenType::String);
    let token = scanner.handle_string('\'');
    assert_eq!(token.lexeme, "'a\"b'c");
    assert_eq!(token.token_type, TokenType::String);
}

#[test]
fn handle_raw_string_after_the_letter() {
    let mut scanner = Scanner::new("R\"d(x)d\"y");
    scanner.advance();
    let token = scanner.handle_raw_string();
    assert_eq!(token.lexeme, "R\"d(x)d\"");
    assert_eq!(token.token_type, TokenType::RawString);
    let token = scanner.handle_raw_string();
    assert_eq!(token.lexeme, "R\"d(x)d\"y");
    assert_eq!(token.token_type, TokenType::Other);
}

#[test]
fn token_output_is_replacement_or_lexeme() {
    let mut scanner = Scanner::new("NULL x");
    let token = scanner.next().unwrap();
    assert_eq!(token.output(), "nullptr");
    let token = scanner.next().unwrap();
    assert_eq!(token.output(), " ");
    let token = scanner.next().unwrap();
    assert_eq!(token.output(), "x");
}

#[test]
fn replacement_table() {
    assert_eq!(TokenType::And.replacement(), Some("&&"));
    assert_eq!(TokenType::Or.replacement(), Some("||"));
    assert_eq!(TokenType::Eq.replacement(), Some("=="));
    assert_eq!(TokenType::Neq.replacement(), Some("!="));
    assert_eq!(TokenType::Xor.replacement(), Some("^"));
    assert_eq!(TokenType::Null.replacement(), Some("nullptr"));
    for kind in [
        TokenType::Space,
        TokenType::Other,
        TokenType::Comment,
        TokenType::String,
        TokenType::RawString,
        TokenType::Identifier,
    ] {
        assert_eq!(kind.replacement(), None);
    }
}

#[test]
fn dispatch_goes_by_the_first_character_and_whether_it_is_a_letter() {
    let mut scanner = Scanner::new("ab+");
    scanner.advance();
    let token = scanner.dispatch('a', true);
    assert_eq!(token.lexeme, "ab");
    assert_eq!(token.token_type, TokenType::Identifier);

    let mut scanner = Scanner::new("ab+");
    scanner.advance();
    let token = scanner.dispatch('a', false);
    assert_eq!(token.lexeme, "a");
    assert_eq!(token.token_type, TokenType::Other);

    let mut scanner = Scanner::new("R\"(x)\"y");
    scanner.advance();
    let token = scanner.dispatch('R', true);
    assert_eq!(token.lexeme, "R\"(x)\"");
    assert_eq!(token.token_type, TokenType::RawString);

    let mut scanner = Scanner::new("R\"(x)\"y");
    scanner.advance();
    let token = scanner.dispatch('R', false);
    assert_eq!(token.lexeme, "R");
    assert_eq!(token.token_type, TokenType::Other);

    let mut scanner = Scanner::new(" x");
    scanner.advance();
    let token = scanner.dispatch(' ', false);
    assert_eq!(token.lexeme, " ");
    assert_eq!(token.token_type, TokenType::Space);
}
