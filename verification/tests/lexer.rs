use yugolang::lexer::{
    is_word_identifier_continue, is_word_identifier_start, tokenize, BraceType, Literal, Token,
    TokenizeError,
};

fn identifier(t: &Token) -> Option<&str> {
    match t {
        Token::Identifier(s) => Some(s.as_str()),
        _ => None,
    }
}

#[test]
fn it_works() {
    let result = tokenize("hi;").unwrap();
    assert!(matches!(result[..], [Token::Identifier(_), Token::Semicolon]));
}

#[test]
fn braces_and_semicolons_stand_alone() {
    let result = tokenize("([{}]);").unwrap();
    assert!(matches!(
        result[..],
        [
            Token::LBrace(BraceType::Paren),
            Token::LBrace(BraceType::Square),
            Token::LBrace(BraceType::Curly),
            Token::RBrace(BraceType::Curly),
            Token::RBrace(BraceType::Square),
            Token::RBrace(BraceType::Paren),
            Token::Semicolon
        ]
    ));
}

#[test]
fn whitespace_alone_gives_no_tokens() {
    assert!(tokenize("  \t\n ").unwrap().is_empty());
    assert!(tokenize("").unwrap().is_empty());
}

#[test]
fn comments_run_to_the_end_of_the_line() {
    let result = tokenize("// a comment ; (\nx").unwrap();
    assert_eq!(result.len(), 1);
    assert_eq!(identifier(&result[0]), Some("x"));
    assert!(tokenize("// only a comment").unwrap().is_empty());
}

#[test]
fn words_and_symbols_are_separate_identifiers() {
    let result = tokenize("a+b_1 <= c").unwrap();
    let names: Vec<_> = result.iter().map(|t| identifier(t).unwrap()).collect();
    assert_eq!(names, vec!["a", "+", "b_1", "<=", "c"]);
}

#[test]
fn underscore_starts_a_symbol_identifier() {
    let result = tokenize("_x").unwrap();
    let names: Vec<_> = result.iter().map(|t| identifier(t).unwrap()).collect();
    assert_eq!(names, vec!["_", "x"]);
}

#[test]
fn a_square_brace_continues_a_symbol() {
    let result = tokenize("+[").unwrap();
    assert_eq!(result.len(), 1);
    assert_eq!(identifier(&result[0]), Some("+["));
}

#[test]
fn numbers_keep_their_parts() {
    let result = tokenize("42 3.25 .5 7.").unwrap();
    let parts: Vec<(String, Option<String>)> = result
        .into_iter()
        .map(|t| match t {
            Token::Literal(Literal::Number(w, f)) => (w, f),
            _ => panic!("not a number"),
        })
        .collect();
    assert_eq!(
        parts,
        vec![
            ("42".to_string(), None),
            ("3".to_string(), Some("25".to_string())),
            ("".to_string(), Some("5".to_string())),
            ("7".to_string(), Some("".to_string())),
        ]
    );
}

#[test]
fn nine_is_a_digit() {
    let result = tokenize("19").unwrap();
    assert!(matches!(&result[..], [Token::Literal(Literal::Number(w, None))] if w == "19"));
}

#[test]
fn a_number_followed_by_a_dot_and_a_word_ends_before_the_dot() {
    let result = tokenize("1.a").unwrap();
    assert_eq!(result.len(), 3);
    assert!(matches!(&result[0], Token::Literal(Literal::Number(w, None)) if w == "1"));
    assert_eq!(identifier(&result[1]), Some("."));
    assert_eq!(identifier(&result[2]), Some("a"));
}

#[test]
fn a_second_decimal_point_before_a_digit_is_an_error() {
    assert!(matches!(tokenize("1.2.3"), Err(TokenizeError::NumberDecimalDividerDoubled)));
}

#[test]
fn strings_unescape_quotes_and_backslashes() {
    let result = tokenize(r#""a\"b\\c""#).unwrap();
    assert!(matches!(&result[..], [Token::Literal(Literal::String(s))] if s == "a\"b\\c"));
    let empty = tokenize(r#""""#).unwrap();
    assert!(matches!(&empty[..], [Token::Literal(Literal::String(s))] if s.is_empty()));
}

#[test]
fn an_unclosed_string_is_an_error() {
    assert!(matches!(tokenize("\"abc"), Err(TokenizeError::StringLiteralUnclosed)));
}

#[test]
fn a_pointless_escape_is_an_error() {
    assert!(matches!(tokenize(r#""a\nb""#), Err(TokenizeError::StringLiteralPointlessEscape)));
}

#[test]
fn an_unknown_character_is_an_error() {
    assert!(matches!(tokenize("a ' b"), Err(TokenizeError::InvalidSymbol('\''))));
}

#[test]
fn identifiers_are_runs_of_symbols_or_words() {
    let result = tokenize("+=-> abc_1 _x9 \u{e9}t\u{e9}").unwrap();
    let names: Vec<Option<&str>> = result.iter().map(identifier).collect();
    assert_eq!(
        names,
        vec![Some("+=->"), Some("abc_1"), Some("_"), Some("x9"), Some("\u{e9}t\u{e9}")]
    );
}

#[test]
fn a_word_start_also_continues_a_word() {
    assert!(is_word_identifier_continue('7'));
    assert!(!is_word_identifier_start('7'));
    assert!(!is_word_identifier_continue('+'));
    for c in ['a', 'Z', '_', '\u{e9}', '\u{4eac}'] {
        assert!(is_word_identifier_start(c));
        assert!(is_word_identifier_continue(c));
    }
}
