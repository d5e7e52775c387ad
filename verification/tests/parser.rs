use yugolang::parser::{parse, Expression, Literal, ParseError, Scope, Statement};

fn names(statement: &Statement) -> Vec<String> {
    statement
        .0
        .iter()
        .map(|e| match e {
            Expression::Identifier(s) => s.clone(),
            Expression::Literal(Literal::String(s)) => format!("\"{s}\""),
            Expression::Literal(Literal::Int(v)) => v.to_string(),
            Expression::Literal(Literal::Float(bits)) => format!("float {bits}"),
            Expression::Scope(_) => "{..}".to_string(),
            Expression::ClosureArgs(_) => "|..|".to_string(),
        })
        .collect()
}

#[test]
fn a_call_consumes_the_next_expression() {
    let scope = parse("print \"hi\";").unwrap();
    assert_eq!(scope.statements.len(), 1);
    assert_eq!(names(&scope.statements[0]), vec!["print", "\"hi\""]);
    assert!(scope.result.is_none());
}

#[test]
fn mismatched_braces_are_refused() {
    assert!(matches!(parse("print[\"hi\");"), Err(ParseError::UnmatchedBraces)));
}

#[test]
fn the_three_braces_are_equivalent() {
    let trees: Vec<String> = ["print(\"hi\");", "print{\"hi\"};", "print[\"hi\"];"]
        .iter()
        .map(|text| format!("{:?}", parse(text).unwrap()))
        .collect();
    assert_eq!(trees[0], trees[1]);
    assert_eq!(trees[1], trees[2]);
}

#[test]
fn the_last_statement_without_semicolon_is_the_result() {
    let scope = parse("a; b c").unwrap();
    assert_eq!(scope.statements.len(), 1);
    assert_eq!(names(&scope.statements[0]), vec!["a"]);
    assert_eq!(names(scope.result.as_ref().unwrap()), vec!["b", "c"]);
}

#[test]
fn an_empty_statement_is_kept() {
    let scope = parse(";;").unwrap();
    assert_eq!(scope.statements.len(), 2);
    assert!(scope.statements[0].0.is_empty());
    assert!(scope.result.is_none());
}

#[test]
fn braces_open_nested_scopes() {
    let scope = parse("f {x; y}").unwrap();
    let result = scope.result.unwrap();
    assert_eq!(names(&result), vec!["f", "{..}"]);
    let Expression::Scope(inner) = &result.0[1] else { panic!("not a scope") };
    let inner: &Scope = inner;
    assert_eq!(inner.statements.len(), 1);
    assert_eq!(names(&inner.statements[0]), vec!["x"]);
    assert_eq!(names(inner.result.as_ref().unwrap()), vec!["y"]);
}

#[test]
fn an_unclosed_brace_is_refused() {
    assert!(matches!(parse("(a"), Err(ParseError::UnclosedBrace)));
}

#[test]
fn an_unopened_brace_is_refused() {
    assert!(matches!(parse("a)"), Err(ParseError::UnopenedBrace)));
}

#[test]
fn integers_are_read() {
    let scope = parse("12 0").unwrap();
    assert_eq!(names(scope.result.as_ref().unwrap()), vec!["12", "0"]);
    let scope = parse(".").unwrap();
    assert_eq!(names(scope.result.as_ref().unwrap()), vec!["."]);
}

#[test]
fn an_integer_too_large_is_refused() {
    match parse("99999999999999999999") {
        Err(ParseError::NumberParseError(text)) => assert_eq!(text, "99999999999999999999"),
        other => panic!("unexpected {other:?}"),
    }
    assert!(parse("9223372036854775807").is_ok());
}

#[test]
fn a_number_with_a_decimal_point_is_refused() {
    match parse("1.5") {
        Err(ParseError::NumberParseError(text)) => assert_eq!(text, "1+5"),
        other => panic!("unexpected {other:?}"),
    }
    match parse(".5") {
        Err(ParseError::NumberParseError(text)) => assert_eq!(text, "0+5"),
        other => panic!("unexpected {other:?}"),
    }
    match parse("7.;") {
        Err(ParseError::NumberParseError(text)) => assert_eq!(text, "7+0"),
        other => panic!("unexpected {other:?}"),
    }
}

#[test]
fn lexer_errors_become_parse_errors() {
    assert!(matches!(parse("'"), Err(ParseError::InvalidSymbol('\''))));
    assert!(matches!(parse("\"a"), Err(ParseError::StringLiteralUnclosed)));
    assert!(matches!(parse("\"\\a\""), Err(ParseError::StringLiteralPointlessEscape)));
    assert!(matches!(parse("1.2.3"), Err(ParseError::NumberDecimalDividerDoubled)));
}
