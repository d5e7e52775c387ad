//! Turning tokens into a tree of scopes, statements and expressions.
//!
//! A scope is a list of statements, each ended by a semicolon, and an optional
//! result: the expressions after the last semicolon. Any brace opens a nested
//! scope, which the brace of the same kind closes.
use crate::lexer::{self, tokens_view, BraceType, LiteralView, Token, TokenView, TokenizeError};
use vstd::prelude::*;
use vstd::string::StringExecFns;

verus! {

// ---------------------------------------------------------------------
// The tree
// ---------------------------------------------------------------------

/// A sequence of statements, with an optional final statement whose value is
/// the value of the scope.
#[derive(Debug)]
pub struct Scope {
    pub statements: Vec<Statement>,
    pub result: Option<Statement>,
}

/// The expressions of one statement, in order.
#[derive(Debug)]
pub struct Statement(pub Vec<Expression>);

/// An expression: a literal, a name, or a nested scope.
#[derive(Debug)]
pub enum Expression {
    Literal(Literal),
    Identifier(String),
    Scope(Box<Scope>),
    ClosureArgs(Box<Scope>),
}

/// The value of a literal. A float is held as the bits of its IEEE 754
/// binary64 value (`f64::to_bits`).
#[derive(Debug)]
pub enum Literal {
    Int(i64),
    Float(u64),
    String(String),
}

/// Why a text could not be parsed.
#[derive(Debug)]
pub enum ParseError {
    UnclosedBrace,
    UnmatchedBraces,
    UnopenedBrace,
    NumberParseError(String),
    NumberDecimalDividerDoubled,
    StringLiteralPointlessEscape,
    StringLiteralUnclosed,
    InvalidSymbol(char),
}

/// The mathematical value of a `Literal`.
pub enum LiteralValue {
    Int(i64),
    Float(u64),
    String(Seq<char>),
}

/// The mathematical value of an `Expression`.
pub enum ExpressionView {
    Literal(LiteralValue),
    Identifier(Seq<char>),
    Scope(ScopeView),
    ClosureArgs(ScopeView),
}

/// The mathematical value of a `Scope`; a statement is its sequence of expressions.
pub struct ScopeView {
    pub statements: Seq<Seq<ExpressionView>>,
    pub result: Option<Seq<ExpressionView>>,
}

/// The mathematical value of a `ParseError`.
pub enum ParseErrorView {
    UnclosedBrace,
    UnmatchedBraces,
    UnopenedBrace,
    NumberParseError(Seq<char>),
    NumberDecimalDividerDoubled,
    StringLiteralPointlessEscape,
    StringLiteralUnclosed,
    InvalidSymbol(char),
}

impl View for Literal {
    type V = LiteralValue;

    open spec fn view(&self) -> LiteralValue {
        match self {
            Literal::Int(v) => LiteralValue::Int(*v),
            Literal::Float(bits) => LiteralValue::Float(*bits),
            Literal::String(s) => LiteralValue::String(s@),
        }
    }
}

impl View for ParseError {
    type V = ParseErrorView;

    open spec fn view(&self) -> ParseErrorView {
        match self {
            ParseError::UnclosedBrace => ParseErrorView::UnclosedBrace,
            ParseError::UnmatchedBraces => ParseErrorView::UnmatchedBraces,
            ParseError::UnopenedBrace => ParseErrorView::UnopenedBrace,
            ParseError::NumberParseError(s) => ParseErrorView::NumberParseError(s@),
            ParseError::NumberDecimalDividerDoubled => ParseErrorView::NumberDecimalDividerDoubled,
            ParseError::StringLiteralPointlessEscape =>
                ParseErrorView::StringLiteralPointlessEscape,
            ParseError::StringLiteralUnclosed => ParseErrorView::StringLiteralUnclosed,
            ParseError::InvalidSymbol(c) => ParseErrorView::InvalidSymbol(*c),
        }
    }
}

/// The value of an expression.
pub open spec fn expression_view(e: Expression) -> ExpressionView
    decreases e,
{
    match e {
        Expression::Literal(l) => ExpressionView::Literal(l@),
        Expression::Identifier(s) => ExpressionView::Identifier(s@),
        Expression::Scope(b) => ExpressionView::Scope(scope_view(*b)),
        Expression::ClosureArgs(b) => ExpressionView::ClosureArgs(scope_view(*b)),
    }
}

/// The values of a sequence of expressions.
pub open spec fn expressions_view(es: Seq<Expression>) -> Seq<ExpressionView>
    decreases es,
{
    if es.len() == 0 {
        seq![]
    } else {
        expressions_view(es.drop_last()).push(expression_view(es.last()))
    }
}

/// The value of a statement.
pub open spec fn statement_view(st: Statement) -> Seq<ExpressionView>
    decreases st,
{
    expressions_view(st.0@)
}

/// The values of a sequence of statements.
pub open spec fn statements_view(ss: Seq<Statement>) -> Seq<Seq<ExpressionView>>
    decreases ss,
{
    if ss.len() == 0 {
        seq![]
    } else {
        statements_view(ss.drop_last()).push(statement_view(ss.last()))
    }
}

/// The value of a scope.
pub open spec fn scope_view(s: Scope) -> ScopeView
    decreases s,
{
    ScopeView {
        statements: statements_view(s.statements@),
        result: match s.result {
            Some(st) => Some(statement_view(st)),
            None => None,
        },
    }
}

// ---------------------------------------------------------------------
// Number texts, as std reads them
// ---------------------------------------------------------------------

/// An ASCII decimal digit.
pub open spec fn is_ascii_digit(c: char) -> bool {
    '0' <= c && c <= '9'
}

/// Every character of `s` is an ASCII decimal digit.
pub open spec fn all_ascii_digits(s: Seq<char>) -> bool {
    forall|i: int| 0 <= i < s.len() ==> is_ascii_digit(#[trigger] s[i])
}

/// The number that a sequence of decimal digits denotes.
pub open spec fn decimal_value(digits: Seq<char>) -> int
    decreases digits.len(),
{
    if digits.len() == 0 {
        0
    } else {
        decimal_value(digits.drop_last()) * 10 + (digits.last() as int - '0' as int)
    }
}

/// What `i64::from_str` returns: an optional `+` or `-` followed by at least
/// one decimal digit and nothing else, whose value fits in an `i64`.
pub open spec fn i64_from_text(s: Seq<char>) -> Option<i64> {
    let negative = s.len() > 0 && s[0] == '-';
    let digits = if s.len() > 0 && (s[0] == '-' || s[0] == '+') {
        s.skip(1)
    } else {
        s
    };
    let value = if negative {
        -decimal_value(digits)
    } else {
        decimal_value(digits)
    };
    if digits.len() == 0 || !all_ascii_digits(digits) {
        None
    } else if i64::MIN <= value <= i64::MAX {
        Some(value as i64)
    } else {
        None
    }
}

/// `<i64 as FromStr>::from_str`: accepts an optional sign followed by decimal
/// digits only, and fails when the value does not fit in an `i64`.
#[verifier::external_body]
fn parse_i64(text: &str) -> (r: Option<i64>)
    ensures
        r == i64_from_text(text@),
{
    text.parse::<i64>().ok()
}

/// A character, lowered if it is an ASCII capital.
pub open spec fn ascii_lower(c: char) -> char {
    if 'A' <= c && c <= 'Z' {
        (c as int + 32) as char
    } else {
        c
    }
}

/// `s`, lowered, is the text `t`.
pub open spec fn lowered_is(s: Seq<char>, t: Seq<char>) -> bool {
    s.len() == t.len() && forall|i: int| 0 <= i < s.len() ==> ascii_lower(#[trigger] s[i]) == t[i]
}

/// `Digit+ | Digit+ '.' Digit* | Digit* '.' Digit+`
pub open spec fn float_mantissa_text(m: Seq<char>) -> bool {
    ||| m.len() > 0 && all_ascii_digits(m)
    ||| exists|k: int|
        0 <= k < m.len() && #[trigger] m[k] == '.' && m.len() > 1 && all_ascii_digits(m.take(k))
            && all_ascii_digits(m.skip(k + 1))
}

/// `Sign? Digit+`
pub open spec fn float_exponent_digits_text(x: Seq<char>) -> bool {
    let digits = if x.len() > 0 && (x[0] == '+' || x[0] == '-') {
        x.skip(1)
    } else {
        x
    };
    digits.len() > 0 && all_ascii_digits(digits)
}

/// `Number ::= ( Digit+ | Digit+ '.' Digit* | Digit* '.' Digit+ ) Exp?`
/// with `Exp ::= 'e' Sign? Digit+`, where `E` counts as `e`.
pub open spec fn float_number_text(s: Seq<char>) -> bool {
    ||| float_mantissa_text(s)
    ||| exists|k: int|
        0 <= k < s.len() && (#[trigger] s[k] == 'e' || s[k] == 'E') && float_mantissa_text(
            s.take(k),
        ) && float_exponent_digits_text(s.skip(k + 1))
}

/// The texts that std's `FromStr` for binary64 floats accepts, as its
/// documentation gives them: `Sign? ( 'inf' | 'infinity' | 'nan' | Number )`,
/// compared after lowering.
pub open spec fn float_text(s: Seq<char>) -> bool {
    let body = if s.len() > 0 && (s[0] == '+' || s[0] == '-') {
        s.skip(1)
    } else {
        s
    };
    ||| lowered_is(body, seq!['i', 'n', 'f'])
    ||| lowered_is(body, seq!['i', 'n', 'f', 'i', 'n', 'i', 't', 'y'])
    ||| lowered_is(body, seq!['n', 'a', 'n'])
    ||| float_number_text(body)
}

// ---------------------------------------------------------------------
// Parsing, as mathematics
// ---------------------------------------------------------------------

/// The parse error that stands for a lexer error.
pub open spec fn spec_tokenize_error(e: TokenizeError) -> ParseErrorView {
    match e {
        TokenizeError::NumberDecimalDividerDoubled => ParseErrorView::NumberDecimalDividerDoubled,
        TokenizeError::StringLiteralPointlessEscape => ParseErrorView::StringLiteralPointlessEscape,
        TokenizeError::StringLiteralUnclosed => ParseErrorView::StringLiteralUnclosed,
        TokenizeError::InvalidSymbol(c) => ParseErrorView::InvalidSymbol(c),
    }
}

/// A digit run, or `0` in place of an empty one.
pub open spec fn digits_or_zero(digits: Seq<char>) -> Seq<char> {
    if digits.len() == 0 {
        seq!['0']
    } else {
        digits
    }
}

/// The text that a number literal with a decimal point is read from: its two
/// parts joined by a `+`.
pub open spec fn joined_number_text(whole: Seq<char>, fraction: Seq<char>) -> Seq<char> {
    digits_or_zero(whole) + seq!['+'] + digits_or_zero(fraction)
}

/// The value of a literal token. An integer is read with `i64::from_str`;
/// a number with a decimal point is refused, because its joined text (see
/// `joined_number_text`) is no float text (see `lemma_joined_number_text_is_no_float`).
pub open spec fn spec_literal_value(l: LiteralView) -> Result<LiteralValue, ParseErrorView> {
    match l {
        LiteralView::Number(whole, fraction) => match fraction {
            Some(f) => Err(ParseErrorView::NumberParseError(joined_number_text(whole, f))),
            None => match i64_from_text(digits_or_zero(whole)) {
                Some(v) => Ok(LiteralValue::Int(v)),
                None => Err(ParseErrorView::NumberParseError(digits_or_zero(whole))),
            },
        },
        LiteralView::String(s) => Ok(LiteralValue::String(s)),
    }
}

/// The scope made of the finished statements and the pending expressions.
pub open spec fn finish_scope(
    statements: Seq<Seq<ExpressionView>>,
    buffer: Seq<ExpressionView>,
) -> ScopeView {
    ScopeView {
        statements,
        result: if buffer.len() != 0 {
            Some(buffer)
        } else {
            None
        },
    }
}

/// Parsing a scope from position `pos` of `tokens` with the statements and
/// the expressions gathered so far, up to the closing brace `until` (or the
/// end, if `until` is `None`). The result holds the position after the scope.
pub open spec fn spec_scope_loop(
    tokens: Seq<TokenView>,
    pos: int,
    until: Option<BraceType>,
    statements: Seq<Seq<ExpressionView>>,
    buffer: Seq<ExpressionView>,
) -> Result<(int, ScopeView), ParseErrorView>
    decreases tokens.len() - pos,
{
    if pos < 0 || pos >= tokens.len() {
        if until is None {
            Ok((pos, finish_scope(statements, buffer)))
        } else {
            Err(ParseErrorView::UnclosedBrace)
        }
    } else {
        match tokens[pos] {
            TokenView::LBrace(brace_type) => match spec_scope_loop(
                tokens,
                pos + 1,
                Some(brace_type),
                seq![],
                seq![],
            ) {
                Ok((end, inner)) => if pos < end <= tokens.len() {
                    spec_scope_loop(
                        tokens,
                        end,
                        until,
                        statements,
                        buffer.push(ExpressionView::Scope(inner)),
                    )
                } else {
                    Err(ParseErrorView::UnclosedBrace)
                },
                Err(e) => Err(e),
            },
            TokenView::RBrace(brace_type) => match until {
                Some(expected) => if expected == brace_type {
                    Ok((pos + 1, finish_scope(statements, buffer)))
                } else {
                    Err(ParseErrorView::UnmatchedBraces)
                },
                None => Err(ParseErrorView::UnopenedBrace),
            },
            TokenView::Semicolon => spec_scope_loop(
                tokens,
                pos + 1,
                until,
                statements.push(buffer),
                seq![],
            ),
            TokenView::Identifier(name) => spec_scope_loop(
                tokens,
                pos + 1,
                until,
                statements,
                buffer.push(ExpressionView::Identifier(name)),
            ),
            TokenView::Literal(l) => match spec_literal_value(l) {
                Ok(v) => spec_scope_loop(
                    tokens,
                    pos + 1,
                    until,
                    statements,
                    buffer.push(ExpressionView::Literal(v)),
                ),
                Err(e) => Err(e),
            },
        }
    }
}

/// Parsing a scope that starts at position `pos`.
pub open spec fn spec_parse_scope(tokens: Seq<TokenView>, pos: int, until: Option<BraceType>) -> Result<
    (int, ScopeView),
    ParseErrorView,
> {
    spec_scope_loop(tokens, pos, until, seq![], seq![])
}

/// The tree of a whole token sequence.
pub open spec fn spec_parse_tokens(tokens: Seq<TokenView>) -> Result<ScopeView, ParseErrorView> {
    match spec_parse_scope(tokens, 0, None) {
        Ok((_, scope)) => Ok(scope),
        Err(e) => Err(e),
    }
}

/// The tree of a text.
pub open spec fn spec_parse(input: Seq<char>) -> Result<ScopeView, ParseErrorView> {
    match lexer::spec_tokenize(input) {
        Ok(tokens) => spec_parse_tokens(tokens),
        Err(e) => Err(spec_tokenize_error(e)),
    }
}

/// The value of the result of a parse.
pub open spec fn parse_result_view(r: Result<Scope, ParseError>) -> Result<ScopeView, ParseErrorView> {
    match r {
        Ok(scope) => Ok(scope_view(scope)),
        Err(e) => Err(e@),
    }
}

/// A number literal with a decimal point, whose parts are digits as the
/// lexer makes them, is read from a text that holds a `+` between two digit
/// runs and no `.`, `e` or `E`: no text that std's float `FromStr` accepts.
/// So such a literal is refused, with that text in the error.
pub proof fn lemma_joined_number_text_is_no_float(whole: Seq<char>, fraction: Seq<char>)
    requires
        lexer::lexer_digits(whole),
        lexer::lexer_digits(fraction),
    ensures
        !float_text(joined_number_text(whole, fraction)),
        spec_literal_value(LiteralView::Number(whole, Some(fraction))) == Err::<
            LiteralValue,
            ParseErrorView,
        >(ParseErrorView::NumberParseError(joined_number_text(whole, fraction))),
{
    let w = digits_or_zero(whole);
    let f = digits_or_zero(fraction);
    let t = joined_number_text(whole, fraction);
    assert(lexer::lexer_digits(w));
    assert(lexer::lexer_digits(f));
    assert(t.len() == w.len() + 1 + f.len());
    assert forall|k: int| 0 <= k < t.len() implies (k == w.len() && #[trigger] t[k] == '+') || (
    k != w.len() && lexer::is_digit_char(t[k])) by {
        if k < w.len() {
            assert(t[k] == w[k]);
        } else if k > w.len() {
            assert(t[k] == f[k - w.len() - 1]);
        }
    }
    assert(lexer::is_digit_char(t[0]));
    assert(!lowered_is(t, seq!['i', 'n', 'f']));
    assert(!lowered_is(t, seq!['i', 'n', 'f', 'i', 'n', 'i', 't', 'y']));
    assert(!lowered_is(t, seq!['n', 'a', 'n']));
    assert(!all_ascii_digits(t)) by {
        assert(t[w.len() as int] == '+');
    }
    assert(!float_mantissa_text(t));
    assert(!float_number_text(t));
}

/// `tokens` with every brace kind `b` replaced by `sigma(b)`.
pub open spec fn rename_braces(tokens: Seq<TokenView>, sigma: spec_fn(BraceType) -> BraceType) -> Seq<
    TokenView,
> {
    tokens.map_values(
        |t: TokenView|
            match t {
                TokenView::LBrace(b) => TokenView::LBrace(sigma(b)),
                TokenView::RBrace(b) => TokenView::RBrace(sigma(b)),
                _ => t,
            },
    )
}

proof fn lemma_scope_loop_rename_braces(
    tokens: Seq<TokenView>,
    sigma: spec_fn(BraceType) -> BraceType,
    pos: int,
    until: Option<BraceType>,
    statements: Seq<Seq<ExpressionView>>,
    buffer: Seq<ExpressionView>,
)
    requires
        forall|a: BraceType, b: BraceType| #[trigger] sigma(a) == #[trigger] sigma(b) ==> a == b,
    ensures
        spec_scope_loop(
            rename_braces(tokens, sigma),
            pos,
            match until {
                Some(b) => Some(sigma(b)),
                None => None,
            },
            statements,
            buffer,
        ) == spec_scope_loop(tokens, pos, until, statements, buffer),
    decreases tokens.len() - pos,
{
    let renamed = rename_braces(tokens, sigma);
    let until_renamed = match until {
        Some(b) => Some(sigma(b)),
        None => None,
    };
    if 0 <= pos < tokens.len() {
        match tokens[pos] {
            TokenView::LBrace(brace_type) => {
                lemma_scope_loop_rename_braces(
                    tokens,
                    sigma,
                    pos + 1,
                    Some(brace_type),
                    seq![],
                    seq![],
                );
                if let Ok((end, inner)) = spec_scope_loop(
                    tokens,
                    pos + 1,
                    Some(brace_type),
                    seq![],
                    seq![],
                ) {
                    if pos < end <= tokens.len() {
                        lemma_scope_loop_rename_braces(
                            tokens,
                            sigma,
                            end,
                            until,
                            statements,
                            buffer.push(ExpressionView::Scope(inner)),
                        );
                    }
                }
            },
            TokenView::RBrace(brace_type) => {
                if let Some(expected) = until {
                    assert(sigma(expected) == sigma(brace_type) ==> expected == brace_type);
                }
            },
            TokenView::Semicolon => {
                lemma_scope_loop_rename_braces(
                    tokens,
                    sigma,
                    pos + 1,
                    until,
                    statements.push(buffer),
                    seq![],
                );
            },
            TokenView::Identifier(name) => {
                lemma_scope_loop_rename_braces(
                    tokens,
                    sigma,
                    pos + 1,
                    until,
                    statements,
                    buffer.push(ExpressionView::Identifier(name)),
                );
            },
            TokenView::Literal(l) => {
                if let Ok(v) = spec_literal_value(l) {
                    lemma_scope_loop_rename_braces(
                        tokens,
                        sigma,
                        pos + 1,
                        until,
                        statements,
                        buffer.push(ExpressionView::Literal(v)),
                    );
                }
            },
        }
    }
}

/// The three kinds of brace are interchangeable: renaming the brace kinds
/// of a token sequence one-for-one (so that matching braces still match and
/// different kinds stay different) changes neither the tree nor the error.
pub proof fn lemma_parse_ignores_brace_kinds(
    tokens: Seq<TokenView>,
    sigma: spec_fn(BraceType) -> BraceType,
)
    requires
        forall|a: BraceType, b: BraceType| #[trigger] sigma(a) == #[trigger] sigma(b) ==> a == b,
    ensures
        spec_parse_tokens(rename_braces(tokens, sigma)) == spec_parse_tokens(tokens),
{
    lemma_scope_loop_rename_braces(tokens, sigma, 0, None, seq![], seq![]);
}

/// Tokens of names and semicolons only.
pub open spec fn names_and_semicolons(ts: Seq<TokenView>) -> bool {
    forall|k: int| 0 <= k < ts.len() ==> (#[trigger] ts[k] is Identifier || ts[k] is Semicolon)
}

/// The expressions that a scope ends with, or none.
pub open spec fn trailing_expressions(scope: ScopeView) -> Seq<ExpressionView> {
    match scope.result {
        Some(r) => r,
        None => seq![],
    }
}

/// A list of names and semicolons cut into statements: every semicolon ends
/// a statement (an empty one where nothing stands before it), and the names
/// after the last semicolon, if any, are the result.
pub open spec fn semicolon_split(ts: Seq<TokenView>) -> ScopeView
    decreases ts.len(),
{
    if ts.len() == 0 {
        ScopeView { statements: seq![], result: None }
    } else {
        let before = semicolon_split(ts.drop_last());
        match ts.last() {
            TokenView::Identifier(name) => ScopeView {
                statements: before.statements,
                result: Some(trailing_expressions(before).push(ExpressionView::Identifier(name))),
            },
            _ => ScopeView {
                statements: before.statements.push(trailing_expressions(before)),
                result: None,
            },
        }
    }
}

proof fn lemma_read_names_and_semicolons(
    tokens: Seq<TokenView>,
    start: int,
    ts: Seq<TokenView>,
    until: Option<BraceType>,
    k: int,
)
    requires
        names_and_semicolons(ts),
        0 <= start,
        start + ts.len() <= tokens.len(),
        forall|j: int| 0 <= j < ts.len() ==> tokens[start + j] == #[trigger] ts[j],
        0 <= k <= ts.len(),
    ensures
        spec_scope_loop(tokens, start, until, seq![], seq![]) == spec_scope_loop(
            tokens,
            start + k,
            until,
            semicolon_split(ts.take(k)).statements,
            trailing_expressions(semicolon_split(ts.take(k))),
        ),
    decreases k,
{
    if k == 0 {
        assert(ts.take(0) =~= seq![]);
    } else {
        lemma_read_names_and_semicolons(tokens, start, ts, until, k - 1);
        assert(ts.take(k).drop_last() =~= ts.take(k - 1));
        assert(ts.take(k).last() == ts[k - 1]);
        assert(tokens[start + (k - 1)] == ts[k - 1]);
    }
}

/// Where the result of a cut is, there are names after the last semicolon.
proof fn lemma_split_result_not_empty(ts: Seq<TokenView>)
    ensures
        semicolon_split(ts).result matches Some(r) ==> r.len() > 0,
    decreases ts.len(),
{
    if ts.len() > 0 {
        lemma_split_result_not_empty(ts.drop_last());
    }
}

/// A sequence of names and semicolons, alone or inside a pair of matching
/// braces, parses into statements cut at the semicolons: every statement
/// ended by a semicolon stays a statement of its scope, and only the names
/// after the last semicolon are the scope's result. Inside braces, the
/// braced scope is the single expression of the outer result.
pub proof fn lemma_statements_end_at_semicolons(ts: Seq<TokenView>, b: BraceType)
    requires
        names_and_semicolons(ts),
    ensures
        spec_parse_tokens(ts) == Ok::<ScopeView, ParseErrorView>(semicolon_split(ts)),
        spec_parse_tokens(seq![TokenView::LBrace(b)] + ts + seq![TokenView::RBrace(b)]) == Ok::<
            ScopeView,
            ParseErrorView,
        >(
            ScopeView {
                statements: seq![],
                result: Some(seq![ExpressionView::Scope(semicolon_split(ts))]),
            },
        ),
{
    let n = ts.len() as int;
    let split = semicolon_split(ts);
    lemma_split_result_not_empty(ts);
    assert(ts.take(n) =~= ts);
    assert(finish_scope(split.statements, trailing_expressions(split)) == split);
    lemma_read_names_and_semicolons(ts, 0, ts, None, n);
    let braced = seq![TokenView::LBrace(b)] + ts + seq![TokenView::RBrace(b)];
    assert forall|j: int| 0 <= j < ts.len() implies braced[1 + j] == #[trigger] ts[j] by {}
    lemma_read_names_and_semicolons(braced, 1, ts, Some(b), n);
    assert(braced[0] == TokenView::LBrace(b));
    assert(braced[n + 1] == TokenView::RBrace(b));
    assert(spec_scope_loop(braced, 1, Some(b), seq![], seq![]) == Ok::<
        (int, ScopeView),
        ParseErrorView,
    >((n + 2, split)));
    assert(braced.len() == n + 2);
    let outer = seq![ExpressionView::Scope(split)];
    assert(seq![].push(ExpressionView::Scope(split)) == outer);
    assert(spec_scope_loop(braced, n + 2, None, seq![], outer) == Ok::<
        (int, ScopeView),
        ParseErrorView,
    >((n + 2, finish_scope(seq![], outer))));
}

// ---------------------------------------------------------------------
// Parsing, as code
// ---------------------------------------------------------------------

proof fn lemma_expressions_view_push(es: Seq<Expression>, e: Expression)
    ensures
        expressions_view(es.push(e)) == expressions_view(es).push(expression_view(e)),
{
    assert(es.push(e).drop_last() =~= es);
}

proof fn lemma_statements_view_push(ss: Seq<Statement>, st: Statement)
    ensures
        statements_view(ss.push(st)) == statements_view(ss).push(statement_view(st)),
{
    assert(ss.push(st).drop_last() =~= ss);
}

/// A copy of a digit run, or `"0"` in place of an empty one.
fn digits_or_zero_string(digits: &String) -> (r: String)
    ensures
        r@ == digits_or_zero(digits@),
{
    if digits.as_str().is_empty() {
        proof {
            reveal_strlit("0");
        }
        "0".to_owned()
    } else {
        digits.clone()
    }
}

/// The value of a literal token.
fn literal_value(literal: &lexer::Literal) -> (res: Result<Literal, ParseError>)
    ensures
        match spec_literal_value(literal@) {
            Ok(v) => res matches Ok(l) && l@ == v,
            Err(e) => res matches Err(x) && x@ == e,
        },
{
    match literal {
        lexer::Literal::Number(whole_part, fractional_part) => {
            let whole_part = digits_or_zero_string(whole_part);
            match fractional_part {
                Some(fractional_part) => {
                    let fractional_part = digits_or_zero_string(fractional_part);
                    let mut total = whole_part;
                    total.append("+");
                    total.append(fractional_part.as_str());
                    proof {
                        reveal_strlit("+");
                        assert(total@ =~= joined_number_text(whole_part@, fractional_part@));
                    }
                    Err(ParseError::NumberParseError(total))
                },
                None => match parse_i64(whole_part.as_str()) {
                    Some(value) => Ok(Literal::Int(value)),
                    None => Err(ParseError::NumberParseError(whole_part)),
                },
            }
        },
        lexer::Literal::String(string) => Ok(Literal::String(string.clone())),
    }
}

/// Parses the scope that starts at position `start`, up to the brace `until`
/// that closes it (or to the end of the tokens), and returns the position
/// after it.
fn parse_scope(tokens: &Vec<Token>, start: usize, until: Option<BraceType>) -> (res: Result<
    (usize, Scope),
    ParseError,
>)
    requires
        start <= tokens@.len(),
    ensures
        match spec_parse_scope(tokens_view(tokens@), start as int, until) {
            Ok((end, scope)) => res matches Ok((e, s)) && e == end && scope_view(s) == scope,
            Err(err) => res matches Err(x) && x@ == err,
        },
        res matches Ok((e, _)) ==> start <= e <= tokens@.len() && (until is Some ==> start < e),
    decreases tokens@.len() - start,
{
    let ghost tv = tokens_view(tokens@);
    let mut statements: Vec<Statement> = Vec::new();
    let mut buffer: Vec<Expression> = Vec::new();
    let mut pos = start;
    assert(statements_view(statements@) =~= seq![]);
    assert(expressions_view(buffer@) =~= seq![]);
    loop
        invariant_except_break
            spec_parse_scope(tv, start as int, until) == spec_scope_loop(
                tv,
                pos as int,
                until,
                statements_view(statements@),
                expressions_view(buffer@),
            ),
        invariant
            tv == tokens_view(tokens@),
            start <= pos <= tokens@.len(),
        ensures
            start <= pos <= tokens@.len(),
            until is Some ==> start < pos,
            spec_parse_scope(tv, start as int, until) == Ok::<(int, ScopeView), ParseErrorView>(
                (pos as int, finish_scope(statements_view(statements@), expressions_view(buffer@))),
            ),
        decreases tokens@.len() - pos,
    {
        if pos >= tokens.len() {
            if until.is_none() {
                break ;
            } else {
                return Err(ParseError::UnclosedBrace);
            }
        }
        let token = &tokens[pos];
        assert(tv[pos as int] == token@);
        pos = pos + 1;
        match token {
            Token::LBrace(brace_type) => {
                let (next, scope) = match parse_scope(tokens, pos, Some(*brace_type)) {
                    Ok(found) => found,
                    Err(e) => return Err(e),
                };
                pos = next;
                let expression = Expression::Scope(Box::new(scope));
                proof {
                    lemma_expressions_view_push(buffer@, expression);
                }
                buffer.push(expression);
            },
            Token::RBrace(brace_type) => {
                if let Some(expected) = until {
                    if expected == *brace_type {
                        break ;
                    } else {
                        return Err(ParseError::UnmatchedBraces);
                    }
                } else {
                    return Err(ParseError::UnopenedBrace);
                }
            },
            Token::Semicolon => {
                let statement = Statement(buffer);
                proof {
                    lemma_statements_view_push(statements@, statement);
                }
                statements.push(statement);
                buffer = Vec::new();
                assert(expressions_view(buffer@) =~= seq![]);
            },
            Token::Identifier(identifier) => {
                let expression = Expression::Identifier(identifier.clone());
                proof {
                    lemma_expressions_view_push(buffer@, expression);
                }
                buffer.push(expression);
            },
            Token::Literal(literal) => {
                let value = match literal_value(literal) {
                    Ok(value) => value,
                    Err(e) => return Err(e),
                };
                let expression = Expression::Literal(value);
                proof {
                    lemma_expressions_view_push(buffer@, expression);
                }
                buffer.push(expression);
            },
        }
    }
    let result = if buffer.len() != 0 {
        Some(Statement(buffer))
    } else {
        None
    };
    Ok((pos, Scope { statements, result }))
}

fn parse_tokens(tokens: Vec<Token>) -> (res: Result<Scope, ParseError>)
    ensures
        parse_result_view(res) == spec_parse_tokens(tokens_view(tokens@)),
{
    match parse_scope(&tokens, 0, None) {
        Ok((_, scope)) => Ok(scope),
        Err(e) => Err(e),
    }
}

/// The parse error that stands for a lexer error.
fn tokenize_error(e: TokenizeError) -> (r: ParseError)
    ensures
        r@ == spec_tokenize_error(e),
{
    match e {
        TokenizeError::NumberDecimalDividerDoubled => ParseError::NumberDecimalDividerDoubled,
        TokenizeError::StringLiteralPointlessEscape => ParseError::StringLiteralPointlessEscape,
        TokenizeError::StringLiteralUnclosed => ParseError::StringLiteralUnclosed,
        TokenizeError::InvalidSymbol(char) => ParseError::InvalidSymbol(char),
    }
}

/// Parses a text into its top-level scope.
pub fn parse(input: &str) -> (res: Result<Scope, ParseError>)
    ensures
        parse_result_view(res) == spec_parse(input@),
{
    let tokens = match lexer::tokenize(input) {
        Ok(tokens) => tokens,
        Err(e) => return Err(tokenize_error(e)),
    };
    parse_tokens(tokens)
}

} // verus!
