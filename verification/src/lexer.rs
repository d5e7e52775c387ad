//! Turning source text into tokens.
//!
//! The lexer walks the characters of the input one at a time with a
//! two-character lookahead, driving a small state machine: each character
//! may start a token (`update_state`), is folded into the token being built
//! (`consume_char`), and the lookahead decides whether that token is finished
//! (`possibly_complete_token`). The whole run is specified by `spec_tokenize`.
use peek_again::Peekable;
use std::str::Chars;
use vstd::prelude::*;

verus! {

// ---------------------------------------------------------------------
// Outside items: the double-peek iterator of `peek_again` and the Unicode
// character classes of std.
// ---------------------------------------------------------------------

/// A `peek_again::Peekable` over the characters of a text, which can look
/// one or two characters ahead. Verus cannot take in the declaration of
/// `Peekable` itself (its `From` impl trips the trait-conflict check), so the
/// iterator is held here, out of Verus's sight.
#[verifier::external_body]
pub struct CharPeeker<'a> {
    inner: Peekable<Chars<'a>>,
}

/// The characters that a `CharPeeker` has still to hand out, counting those
/// that `Peekable` has already pulled from the inner iterator for a peek.
pub uninterp spec fn peekable_remaining(p: CharPeeker<'_>) -> Seq<char>;

/// The character at position `i` of `s`, if there is one.
pub open spec fn char_at(s: Seq<char>, i: int) -> Option<char> {
    if 0 <= i < s.len() {
        Some(s[i])
    } else {
        None
    }
}

/// `Peekable::new(input.chars())`: `new` only stores the iterator, so what is
/// still to come is every character of `input`, in order.
#[verifier::external_body]
fn peekable_over_chars<'a>(input: &'a str) -> (p: CharPeeker<'a>)
    ensures
        peekable_remaining(p) == input@,
{
    CharPeeker { inner: Peekable::new(input.chars()) }
}

/// `<Peekable as Iterator>::next`: hands out the first character still to come
/// (from the peek buffer first, then from the inner `Chars`) and drops it.
/// `Chars` is fused, so once nothing is left it keeps returning `None`.
#[verifier::external_body]
fn peekable_next(p: &mut CharPeeker<'_>) -> (c: Option<char>)
    ensures
        peekable_remaining(*old(p)).len() == 0 ==> c is None && peekable_remaining(*final(p))
            == peekable_remaining(*old(p)),
        peekable_remaining(*old(p)).len() > 0 ==> c == Some(peekable_remaining(*old(p))[0])
            && peekable_remaining(*final(p)) == peekable_remaining(*old(p)).drop_first(),
{
    p.inner.next()
}

/// `Peekable::peek` followed by `Peek::get`: the next character, if any,
/// without advancing (the character is only moved into the peek buffer).
#[verifier::external_body]
fn peekable_peek(p: &mut CharPeeker<'_>) -> (c: Option<char>)
    ensures
        peekable_remaining(*final(p)) == peekable_remaining(*old(p)),
        c == char_at(peekable_remaining(*old(p)), 0),
{
    p.inner.peek().get().copied()
}

/// `Peekable::peek_2`: the character after the next one, if any, without advancing.
#[verifier::external_body]
fn peekable_peek_2(p: &mut CharPeeker<'_>) -> (c: Option<char>)
    ensures
        peekable_remaining(*final(p)) == peekable_remaining(*old(p)),
        c == char_at(peekable_remaining(*old(p)), 1),
{
    p.inner.peek_2().copied()
}

/// Whether a character has the Unicode `White_Space` property (`char::is_whitespace`).
pub uninterp spec fn is_whitespace_char(c: char) -> bool;

/// Whether a character has the Unicode `Alphabetic` property (`char::is_alphabetic`).
pub uninterp spec fn is_alphabetic_char(c: char) -> bool;

/// Whether a character is alphabetic or numeric in Unicode's sense (`char::is_alphanumeric`).
pub uninterp spec fn is_alphanumeric_char(c: char) -> bool;

/// `char::is_whitespace`, whose result depends on the character alone; the
/// space and the line break, which its documentation shows, are whitespace.
#[verifier::external_body]
fn char_is_whitespace(c: char) -> (r: bool)
    ensures
        r == is_whitespace_char(c),
        c == ' ' || c == '\n' ==> r,
{
    c.is_whitespace()
}

/// `char::is_alphabetic`, whose result depends on the character alone.
#[verifier::external_body]
fn char_is_alphabetic(c: char) -> (r: bool)
    ensures
        r == is_alphabetic_char(c),
{
    c.is_alphabetic()
}

/// `char::is_alphanumeric`, whose result depends on the character alone; as
/// documented, it holds of every alphabetic character (and of numeric ones).
#[verifier::external_body]
fn char_is_alphanumeric(c: char) -> (r: bool)
    ensures
        r == is_alphanumeric_char(c),
        is_alphabetic_char(c) ==> r,
{
    c.is_alphanumeric()
}

/// `String::push`: appends one character at the end.
#[verifier::external_body]
fn push_char(s: &mut String, c: char)
    ensures
        final(s)@ == old(s)@.push(c),
{
    s.push(c)
}

// ---------------------------------------------------------------------
// Tokens
// ---------------------------------------------------------------------

/// A token of the language.
#[derive(Debug)]
pub enum Token {
    LBrace(BraceType),
    RBrace(BraceType),
    Identifier(String),
    Literal(Literal),
    Semicolon,
}

/// The three kinds of brace.
#[derive(Debug, Clone, Copy, PartialEq, Eq, Structural)]
pub enum BraceType {
    Paren,
    Square,
    Curly,
}

/// A literal as written: a number keeps its digits (the part before the
/// decimal point, and the part after it if there is a point), a string its
/// unescaped contents.
#[derive(Debug)]
pub enum Literal {
    Number(String, Option<String>),
    String(String),
}

/// Why a text could not be split into tokens.
#[derive(Debug, Clone, Copy, PartialEq, Eq, Structural)]
pub enum TokenizeError {
    NumberDecimalDividerDoubled,
    InvalidSymbol(char),
    StringLiteralUnclosed,
    StringLiteralPointlessEscape,
}

/// The mathematical value of a `Literal`.
pub enum LiteralView {
    Number(Seq<char>, Option<Seq<char>>),
    String(Seq<char>),
}

/// The mathematical value of a `Token`.
pub enum TokenView {
    LBrace(BraceType),
    RBrace(BraceType),
    Identifier(Seq<char>),
    Literal(LiteralView),
    Semicolon,
}

impl View for Literal {
    type V = LiteralView;

    open spec fn view(&self) -> LiteralView {
        match self {
            Literal::Number(whole, fraction) => LiteralView::Number(
                whole@,
                match fraction {
                    Some(f) => Some(f@),
                    None => None,
                },
            ),
            Literal::String(s) => LiteralView::String(s@),
        }
    }
}

impl View for Token {
    type V = TokenView;

    open spec fn view(&self) -> TokenView {
        match self {
            Token::LBrace(b) => TokenView::LBrace(*b),
            Token::RBrace(b) => TokenView::RBrace(*b),
            Token::Identifier(s) => TokenView::Identifier(s@),
            Token::Literal(l) => TokenView::Literal(l@),
            Token::Semicolon => TokenView::Semicolon,
        }
    }
}

/// The values of a sequence of tokens.
pub open spec fn tokens_view(ts: Seq<Token>) -> Seq<TokenView> {
    ts.map_values(|t: Token| t@)
}

proof fn lemma_tokens_view_push(ts: Seq<Token>, t: Token)
    ensures
        tokens_view(ts.push(t)) == tokens_view(ts).push(t@),
{
    assert(tokens_view(ts.push(t)) =~= tokens_view(ts).push(t@));
}

// ---------------------------------------------------------------------
// Character classes
// ---------------------------------------------------------------------

/// The characters of the symbol identifiers: ``[`-=\,./~!@#$%^&*_+|:<>?``.
pub open spec fn is_symbol_char(c: char) -> bool {
    c == '[' || c == '`' || c == '-' || c == '=' || c == '\\' || c == ',' || c == '.' || c == '/'
        || c == '~' || c == '!' || c == '@' || c == '#' || c == '$' || c == '%' || c == '^' || c
        == '&' || c == '*' || c == '_' || c == '+' || c == '|' || c == ':' || c == '<' || c == '>'
        || c == '?'
}

/// The decimal digits `'0'` to `'9'`.
pub open spec fn is_digit_char(c: char) -> bool {
    '0' <= c && c <= '9'
}

/// Characters that may start a word identifier.
pub open spec fn is_word_start_char(c: char) -> bool {
    is_alphabetic_char(c) || c == '_'
}

/// Characters that may continue a word identifier.
pub open spec fn is_word_continue_char(c: char) -> bool {
    is_alphanumeric_char(c) || c == '_'
}

/// The token that a brace or semicolon character stands for on its own.
pub open spec fn punctuation_token(c: char) -> Option<TokenView> {
    if c == '(' {
        Some(TokenView::LBrace(BraceType::Paren))
    } else if c == '[' {
        Some(TokenView::LBrace(BraceType::Square))
    } else if c == '{' {
        Some(TokenView::LBrace(BraceType::Curly))
    } else if c == ')' {
        Some(TokenView::RBrace(BraceType::Paren))
    } else if c == ']' {
        Some(TokenView::RBrace(BraceType::Square))
    } else if c == '}' {
        Some(TokenView::RBrace(BraceType::Curly))
    } else if c == ';' {
        Some(TokenView::Semicolon)
    } else {
        None
    }
}

/// Whether a symbol may continue a symbol identifier.
pub fn is_symbol_identifier(char: char) -> (r: bool)
    ensures
        r == is_symbol_char(char),
{
    char == '[' || char == '`' || char == '-' || char == '=' || char == '\\' || char == ','
        || char == '.' || char == '/' || char == '~' || char == '!' || char == '@' || char == '#'
        || char == '$' || char == '%' || char == '^' || char == '&' || char == '*' || char == '_'
        || char == '+' || char == '|' || char == ':' || char == '<' || char == '>' || char == '?'
}

/// Whether a character may start a word identifier.
pub fn is_word_identifier_start(char: char) -> (r: bool)
    ensures
        r == is_word_start_char(char),
{
    char_is_alphabetic(char) || char == '_'
}

/// Whether a character may continue a word identifier; every character that
/// may start one may continue it.
pub fn is_word_identifier_continue(char: char) -> (r: bool)
    ensures
        r == is_word_continue_char(char),
        is_word_start_char(char) ==> r,
{
    char_is_alphanumeric(char) || char == '_'
}

// ---------------------------------------------------------------------
// The state machine, as mathematics
// ---------------------------------------------------------------------

/// Where the lexer stands inside a string literal.
#[derive(Clone, Copy, PartialEq, Eq, Structural)]
pub enum StringLiteralPlace {
    Open,
    Middle { escaped: bool },
    Close,
}

/// The token being built, with the text gathered so far.
pub enum LexState {
    Idle,
    Comment,
    SymbolIdentifier { buffer: Seq<char> },
    WordIdentifier { buffer: Seq<char> },
    NumberLiteral { whole: Seq<char>, fraction: Seq<char>, decimal_placed: bool },
    StringLiteral { buffer: Seq<char>, place: StringLiteralPlace },
}

/// What a character starts when no token is being built (only `Idle` changes here).
pub open spec fn spec_update_state(c: char, peek: Option<char>, st: LexState) -> Result<
    LexState,
    TokenizeError,
> {
    if st is Idle {
        if punctuation_token(c) is Some || is_whitespace_char(c) {
            Ok(LexState::Idle)
        } else if c == '/' && peek == Some('/') {
            Ok(LexState::Comment)
        } else if (c == '.' && peek is Some && is_digit_char(peek->0)) || is_digit_char(c) {
            Ok(LexState::NumberLiteral { whole: seq![], fraction: seq![], decimal_placed: false })
        } else if is_symbol_char(c) {
            Ok(LexState::SymbolIdentifier { buffer: seq![] })
        } else if is_word_start_char(c) {
            Ok(LexState::WordIdentifier { buffer: seq![] })
        } else if c == '"' {
            Ok(LexState::StringLiteral { buffer: seq![], place: StringLiteralPlace::Open })
        } else {
            Err(TokenizeError::InvalidSymbol(c))
        }
    } else {
        Ok(st)
    }
}

/// How a character is folded into the token being built.
pub open spec fn spec_consume_char(c: char, st: LexState, out: Seq<TokenView>) -> Result<
    (LexState, Seq<TokenView>),
    TokenizeError,
> {
    match st {
        LexState::Idle => Ok(
            (
                LexState::Idle,
                match punctuation_token(c) {
                    Some(t) => out.push(t),
                    None => out,
                },
            ),
        ),
        LexState::Comment => Ok((st, out)),
        LexState::SymbolIdentifier { buffer } => Ok(
            (LexState::SymbolIdentifier { buffer: buffer.push(c) }, out),
        ),
        LexState::WordIdentifier { buffer } => Ok(
            (LexState::WordIdentifier { buffer: buffer.push(c) }, out),
        ),
        LexState::NumberLiteral { whole, fraction, decimal_placed } => {
            if c != '.' {
                if !decimal_placed {
                    Ok((LexState::NumberLiteral { whole: whole.push(c), fraction, decimal_placed }, out))
                } else {
                    Ok(
                        (
                            LexState::NumberLiteral {
                                whole,
                                fraction: fraction.push(c),
                                decimal_placed,
                            },
                            out,
                        ),
                    )
                }
            } else {
                Ok((LexState::NumberLiteral { whole, fraction, decimal_placed: true }, out))
            }
        },
        LexState::StringLiteral { buffer, place } => match place {
            StringLiteralPlace::Open => Ok(
                (
                    LexState::StringLiteral {
                        buffer,
                        place: StringLiteralPlace::Middle { escaped: false },
                    },
                    out,
                ),
            ),
            StringLiteralPlace::Middle { escaped } => {
                if !escaped && c == '\\' {
                    Ok(
                        (
                            LexState::StringLiteral {
                                buffer,
                                place: StringLiteralPlace::Middle { escaped: true },
                            },
                            out,
                        ),
                    )
                } else if !escaped && c == '"' {
                    Ok((st, out))
                } else if !escaped || c == '\\' || c == '"' {
                    Ok(
                        (
                            LexState::StringLiteral {
                                buffer: buffer.push(c),
                                place: StringLiteralPlace::Middle { escaped: false },
                            },
                            out,
                        ),
                    )
                } else {
                    Err(TokenizeError::StringLiteralPointlessEscape)
                }
            },
            StringLiteralPlace::Close => Ok((st, out)),
        },
    }
}

/// The kind of a lookahead character, as a number literal sees it.
#[derive(Clone, Copy, PartialEq, Eq, Structural)]
pub enum Classification {
    End,
    Whitespace,
    Digit,
    Dot,
    Symbol,
    Word,
    Other,
}

/// The kind of a lookahead character, as a number literal sees it.
pub open spec fn spec_classify(peek: Option<char>) -> Classification {
    match peek {
        None => Classification::End,
        Some(c) => if is_whitespace_char(c) {
            Classification::Whitespace
        } else if is_digit_char(c) {
            Classification::Digit
        } else if c == '.' {
            Classification::Dot
        } else if is_symbol_char(c) {
            Classification::Symbol
        } else if is_word_start_char(c) {
            Classification::Word
        } else {
            Classification::Other
        },
    }
}

/// Whether the lookahead ends the token being built; a string literal also
/// notes here that its closing quote comes next.
pub open spec fn spec_should_complete(st: LexState, peek: Option<char>, peek_2: Option<char>) -> Result<
    (bool, LexState),
    TokenizeError,
> {
    match st {
        LexState::Idle => Ok((false, st)),
        LexState::Comment => Ok((peek == Some('\n'), st)),
        LexState::SymbolIdentifier { .. } => Ok((!(peek is Some && is_symbol_char(peek->0)), st)),
        LexState::WordIdentifier { .. } => Ok(
            (!(peek is Some && is_word_continue_char(peek->0)), st),
        ),
        LexState::NumberLiteral { decimal_placed, .. } => {
            let first = spec_classify(peek);
            let second = spec_classify(peek_2);
            if first != Classification::Digit && first != Classification::Dot {
                Ok((true, st))
            } else if first == Classification::Dot && second == Classification::Word {
                Ok((true, st))
            } else if decimal_placed && first == Classification::Dot && second
                == Classification::Digit {
                Err(TokenizeError::NumberDecimalDividerDoubled)
            } else if decimal_placed && first == Classification::Dot {
                Ok((true, st))
            } else {
                Ok((false, st))
            }
        },
        LexState::StringLiteral { buffer, place } => {
            if place == StringLiteralPlace::Close {
                Ok((true, st))
            } else if place == (StringLiteralPlace::Middle { escaped: false }) && peek == Some(
                '"',
            ) {
                Ok((false, LexState::StringLiteral { buffer, place: StringLiteralPlace::Close }))
            } else if peek is None {
                Err(TokenizeError::StringLiteralUnclosed)
            } else {
                Ok((false, st))
            }
        },
    }
}

/// The token that a finished state adds to the output.
pub open spec fn spec_complete_token(st: LexState, out: Seq<TokenView>) -> Seq<TokenView> {
    match st {
        LexState::Idle => out,
        LexState::Comment => out,
        LexState::SymbolIdentifier { buffer } => out.push(TokenView::Identifier(buffer)),
        LexState::WordIdentifier { buffer } => out.push(TokenView::Identifier(buffer)),
        LexState::NumberLiteral { whole, fraction, decimal_placed } => out.push(
            TokenView::Literal(
                LiteralView::Number(
                    whole,
                    if decimal_placed {
                        Some(fraction)
                    } else {
                        None
                    },
                ),
            ),
        ),
        LexState::StringLiteral { buffer, .. } => out.push(
            TokenView::Literal(LiteralView::String(buffer)),
        ),
    }
}

/// Finishes the token being built if the lookahead ends it.
pub open spec fn spec_possibly_complete(
    peek: Option<char>,
    peek_2: Option<char>,
    out: Seq<TokenView>,
    st: LexState,
) -> Result<(LexState, Seq<TokenView>), TokenizeError> {
    match spec_should_complete(st, peek, peek_2) {
        Err(e) => Err(e),
        Ok((done, st2)) => if done {
            Ok((LexState::Idle, spec_complete_token(st2, out)))
        } else {
            Ok((st2, out))
        },
    }
}

/// One step of the lexer: the current character with its two lookahead characters.
pub open spec fn spec_step(
    c: char,
    peek: Option<char>,
    peek_2: Option<char>,
    st: LexState,
    out: Seq<TokenView>,
) -> Result<(LexState, Seq<TokenView>), TokenizeError> {
    match spec_update_state(c, peek, st) {
        Err(e) => Err(e),
        Ok(st1) => match spec_consume_char(c, st1, out) {
            Err(e) => Err(e),
            Ok((st2, out2)) => spec_possibly_complete(peek, peek_2, out2, st2),
        },
    }
}

/// The lexer run from position `i` of `s` in state `st`, having produced `out`.
pub open spec fn spec_tokenize_from(s: Seq<char>, i: int, st: LexState, out: Seq<TokenView>) -> Result<
    Seq<TokenView>,
    TokenizeError,
>
    decreases s.len() - i,
{
    if i < 0 || i >= s.len() {
        Ok(out)
    } else {
        match spec_step(s[i], char_at(s, i + 1), char_at(s, i + 2), st, out) {
            Err(e) => Err(e),
            Ok((st2, out2)) => spec_tokenize_from(s, i + 1, st2, out2),
        }
    }
}

/// The tokens of a text, or the first error met.
pub open spec fn spec_tokenize(s: Seq<char>) -> Result<Seq<TokenView>, TokenizeError> {
    spec_tokenize_from(s, 0, LexState::Idle, seq![])
}

// ---------------------------------------------------------------------
// The state machine, as code
// ---------------------------------------------------------------------

/// The token being built, with the text gathered so far.
enum State {
    Idle,
    Comment,
    SymbolIdentifier { buffer: String },
    WordIdentifier { buffer: String },
    NumberLiteral { buffer_whole: String, buffer_fraction: String, decimal_placed: bool },
    StringLiteral { buffer: String, place: StringLiteralPlace },
}

impl View for State {
    type V = LexState;

    closed spec fn view(&self) -> LexState {
        match self {
            State::Idle => LexState::Idle,
            State::Comment => LexState::Comment,
            State::SymbolIdentifier { buffer } => LexState::SymbolIdentifier { buffer: buffer@ },
            State::WordIdentifier { buffer } => LexState::WordIdentifier { buffer: buffer@ },
            State::NumberLiteral { buffer_whole, buffer_fraction, decimal_placed } =>
                LexState::NumberLiteral {
                    whole: buffer_whole@,
                    fraction: buffer_fraction@,
                    decimal_placed: *decimal_placed,
                },
            State::StringLiteral { buffer, place } => LexState::StringLiteral {
                buffer: buffer@,
                place: *place,
            },
        }
    }
}

impl State {
    fn is_idle(&self) -> (r: bool)
        ensures
            r == (self@ is Idle),
    {
        match self {
            State::Idle => true,
            _ => false,
        }
    }
}

/// Whether a lookahead character is one of the lexer's digits.
fn is_digit(peek: Option<char>) -> (r: bool)
    ensures
        r == (peek is Some && is_digit_char(peek->0)),
{
    match peek {
        Some(d) => '0' <= d && d <= '9',
        None => false,
    }
}

// only Idle changes state type here
// everything else changes back to Idle when they complete a token
fn update_state(char: char, peek: Option<char>, state: &mut State) -> (res: Result<(), TokenizeError>)
    ensures
        match spec_update_state(char, peek, old(state)@) {
            Ok(st) => res is Ok && final(state)@ == st,
            Err(e) => res == Err::<(), TokenizeError>(e) && final(state)@ == old(state)@,
        },
{
    if state.is_idle() {
        if char == '(' || char == ')' || char == '[' || char == ']' || char == '{' || char == '}'
            || char == ';' {
        } else if char_is_whitespace(char) {
        } else if char == '/' && matches!(peek, Some('/')) {
            *state = State::Comment;
        } else if (char == '.' && is_digit(peek)) || is_digit(Some(char)) {
            *state = State::NumberLiteral {
                buffer_whole: String::new(),
                buffer_fraction: String::new(),
                decimal_placed: false,
            };
        } else if is_symbol_identifier(char) {
            *state = State::SymbolIdentifier { buffer: String::new() };
        } else if is_word_identifier_start(char) {
            *state = State::WordIdentifier { buffer: String::new() };
        } else if char == '"' {
            *state = State::StringLiteral {
                buffer: String::new(),
                place: StringLiteralPlace::Open,
            };
        } else {
            return Err(TokenizeError::InvalidSymbol(char));
        }
    }
    Ok(())
}

fn consume_char(char: char, out: &mut Vec<Token>, state: &mut State) -> (res: Result<
    (),
    TokenizeError,
>)
    requires
        !(old(state)@ is NumberLiteral && old(state)@->decimal_placed && char == '.'),
    ensures
        match spec_consume_char(char, old(state)@, tokens_view(old(out)@)) {
            Ok((st, o)) => res is Ok && final(state)@ == st && tokens_view(final(out)@) == o,
            Err(e) => res == Err::<(), TokenizeError>(e) && final(state)@ == old(state)@
                && tokens_view(final(out)@) == tokens_view(old(out)@),
        },
{
    let mut current = State::Idle;
    std::mem::swap(&mut current, state);
    match current {
        State::Idle => {
            let ghost before = out@;
            match char {
                '(' => out.push(Token::LBrace(BraceType::Paren)),
                '[' => out.push(Token::LBrace(BraceType::Square)),
                '{' => out.push(Token::LBrace(BraceType::Curly)),
                ')' => out.push(Token::RBrace(BraceType::Paren)),
                ']' => out.push(Token::RBrace(BraceType::Square)),
                '}' => out.push(Token::RBrace(BraceType::Curly)),
                ';' => out.push(Token::Semicolon),
                _ => {},
            }
            proof {
                if out@.len() != before.len() {
                    lemma_tokens_view_push(before, out@.last());
                    assert(out@ == before.push(out@.last()));
                }
            }
        },
        State::Comment => {
            *state = State::Comment;
        },
        State::SymbolIdentifier { mut buffer } => {
            push_char(&mut buffer, char);
            *state = State::SymbolIdentifier { buffer };
        },
        State::WordIdentifier { mut buffer } => {
            push_char(&mut buffer, char);
            *state = State::WordIdentifier { buffer };
        },
        State::NumberLiteral { mut buffer_whole, mut buffer_fraction, decimal_placed } => {
            if char != '.' {
                if !decimal_placed {
                    push_char(&mut buffer_whole, char);
                } else {
                    push_char(&mut buffer_fraction, char);
                }
                *state = State::NumberLiteral { buffer_whole, buffer_fraction, decimal_placed };
            } else {
                *state = State::NumberLiteral {
                    buffer_whole,
                    buffer_fraction,
                    decimal_placed: true,
                };
            }
        },
        State::StringLiteral { mut buffer, place } => match place {
            StringLiteralPlace::Open => {
                *state = State::StringLiteral {
                    buffer,
                    place: StringLiteralPlace::Middle { escaped: false },
                };
            },
            StringLiteralPlace::Middle { escaped } => {
                if !escaped && char == '\\' {
                    *state = State::StringLiteral {
                        buffer,
                        place: StringLiteralPlace::Middle { escaped: true },
                    };
                } else if !escaped && char == '"' {
                    *state = State::StringLiteral { buffer, place };
                } else if !escaped || char == '\\' || char == '"' {
                    push_char(&mut buffer, char);
                    *state = State::StringLiteral {
                        buffer,
                        place: StringLiteralPlace::Middle { escaped: false },
                    };
                } else {
                    *state = State::StringLiteral { buffer, place };
                    return Err(TokenizeError::StringLiteralPointlessEscape);
                }
            },
            StringLiteralPlace::Close => {
                *state = State::StringLiteral { buffer, place };
            },
        },
    }
    Ok(())
}

fn classify(peek: Option<char>) -> (res: Result<Classification, TokenizeError>)
    ensures
        res == Ok::<Classification, TokenizeError>(spec_classify(peek)),
{
    Ok(
        match peek {
            None => Classification::End,
            Some(c) => if char_is_whitespace(c) {
                Classification::Whitespace
            } else if is_digit(Some(c)) {
                Classification::Digit
            } else if c == '.' {
                Classification::Dot
            } else if is_symbol_identifier(c) {
                Classification::Symbol
            } else if is_word_identifier_start(c) {
                Classification::Word
            } else {
                Classification::Other
            },
        },
    )
}

fn possibly_complete_token(
    peek: Option<char>,
    peek_2: Option<char>,
    out: &mut Vec<Token>,
    mut state: State,
) -> (res: Result<State, TokenizeError>)
    ensures
        match spec_possibly_complete(peek, peek_2, tokens_view(old(out)@), state@) {
            Ok((st, o)) => res matches Ok(r) && r@ == st && tokens_view(final(out)@) == o,
            Err(e) => res matches Err(r) && r == e && tokens_view(final(out)@) == tokens_view(
                old(out)@,
            ),
        },
{
    if should_complete_token(&mut state, peek, peek_2)? {
        complete_token(state, out);
        state = State::Idle;
    }
    Ok(state)
}

fn should_complete_token(state: &mut State, peek: Option<char>, peek_2: Option<char>) -> (res:
    Result<bool, TokenizeError>)
    ensures
        match spec_should_complete(old(state)@, peek, peek_2) {
            Ok((done, st)) => res == Ok::<bool, TokenizeError>(done) && final(state)@ == st,
            Err(e) => res == Err::<bool, TokenizeError>(e) && final(state)@ == old(state)@,
        },
{
    let mut current = State::Idle;
    std::mem::swap(&mut current, state);
    let done = match current {
        State::Idle => {
            *state = current;
            false
        },
        State::Comment => {
            *state = current;
            matches!(peek, Some('\n'))
        },
        State::SymbolIdentifier { buffer } => {
            *state = State::SymbolIdentifier { buffer };
            !(match peek {
                Some(p) => is_symbol_identifier(p),
                None => false,
            })
        },
        State::WordIdentifier { buffer } => {
            *state = State::WordIdentifier { buffer };
            !(match peek {
                Some(p) => is_word_identifier_continue(p),
                None => false,
            })
        },
        State::NumberLiteral { buffer_whole, buffer_fraction, decimal_placed } => {
            *state = State::NumberLiteral { buffer_whole, buffer_fraction, decimal_placed };
            match (decimal_placed, classify(peek)?, classify(peek_2)?) {
                (
                    _,
                    Classification::End
                    | Classification::Whitespace
                    | Classification::Symbol
                    | Classification::Word
                    | Classification::Other,
                    _,
                )
                | (_, Classification::Dot, Classification::Word) => true,  // 1.2|.a or 1|.a
                (true, Classification::Dot, Classification::Digit) => {
                    return Err(TokenizeError::NumberDecimalDividerDoubled);  // 1.2|.3 or 1.|.3
                },
                (true, Classification::Dot, _) => true,  // 1.2|.
                _ => false,
            }
        },
        State::StringLiteral { buffer, place } => match place {
            StringLiteralPlace::Close => {
                *state = State::StringLiteral { buffer, place };
                true
            },
            StringLiteralPlace::Middle { escaped: false } if matches!(peek, Some('"')) => {
                *state = State::StringLiteral { buffer, place: StringLiteralPlace::Close };
                false
            },
            _ => {
                *state = State::StringLiteral { buffer, place };
                if peek.is_none() {
                    return Err(TokenizeError::StringLiteralUnclosed);
                }
                false
            },
        },
    };
    Ok(done)
}

fn complete_token(state: State, out: &mut Vec<Token>)
    requires
        !(state@ is Idle),
    ensures
        tokens_view(final(out)@) == spec_complete_token(state@, tokens_view(old(out)@)),
{
    let ghost before = out@;
    match state {
        State::Idle => {},
        State::Comment => {},
        State::SymbolIdentifier { buffer } | State::WordIdentifier { buffer } => {
            out.push(Token::Identifier(buffer));
        },
        State::NumberLiteral { buffer_whole, buffer_fraction, decimal_placed } => {
            let fraction = if decimal_placed {
                Some(buffer_fraction)
            } else {
                None
            };
            out.push(Token::Literal(Literal::Number(buffer_whole, fraction)));
        },
        State::StringLiteral { buffer, place: _ } => {
            out.push(Token::Literal(Literal::String(buffer)));
        },
    }
    proof {
        if out@.len() != before.len() {
            lemma_tokens_view_push(before, out@.last());
            assert(out@ == before.push(out@.last()));
        }
    }
}

/// Splits a text into tokens.
pub fn tokenize(input: &str) -> (res: Result<Vec<Token>, TokenizeError>)
    ensures
        match res {
            Ok(tokens) => spec_tokenize(input@) == Ok::<Seq<TokenView>, TokenizeError>(
                tokens_view(tokens@),
            ),
            Err(e) => spec_tokenize(input@) == Err::<Seq<TokenView>, TokenizeError>(e),
        },
{
    let mut out: Vec<Token> = Vec::new();
    let mut input_chars = peekable_over_chars(input);
    let mut state = State::Idle;
    let ghost s = input@;
    let ghost mut i: int = 0;
    assert(tokens_view(out@) =~= seq![]);
    assert(s.skip(0) =~= s);
    loop
        invariant
            s == input@,
            0 <= i <= s.len(),
            peekable_remaining(input_chars) == s.skip(i),
            spec_tokenize(s) == spec_tokenize_from(s, i, state@, tokens_view(out@)),
            !(state@ is NumberLiteral && state@->decimal_placed && char_at(s, i) == Some('.')),
        ensures
            i == s.len(),
            spec_tokenize(s) == spec_tokenize_from(s, i, state@, tokens_view(out@)),
        decreases s.len() - i,
    {
        let char = match peekable_next(&mut input_chars) {
            Some(c) => c,
            None => break,
        };
        assert(s.skip(i).drop_first() =~= s.skip(i + 1));
        let peek = peekable_peek(&mut input_chars);
        let peek_2 = peekable_peek_2(&mut input_chars);
        assert(char == s[i]);
        assert(peek == char_at(s, i + 1));
        assert(peek_2 == char_at(s, i + 2));
        assert(spec_tokenize_from(s, i, state@, tokens_view(out@)) == match spec_step(
            char,
            peek,
            peek_2,
            state@,
            tokens_view(out@),
        ) {
            Err(e) => Err(e),
            Ok((st2, out2)) => spec_tokenize_from(s, i + 1, st2, out2),
        });
        if let Err(e) = update_state(char, peek, &mut state) {
            return Err(e);
        }
        if let Err(e) = consume_char(char, &mut out, &mut state) {
            return Err(e);
        }
        state = match possibly_complete_token(peek, peek_2, &mut out, state) {
            Ok(next) => next,
            Err(e) => return Err(e),
        };
        proof {
            i = i + 1;
        }
    }
    Ok(out)
}

// ---------------------------------------------------------------------
// What every run keeps
// ---------------------------------------------------------------------

/// Every character of `s` is a decimal digit.
pub open spec fn lexer_digits(s: Seq<char>) -> bool {
    forall|i: int| 0 <= i < s.len() ==> is_digit_char(#[trigger] s[i])
}

/// Every number literal among `tokens` has parts made of the lexer's digits.
pub open spec fn number_parts_are_digits(tokens: Seq<TokenView>) -> bool {
    forall|i: int|
        0 <= i < tokens.len() ==> match #[trigger] tokens[i] {
            TokenView::Literal(LiteralView::Number(whole, fraction)) => lexer_digits(whole) && match fraction {
                Some(f) => lexer_digits(f),
                None => true,
            },
            _ => true,
        }
}

/// A number being built holds digits only, and the character about to be
/// read into it is a digit or the decimal point.
spec fn number_state_holds_digits(s: Seq<char>, i: int, st: LexState) -> bool {
    match st {
        LexState::NumberLiteral { whole, fraction, .. } => lexer_digits(whole) && lexer_digits(
            fraction,
        ) && match char_at(s, i) {
            Some(c) => is_digit_char(c) || c == '.',
            None => true,
        },
        _ => true,
    }
}

proof fn lemma_tokenize_from_number_parts(s: Seq<char>, i: int, st: LexState, out: Seq<TokenView>)
    requires
        0 <= i <= s.len(),
        number_state_holds_digits(s, i, st),
        number_parts_are_digits(out),
    ensures
        spec_tokenize_from(s, i, st, out) matches Ok(tokens) ==> number_parts_are_digits(tokens),
    decreases s.len() - i,
{
    if i < s.len() {
        let c = s[i];
        let peek = char_at(s, i + 1);
        let peek_2 = char_at(s, i + 2);
        if let Ok(st1) = spec_update_state(c, peek, st) {
            assert(number_state_holds_digits(s, i, st1));
            if let Ok((st2, out2)) = spec_consume_char(c, st1, out) {
                assert(number_parts_are_digits(out2)) by {
                    if out2.len() > out.len() {
                        assert(forall|k: int| 0 <= k < out.len() ==> out2[k] == out[k]);
                    }
                }
                if let LexState::NumberLiteral { whole, fraction, .. } = st2 {
                    assert(lexer_digits(whole));
                    assert(lexer_digits(fraction));
                }
                if let Ok((st3, out3)) = spec_possibly_complete(peek, peek_2, out2, st2) {
                    assert(number_parts_are_digits(out3)) by {
                        if out3.len() > out2.len() {
                            assert(forall|k: int| 0 <= k < out2.len() ==> out3[k] == out2[k]);
                        }
                    }
                    assert(number_state_holds_digits(s, i + 1, st3));
                    lemma_tokenize_from_number_parts(s, i + 1, st3, out3);
                }
            }
        }
    }
}

/// The number literals that the lexer produces consist of decimal digits
/// only, in both their parts.
pub proof fn lemma_number_literals_hold_digits(s: Seq<char>)
    ensures
        spec_tokenize(s) matches Ok(tokens) ==> number_parts_are_digits(tokens),
{
    lemma_tokenize_from_number_parts(s, 0, LexState::Idle, seq![]);
}

proof fn lemma_tokenize_from_blank(s: Seq<char>, i: int, out: Seq<TokenView>)
    requires
        0 <= i <= s.len(),
        forall|k: int|
            0 <= k < s.len() ==> is_whitespace_char(#[trigger] s[k]) && punctuation_token(s[k]) is None,
    ensures
        spec_tokenize_from(s, i, LexState::Idle, out) == Ok::<Seq<TokenView>, TokenizeError>(out),
    decreases s.len() - i,
{
    if i < s.len() {
        let c = s[i];
        assert(is_whitespace_char(c) && punctuation_token(c) is None);
        lemma_tokenize_from_blank(s, i + 1, out);
    }
}

/// Whitespace alone gives no tokens (for whitespace that is none of the
/// characters that stand as tokens by themselves).
pub proof fn lemma_whitespace_gives_no_tokens(s: Seq<char>)
    requires
        forall|k: int|
            0 <= k < s.len() ==> is_whitespace_char(#[trigger] s[k]) && punctuation_token(s[k]) is None,
    ensures
        spec_tokenize(s) == Ok::<Seq<TokenView>, TokenizeError>(seq![]),
{
    lemma_tokenize_from_blank(s, 0, seq![]);
}

/// A number literal being built takes in every character but a second
/// decimal point: a digit goes to the part before the point until the point
/// has been read, and to the part after it from then on; the token list is
/// unchanged.
pub proof fn lemma_number_takes_characters(
    c: char,
    whole: Seq<char>,
    fraction: Seq<char>,
    decimal_placed: bool,
    out: Seq<TokenView>,
)
    requires
        !(c == '.' && decimal_placed),
    ensures
        spec_consume_char(
            c,
            LexState::NumberLiteral { whole, fraction, decimal_placed },
            out,
        ) == Ok::<(LexState, Seq<TokenView>), TokenizeError>(
            (
                if c == '.' {
                    LexState::NumberLiteral { whole, fraction, decimal_placed: true }
                } else if !decimal_placed {
                    LexState::NumberLiteral { whole: whole.push(c), fraction, decimal_placed }
                } else {
                    LexState::NumberLiteral { whole, fraction: fraction.push(c), decimal_placed }
                },
                out,
            ),
        ),
{
}

/// Comments and identifiers munch as far as they can: a comment ends only
/// before a line break, a symbol identifier only before a character that is
/// not a symbol, a word identifier only before one that cannot continue a
/// word. The state being built is left as it is.
pub proof fn lemma_longest_match(st: LexState, peek: Option<char>, peek_2: Option<char>)
    requires
        st is Comment || st is SymbolIdentifier || st is WordIdentifier,
    ensures
        spec_should_complete(st, peek, peek_2) == Ok::<(bool, LexState), TokenizeError>(
            (
                match st {
                    LexState::Comment => peek == Some('\n'),
                    LexState::SymbolIdentifier { .. } => !(peek is Some && is_symbol_char(
                        peek->0,
                    )),
                    _ => !(peek is Some && is_word_continue_char(peek->0)),
                },
                st,
            ),
        ),
{
}

/// A finished token: a comment adds nothing, an identifier its text, a
/// number its two parts (the part after the point only if there was a
/// point), a string its contents; nothing else is added.
pub proof fn lemma_finished_tokens(st: LexState, out: Seq<TokenView>)
    requires
        !(st is Idle),
    ensures
        spec_complete_token(st, out) == match st {
            LexState::SymbolIdentifier { buffer } => out.push(TokenView::Identifier(buffer)),
            LexState::WordIdentifier { buffer } => out.push(TokenView::Identifier(buffer)),
            LexState::NumberLiteral { whole, fraction, decimal_placed } => out.push(
                TokenView::Literal(
                    LiteralView::Number(whole, if decimal_placed { Some(fraction) } else { None }),
                ),
            ),
            LexState::StringLiteral { buffer, .. } => out.push(
                TokenView::Literal(LiteralView::String(buffer)),
            ),
            _ => out,
        },
{
}

/// Every character of `b` is a symbol character.
pub open spec fn symbol_text(b: Seq<char>) -> bool {
    forall|k: int| 0 <= k < b.len() ==> is_symbol_char(#[trigger] b[k])
}

/// `b` is a word: a character that starts a word, then characters that continue one.
pub open spec fn word_text(b: Seq<char>) -> bool {
    &&& b.len() > 0
    &&& is_word_start_char(b[0])
    &&& forall|k: int| 1 <= k < b.len() ==> is_word_continue_char(#[trigger] b[k])
}

/// The text of an identifier: a non-empty run of symbol characters, or a word.
pub open spec fn identifier_text(b: Seq<char>) -> bool {
    (b.len() > 0 && symbol_text(b)) || word_text(b)
}

/// Every identifier among `tokens` has the text of an identifier.
pub open spec fn identifiers_well_formed(tokens: Seq<TokenView>) -> bool {
    forall|i: int|
        0 <= i < tokens.len() ==> (#[trigger] tokens[i] matches TokenView::Identifier(b)
            ==> identifier_text(b))
}

/// An identifier being built has the text of one, and the character about
/// to be read continues it.
spec fn identifier_state_holds(s: Seq<char>, i: int, st: LexState) -> bool {
    match st {
        LexState::SymbolIdentifier { buffer } => buffer.len() > 0 && symbol_text(buffer) && (
        char_at(s, i) matches Some(c) && is_symbol_char(c)),
        LexState::WordIdentifier { buffer } => word_text(buffer) && (char_at(s, i) matches Some(c)
            && is_word_continue_char(c)),
        _ => true,
    }
}

proof fn lemma_pushed_keeps_identifiers(out: Seq<TokenView>, t: TokenView)
    requires
        identifiers_well_formed(out),
        t matches TokenView::Identifier(b) ==> identifier_text(b),
    ensures
        identifiers_well_formed(out.push(t)),
{
    assert forall|k: int| 0 <= k < out.push(t).len() implies (#[trigger] out.push(t)[k] matches TokenView::Identifier(b)
        ==> identifier_text(b)) by {
        if k < out.len() {
            assert(out.push(t)[k] == out[k]);
        }
    }
}

proof fn lemma_tokenize_from_identifiers(s: Seq<char>, i: int, st: LexState, out: Seq<TokenView>)
    requires
        0 <= i <= s.len(),
        identifier_state_holds(s, i, st),
        identifiers_well_formed(out),
    ensures
        spec_tokenize_from(s, i, st, out) matches Ok(tokens) ==> identifiers_well_formed(tokens),
    decreases s.len() - i,
{
    if i < s.len() {
        let c = s[i];
        let peek = char_at(s, i + 1);
        let peek_2 = char_at(s, i + 2);
        if let Ok(st1) = spec_update_state(c, peek, st) {
            if let Ok((st2, out2)) = spec_consume_char(c, st1, out) {
                assert(identifiers_well_formed(out2)) by {
                    if let Some(t) = punctuation_token(c) {
                        if st1 is Idle {
                            lemma_pushed_keeps_identifiers(out, t);
                        }
                    }
                }
                match st2 {
                    LexState::SymbolIdentifier { buffer } => {
                        assert(buffer.len() > 0 && symbol_text(buffer)) by {
                            assert(buffer.last() == c);
                        }
                    },
                    LexState::WordIdentifier { buffer } => {
                        assert(word_text(buffer)) by {
                            assert(buffer.last() == c);
                            if st is WordIdentifier {
                                assert(buffer[0] == st->WordIdentifier_buffer[0]);
                            }
                        }
                    },
                    _ => {},
                }
                if let Ok((st3, out3)) = spec_possibly_complete(peek, peek_2, out2, st2) {
                    assert(identifiers_well_formed(out3)) by {
                        if out3 != out2 {
                            lemma_pushed_keeps_identifiers(out2, out3.last());
                            assert(out3 == out2.push(out3.last()));
                        }
                    }
                    lemma_tokenize_from_identifiers(s, i + 1, st3, out3);
                }
            }
        }
    }
}

/// Every identifier that the lexer produces is either a non-empty run of
/// symbol characters, or a character that starts a word followed by
/// characters that continue one.
pub proof fn lemma_identifiers_are_well_formed(s: Seq<char>)
    ensures
        spec_tokenize(s) matches Ok(tokens) ==> identifiers_well_formed(tokens),
{
    lemma_tokenize_from_identifiers(s, 0, LexState::Idle, seq![]);
}

/// No character of `s` is a double quote or a backslash.
pub open spec fn plain_text(s: Seq<char>) -> bool {
    forall|k: int| 0 <= k < s.len() ==> #[trigger] s[k] != '"' && s[k] != '\\'
}

/// The characters of a quoted text `t` = `"` + `s` + `"` from position `i`
/// on (`1 <= i <= s.len()`), read after the first `i - 1` characters of `s`.
proof fn lemma_string_body(t: Seq<char>, s: Seq<char>, i: int, out: Seq<TokenView>)
    requires
        t == seq!['"'] + s + seq!['"'],
        plain_text(s),
        1 <= i <= s.len(),
    ensures
        spec_tokenize_from(
            t,
            i,
            LexState::StringLiteral {
                buffer: s.take(i - 1),
                place: StringLiteralPlace::Middle { escaped: false },
            },
            out,
        ) == Ok::<Seq<TokenView>, TokenizeError>(
            out.push(TokenView::Literal(LiteralView::String(s))),
        ),
    decreases s.len() - i,
{
    let c = t[i];
    assert(c == s[i - 1]);
    assert(s.take(i - 1).push(c) =~= s.take(i));
    if i < s.len() {
        assert(t[i + 1] == s[i]);
        lemma_string_body(t, s, i + 1, out);
    } else {
        assert(s.take(i) =~= s);
        assert(t[i + 1] == '"');
        lemma_string_closed(t, s, out);
    }
}

/// The closing quote of `t` = `"` + `s` + `"` ends the string literal `s`.
proof fn lemma_string_closed(t: Seq<char>, s: Seq<char>, out: Seq<TokenView>)
    requires
        t == seq!['"'] + s + seq!['"'],
    ensures
        spec_tokenize_from(
            t,
            s.len() + 1int,
            LexState::StringLiteral { buffer: s, place: StringLiteralPlace::Close },
            out,
        ) == Ok::<Seq<TokenView>, TokenizeError>(
            out.push(TokenView::Literal(LiteralView::String(s))),
        ),
{
    let n = s.len() as int;
    let st = LexState::StringLiteral { buffer: s, place: StringLiteralPlace::Close };
    let done = out.push(TokenView::Literal(LiteralView::String(s)));
    assert(t.len() == n + 2);
    assert(char_at(t, n + 2) is None);
    assert(char_at(t, n + 3) is None);
    assert(spec_step(t[n + 1], None, None, st, out) == Ok::<
        (LexState, Seq<TokenView>),
        TokenizeError,
    >((LexState::Idle, done)));
    assert(spec_tokenize_from(t, n + 2, LexState::Idle, done) == Ok::<
        Seq<TokenView>,
        TokenizeError,
    >(done));
}

/// A string literal keeps its text exactly: a quoted text without quotes or
/// backslashes inside is one string token holding every character between
/// the quotes, spaces included. (The character classes of std are known here
/// only by name, so the law takes as given that a double quote is neither
/// whitespace nor alphabetic.)
pub proof fn lemma_string_literal_keeps_its_text(s: Seq<char>)
    requires
        plain_text(s),
        !is_whitespace_char('"'),
        !is_alphabetic_char('"'),
    ensures
        spec_tokenize(seq!['"'] + s + seq!['"']) == Ok::<Seq<TokenView>, TokenizeError>(
            seq![TokenView::Literal(LiteralView::String(s))],
        ),
{
    let t = seq!['"'] + s + seq!['"'];
    assert(t[0] == '"');
    assert(t.len() == s.len() + 2);
    let opened = LexState::StringLiteral { buffer: seq![], place: StringLiteralPlace::Open };
    assert(spec_update_state('"', char_at(t, 1), LexState::Idle) == Ok::<
        LexState,
        TokenizeError,
    >(opened));
    if s.len() == 0 {
        assert(t[1] == '"');
        assert(s =~= seq![]);
        lemma_string_closed(t, s, seq![]);
    } else {
        assert(t[1] == s[0]);
        assert(s.take(0) =~= seq![]);
        lemma_string_body(t, s, 1, seq![]);
    }
}

} // verus!
