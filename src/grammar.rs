//! The lexical grammar, stated as spec functions: what one scanning step reads
//! at a position, and what a whole scan of a source text yields.
use vstd::prelude::*;
use crate::number::DecimalView;
use crate::scanner::{ScanError, spec_is_alpha, spec_is_digit};
use crate::token::{LiteralView, TokenType, TokenView};

verus! {

/// The reserved words, each with its token kind.
pub open spec fn keywords() -> Seq<(Seq<char>, TokenType)> {
    seq![
        ("and"@, TokenType::And),
        ("class"@, TokenType::Class),
        ("else"@, TokenType::Else),
        ("false"@, TokenType::False),
        ("for"@, TokenType::For),
        ("fun"@, TokenType::Fun),
        ("if"@, TokenType::If),
        ("nil"@, TokenType::Nil),
        ("or"@, TokenType::Or),
        ("print"@, TokenType::Print),
        ("return"@, TokenType::Return),
        ("super"@, TokenType::Super),
        ("this"@, TokenType::This),
        ("true"@, TokenType::True),
        ("var"@, TokenType::Var),
        ("while"@, TokenType::While),
    ]
}

/// The kind of the first entry of `table` spelled `text`, if any.
pub open spec fn lookup_kind(table: Seq<(Seq<char>, TokenType)>, text: Seq<char>) -> Option<
    TokenType,
>
    decreases table.len(),
{
    if table.len() == 0 {
        None
    } else if table[0].0 == text {
        Some(table[0].1)
    } else {
        lookup_kind(table.drop_first(), text)
    }
}

/// The reserved word spelled `text`, if `text` is one.
pub open spec fn keyword_kind(text: Seq<char>) -> Option<TokenType> {
    lookup_kind(keywords(), text)
}

/// The character classes that a scanning loop runs over.
pub enum Run {
    Digits,
    Word,
    RestOfLine,
    StringBody,
}

pub open spec fn in_run(c: char, r: Run) -> bool {
    match r {
        Run::Digits => spec_is_digit(c),
        Run::Word => spec_is_alpha(c) || spec_is_digit(c),
        Run::RestOfLine => c != '\n',
        Run::StringBody => c != '"',
    }
}

/// The end of the longest run of class `r` that starts at `p`.
pub open spec fn run_end(src: Seq<char>, p: int, r: Run) -> int
    decreases src.len() - p,
{
    if 0 <= p < src.len() && in_run(src[p], r) {
        run_end(src, p + 1, r)
    } else {
        p
    }
}

pub open spec fn newline_count(s: Seq<char>) -> nat
    decreases s.len(),
{
    if s.len() == 0 {
        0
    } else {
        newline_count(s.drop_last()) + if s.last() == '\n' {
            1nat
        } else {
            0nat
        }
    }
}

/// The 1-based line of position `pos`: one more than the newlines before it.
pub open spec fn line_at(src: Seq<char>, pos: int) -> nat {
    1 + newline_count(src.take(pos))
}

/// What one scanning step does at a position: skip text, emit a token, or
/// record an error; `end` is where the next step starts.
pub enum Step {
    Skip { end: int },
    Emit { kind: TokenType, literal: Option<LiteralView>, end: int },
    Fail { error: ScanError, end: int },
}

pub open spec fn step_end(s: Step) -> int {
    match s {
        Step::Skip { end } => end,
        Step::Emit { end, .. } => end,
        Step::Fail { end, .. } => end,
    }
}

pub open spec fn emit(kind: TokenType, end: int) -> Step {
    Step::Emit { kind, literal: None, end }
}

/// An operator that becomes its two-character form when `=` follows.
pub open spec fn with_equal(src: Seq<char>, pos: int, one: TokenType, two: TokenType) -> Step {
    if pos + 1 < src.len() && src[pos + 1] == '=' {
        emit(two, pos + 2)
    } else {
        emit(one, pos + 1)
    }
}

pub open spec fn number_step(src: Seq<char>, pos: int) -> Step {
    let e1 = run_end(src, pos + 1, Run::Digits);
    if e1 + 1 < src.len() && src[e1] == '.' && spec_is_digit(src[e1 + 1]) {
        let e2 = run_end(src, e1 + 1, Run::Digits);
        let d = DecimalView {
            negative: false,
            whole: src.subrange(pos, e1),
            fraction: src.subrange(e1 + 1, e2),
        };
        Step::Emit { kind: TokenType::Number, literal: Some(LiteralView::NumberValue(d)), end: e2 }
    } else {
        let d = DecimalView { negative: false, whole: src.subrange(pos, e1), fraction: Seq::empty() };
        Step::Emit { kind: TokenType::Number, literal: Some(LiteralView::NumberValue(d)), end: e1 }
    }
}

pub open spec fn word_step(src: Seq<char>, pos: int) -> Step {
    let e = run_end(src, pos + 1, Run::Word);
    let text = src.subrange(pos, e);
    match keyword_kind(text) {
        Some(k) => emit(k, e),
        None => Step::Emit {
            kind: TokenType::Identifier,
            literal: Some(LiteralView::IdentifierValue(text)),
            end: e,
        },
    }
}

pub open spec fn string_step(src: Seq<char>, pos: int) -> Step {
    let close = run_end(src, pos + 1, Run::StringBody);
    if close < src.len() {
        Step::Emit {
            kind: TokenType::StringLiteral,
            literal: Some(LiteralView::StringValue(src.subrange(pos + 1, close))),
            end: close + 1,
        }
    } else {
        Step::Fail {
            error: ScanError::UnterminatedString { line: line_at(src, pos) as usize },
            end: close,
        }
    }
}

/// One step of the scanner at position `pos`, for `0 <= pos < src.len()`.
pub open spec fn scan_step(src: Seq<char>, pos: int) -> Step {
    let c = src[pos];
    if c == '(' {
        emit(TokenType::LeftParen, pos + 1)
    } else if c == ')' {
        emit(TokenType::RightParen, pos + 1)
    } else if c == '{' {
        emit(TokenType::LeftBrace, pos + 1)
    } else if c == '}' {
        emit(TokenType::RightBrace, pos + 1)
    } else if c == ',' {
        emit(TokenType::Comma, pos + 1)
    } else if c == '.' {
        emit(TokenType::Dot, pos + 1)
    } else if c == '-' {
        emit(TokenType::Minus, pos + 1)
    } else if c == '+' {
        emit(TokenType::Plus, pos + 1)
    } else if c == ';' {
        emit(TokenType::Semicolon, pos + 1)
    } else if c == '*' {
        emit(TokenType::Star, pos + 1)
    } else if c == '!' {
        with_equal(src, pos, TokenType::Bang, TokenType::BangEqual)
    } else if c == '=' {
        with_equal(src, pos, TokenType::Equal, TokenType::EqualEqual)
    } else if c == '<' {
        with_equal(src, pos, TokenType::Less, TokenType::LessEqual)
    } else if c == '>' {
        with_equal(src, pos, TokenType::Greater, TokenType::GreaterEqual)
    } else if c == '/' {
        if pos + 1 < src.len() && src[pos + 1] == '/' {
            Step::Skip { end: run_end(src, pos + 2, Run::RestOfLine) }
        } else {
            emit(TokenType::Slash, pos + 1)
        }
    } else if c == ' ' || c == '\r' || c == '\t' || c == '\n' {
        Step::Skip { end: pos + 1 }
    } else if c == '"' {
        string_step(src, pos)
    } else if spec_is_digit(c) {
        number_step(src, pos)
    } else if spec_is_alpha(c) {
        word_step(src, pos)
    } else {
        Step::Fail {
            error: ScanError::UnrecognizedCharacter { line: line_at(src, pos) as usize, character: c },
            end: pos + 1,
        }
    }
}

pub proof fn lemma_run_end_bounds(src: Seq<char>, p: int, r: Run)
    requires
        0 <= p <= src.len(),
    ensures
        p <= run_end(src, p, r) <= src.len(),
    decreases src.len() - p,
{
    if p < src.len() && in_run(src[p], r) {
        lemma_run_end_bounds(src, p + 1, r);
    }
}

/// Every character of a run belongs to its class.
pub proof fn lemma_run_members(src: Seq<char>, p: int, r: Run)
    requires
        0 <= p <= src.len(),
    ensures
        forall|i: int| p <= i < run_end(src, p, r) ==> in_run(#[trigger] src[i], r),
    decreases src.len() - p,
{
    if p < src.len() && in_run(src[p], r) {
        lemma_run_members(src, p + 1, r);
    }
}

pub proof fn lemma_step_advances(src: Seq<char>, pos: int)
    requires
        0 <= pos < src.len(),
    ensures
        pos < step_end(scan_step(src, pos)) <= src.len(),
{
    lemma_run_end_bounds(src, pos + 1, Run::Digits);
    lemma_run_end_bounds(src, pos + 1, Run::Word);
    lemma_run_end_bounds(src, pos + 1, Run::StringBody);
    if pos + 2 <= src.len() {
        lemma_run_end_bounds(src, pos + 2, Run::RestOfLine);
    }
    let e1 = run_end(src, pos + 1, Run::Digits);
    if e1 + 1 < src.len() {
        lemma_run_end_bounds(src, e1 + 1, Run::Digits);
    }
}

/// The tokens and errors of a scan.
pub struct Scanned {
    pub tokens: Seq<TokenView>,
    pub errors: Seq<ScanError>,
}

/// The token a step emits at `pos`, if it emits one.
pub open spec fn step_token(src: Seq<char>, pos: int, s: Step) -> Seq<TokenView> {
    match s {
        Step::Emit { kind, literal, end } => seq![
            TokenView { kind, lexeme: src.subrange(pos, end), literal, line: line_at(src, pos) },
        ],
        _ => Seq::empty(),
    }
}

/// The error a step records, if it records one.
pub open spec fn step_error(s: Step) -> Seq<ScanError> {
    match s {
        Step::Fail { error, .. } => seq![error],
        _ => Seq::empty(),
    }
}

/// The tokens and errors of the steps from `pos` to the end of `src`.
pub open spec fn scan_from(src: Seq<char>, pos: int) -> Scanned
    decreases src.len() - pos,
    via scan_from_decreases
{
    if 0 <= pos < src.len() {
        let s = scan_step(src, pos);
        let rest = scan_from(src, step_end(s));
        Scanned {
            tokens: step_token(src, pos, s) + rest.tokens,
            errors: step_error(s) + rest.errors,
        }
    } else {
        Scanned { tokens: Seq::empty(), errors: Seq::empty() }
    }
}

#[via_fn]
proof fn scan_from_decreases(src: Seq<char>, pos: int) {
    if 0 <= pos < src.len() {
        lemma_step_advances(src, pos);
    }
}

/// The end-of-input token that closes every scan.
pub open spec fn end_token(src: Seq<char>) -> TokenView {
    TokenView {
        kind: TokenType::EndOfInput,
        lexeme: Seq::empty(),
        literal: None,
        line: line_at(src, src.len() as int),
    }
}

/// A whole scan: the tokens of every step, then the end-of-input token; and
/// the errors of every step, in order.
pub open spec fn scan_source(src: Seq<char>) -> Scanned {
    let r = scan_from(src, 0);
    Scanned { tokens: r.tokens.push(end_token(src)), errors: r.errors }
}

} // verus!
