use vstd::prelude::*;
use crate::grammar::{
    Run, Step, lemma_run_members, lemma_step_advances, keywords, line_at, lookup_kind, newline_count,
    number_step, run_end, scan_from, scan_source, scan_step, step_end, step_error, step_token,
    string_step, word_step,
};
use crate::number::{Decimal, chars_of, is_digits, nat_text, u64_text};
use crate::token::{LiteralValue, Token, TokenType, TokenView, literal_ok, literal_view};

verus! {

/// A lexical error. Scanning goes on after each one.
#[derive(Debug, Clone, Copy, PartialEq, Eq, Structural)]
pub enum ScanError {
    UnrecognizedCharacter { line: usize, character: char },
    UnterminatedString { line: usize },
}

/// The characters that start and continue a number.
pub open spec fn spec_is_digit(c: char) -> bool {
    '0' <= c && c <= '9'
}

/// The characters that start an identifier: ASCII letters and underscore.
pub open spec fn spec_is_alpha(c: char) -> bool {
    ('a' <= c && c <= 'z') || ('A' <= c && c <= 'Z') || c == '_'
}

pub fn is_digit(ch: char) -> (r: bool)
    ensures
        r == spec_is_digit(ch),
{
    '0' <= ch && ch <= '9'
}

pub fn is_aplha(ch: char) -> (r: bool)
    ensures
        r == spec_is_alpha(ch),
{
    ('a' <= ch && ch <= 'z') || ('A' <= ch && ch <= 'Z') || ch == '_'
}

pub fn is_aplha_numeric(ch: char) -> (r: bool)
    ensures
        r == (spec_is_alpha(ch) || spec_is_digit(ch)),
{
    is_aplha(ch) || is_digit(ch)
}


/// A keyword table's entries as spellings and kinds.
pub open spec fn table_view(t: Seq<(String, TokenType)>) -> Seq<(Seq<char>, TokenType)> {
    t.map_values(|e: (String, TokenType)| (e.0@, e.1))
}

/// The table of reserved words, in the order of `keywords()`.
pub fn get_kewords_hashmap() -> (r: Vec<(String, TokenType)>)
    ensures
        table_view(r@) == keywords(),
{
    let r = vec![
        (String::from_str("and"), TokenType::And),
        (String::from_str("class"), TokenType::Class),
        (String::from_str("else"), TokenType::Else),
        (String::from_str("false"), TokenType::False),
        (String::from_str("for"), TokenType::For),
        (String::from_str("fun"), TokenType::Fun),
        (String::from_str("if"), TokenType::If),
        (String::from_str("nil"), TokenType::Nil),
        (String::from_str("or"), TokenType::Or),
        (String::from_str("print"), TokenType::Print),
        (String::from_str("return"), TokenType::Return),
        (String::from_str("super"), TokenType::Super),
        (String::from_str("this"), TokenType::This),
        (String::from_str("true"), TokenType::True),
        (String::from_str("var"), TokenType::Var),
        (String::from_str("while"), TokenType::While),
    ];
    assert(table_view(r@) =~= keywords());
    r
}

/// The kind of the first entry of `table` spelled `text`.
fn lookup(table: &Vec<(String, TokenType)>, text: &String) -> (r: Option<TokenType>)
    ensures
        r == lookup_kind(table_view(table@), text@),
{
    let ghost tv = table_view(table@);
    let mut i: usize = 0;
    assert(tv.skip(0) =~= tv);
    while i < table.len()
        invariant
            i <= table@.len(),
            tv == table_view(table@),
            lookup_kind(tv, text@) == lookup_kind(tv.skip(i as int), text@),
        decreases table.len() - i,
    {
        if table[i].0 == *text {
            return Some(table[i].1);
        }
        assert(tv.skip(i as int).drop_first() =~= tv.skip(i + 1));
        i = i + 1;
    }
    None
}

pub proof fn lemma_newline_count_bound(s: Seq<char>)
    ensures
        newline_count(s) <= s.len(),
    decreases s.len(),
{
    if s.len() > 0 {
        lemma_newline_count_bound(s.drop_last());
    }
}

/// Reading one character moves the line on exactly when it is a newline.
pub proof fn lemma_line_step(src: Seq<char>, p: int)
    requires
        0 <= p < src.len(),
    ensures
        line_at(src, p + 1) == line_at(src, p) + if src[p] == '\n' {
            1nat
        } else {
            0nat
        },
        line_at(src, p) <= p + 1,
{
    assert(src.take(p + 1).drop_last() =~= src.take(p));
    lemma_newline_count_bound(src.take(p));
}

pub struct ScannerView {
    pub source: Seq<char>,
    pub start: int,
    pub current: int,
    pub line: nat,
    pub tokens: Seq<TokenView>,
}

impl ScannerView {
    /// The scanner's state is consistent: the lexeme start and the cursor lie
    /// within the source, in order; the line is that of the cursor; and the
    /// numbers in the tokens so far are well formed.
    pub open spec fn valid(self) -> bool {
        &&& self.source.len() < usize::MAX
        &&& 0 <= self.start <= self.current <= self.source.len()
        &&& self.line == line_at(self.source, self.current)
        &&& forall|i: int| 0 <= i < self.tokens.len() ==> literal_ok(#[trigger] self.tokens[i].literal)
    }
}

/// Scans a source text into tokens. `start` is where the current lexeme
/// begins, `current` the next character to read, `line` the line of `current`.
pub struct Scanner {
    source: String,
    chars: Vec<char>,
    tokens: Vec<Token>,
    start: usize,
    start_line: usize,
    current: usize,
    line: usize,
    keywords: Vec<(String, TokenType)>,
}

pub open spec fn tokens_view(ts: Seq<Token>) -> Seq<TokenView> {
    ts.map_values(|t: Token| t@)
}

/// A copy of a token list, equal to it token by token.
pub fn copy_tokens(ts: &Vec<Token>) -> (r: Vec<Token>)
    ensures
        tokens_view(r@) == tokens_view(ts@),
{
    let mut r: Vec<Token> = Vec::new();
    let mut i: usize = 0;
    while i < ts.len()
        invariant
            i <= ts@.len(),
            tokens_view(r@) == tokens_view(ts@.take(i as int)),
        decreases ts.len() - i,
    {
        let t = ts[i].copied();
        let ghost before = r@;
        r.push(t);
        assert(ts@.take(i + 1) =~= ts@.take(i as int).push(ts@[i as int]));
        assert(tokens_view(r@) =~= tokens_view(before).push(t@));
        assert(tokens_view(ts@.take(i + 1)) =~= tokens_view(ts@.take(i as int)).push(ts@[i as int]@));
        i = i + 1;
    }
    assert(ts@.take(ts@.len() as int) =~= ts@);
    r
}

impl View for Scanner {
    type V = ScannerView;

    closed spec fn view(&self) -> ScannerView {
        ScannerView {
            source: self.chars@,
            start: self.start as int,
            current: self.current as int,
            line: self.line as nat,
            tokens: tokens_view(self.tokens@),
        }
    }
}

impl Scanner {
    pub closed spec fn wf(&self) -> bool {
        &&& self.chars@ == self.source@
        &&& self.chars@.len() < usize::MAX
        &&& self.start <= self.current <= self.chars@.len()
        &&& self.line == line_at(self.chars@, self.current as int)
        &&& self.start_line == line_at(self.chars@, self.start as int)
        &&& table_view(self.keywords@) == keywords()
        &&& self@.valid()
    }

    /// A scanner at the start of `source`. The bound on the length keeps the
    /// line counter within `usize`.
    pub fn new(source: &str) -> (r: Scanner)
        requires
            source@.len() < usize::MAX,
        ensures
            r.wf(),
            r@.valid(),
            r@.source == source@,
            r@.start == 0,
            r@.current == 0,
            r@.line == 1,
            r@.tokens.len() == 0,
    {
        let chars = chars_of(source);
        assert(chars@.take(0) =~= Seq::<char>::empty());
        Scanner {
            source: String::from_str(source),
            chars,
            tokens: Vec::new(),
            start: 0,
            start_line: 1,
            current: 0,
            line: 1,
            keywords: get_kewords_hashmap(),
        }
    }

    /// The tokens scanned so far; after a whole scan, all of them.
    pub fn tokens(&self) -> (r: &Vec<Token>)
        ensures
            tokens_view(r@) == self@.tokens,
    {
        &self.tokens
    }

    pub fn is_at_end(&self) -> (r: bool)
        requires
            self.wf(),
        ensures
            r == (self@.current >= self@.source.len()),
    {
        self.current >= self.chars.len()
    }

    /// Reads the next character.
    fn advance(&mut self) -> (c: char)
        requires
            old(self).wf(),
            old(self).current < old(self).chars@.len(),
        ensures
            final(self).wf(),
            c == old(self).chars@[old(self).current as int],
            final(self).current == old(self).current + 1,
            final(self).start == old(self).start,
            final(self).start_line == old(self).start_line,
            final(self).chars == old(self).chars,
            final(self).tokens == old(self).tokens,
    {
        let c = self.chars[self.current];
        proof {
            lemma_line_step(self.chars@, self.current as int);
        }
        if c == '\n' {
            self.line = self.line + 1;
        }
        self.current = self.current + 1;
        c
    }

    /// The next character, or `'\0'` at the end.
    fn peek(&self) -> (c: char)
        requires
            self.wf(),
        ensures
            c == if self.current < self.chars@.len() {
                self.chars@[self.current as int]
            } else {
                '\0'
            },
    {
        if self.current >= self.chars.len() {
            return '\0';
        }
        self.chars[self.current]
    }

    /// The character after the next one, or `'\0'` past the end.
    fn peek_next(&self) -> (c: char)
        requires
            self.wf(),
        ensures
            c == if self.current + 1 < self.chars@.len() {
                self.chars@[self.current + 1]
            } else {
                '\0'
            },
    {
        if self.current + 1 >= self.chars.len() {
            return '\0';
        }
        self.chars[self.current + 1]
    }

    /// Reads the next character if it is `ch`.
    fn char_match(&mut self, ch: char) -> (r: bool)
        requires
            old(self).wf(),
        ensures
            final(self).wf(),
            r == (old(self).current < old(self).chars@.len() && old(self).chars@[old(
                self,
            ).current as int] == ch),
            final(self).current == old(self).current + if r {
                1int
            } else {
                0int
            },
            final(self).start == old(self).start,
            final(self).start_line == old(self).start_line,
            final(self).chars == old(self).chars,
            final(self).tokens == old(self).tokens,
    {
        if self.is_at_end() {
            return false;
        }
        if self.chars[self.current] != ch {
            return false;
        }
        self.advance();
        true
    }

    /// The source text from `from` to `to`.
    fn text(&self, from: usize, to: usize) -> (r: String)
        requires
            self.wf(),
            from <= to <= self.chars@.len(),
        ensures
            r@ == self.chars@.subrange(from as int, to as int),
    {
        String::from_str(self.source.as_str().substring_char(from, to))
    }

    fn add_token(&mut self, token_type: TokenType)
        requires
            old(self).wf(),
        ensures
            final(self).wf(),
            final(self)@ == (ScannerView {
                tokens: old(self)@.tokens.push(
                    TokenView {
                        kind: token_type,
                        lexeme: old(self).chars@.subrange(old(self).start as int, old(self).current as int),
                        literal: None,
                        line: line_at(old(self).chars@, old(self).start as int),
                    },
                ),
                ..old(self)@
            }),
    {
        self.add_token_lit(token_type, None);
    }

    fn add_token_lit(&mut self, token_type: TokenType, literal: Option<LiteralValue>)
        requires
            old(self).wf(),
            literal_ok(literal_view(literal)),
        ensures
            final(self).wf(),
            final(self)@ == (ScannerView {
                tokens: old(self)@.tokens.push(
                    TokenView {
                        kind: token_type,
                        lexeme: old(self).chars@.subrange(old(self).start as int, old(self).current as int),
                        literal: literal_view(literal),
                        line: line_at(old(self).chars@, old(self).start as int),
                    },
                ),
                ..old(self)@
            }),
    {
        let lexeme = self.text(self.start, self.current);
        let t = Token { token_type, lexeme, literal, line_number: self.start_line };
        self.tokens.push(t);
        assert(tokens_view(self.tokens@) =~= tokens_view(old(self).tokens@).push(t@));
        assert(self@.valid());
    }
}

/// `after` is `before` with step `s`, taken at `pos`, done: the source kept,
/// the cursor at the step's end, and the step's token appended.
pub open spec fn step_done(before: ScannerView, pos: int, after: ScannerView, s: Step) -> bool {
    &&& after.source == before.source
    &&& after.current == step_end(s)
    &&& after.tokens == before.tokens + step_token(before.source, pos, s)
}

/// The result a step reports: its error, if it records one.
pub open spec fn step_result(s: Step) -> Result<(), ScanError> {
    match s {
        Step::Fail { error, .. } => Err(error),
        _ => Ok(()),
    }
}

/// The message of one error.
pub open spec fn error_message(e: ScanError) -> Seq<char> {
    match e {
        ScanError::UnrecognizedCharacter { line, character } => "unrecognized character at line "@
            + nat_text(line as nat) + ": "@ + seq![character],
        ScanError::UnterminatedString { .. } => "unterminated string"@,
    }
}

/// The messages of `es`, in order, separated by newlines.
pub open spec fn joined_messages(es: Seq<ScanError>) -> Seq<char>
    decreases es.len(),
{
    if es.len() == 0 {
        Seq::empty()
    } else if es.len() == 1 {
        error_message(es[0])
    } else {
        joined_messages(es.drop_last()) + seq!['\n'] + error_message(es.last())
    }
}

/// Relies on String::push: appends one character to the string.
#[verifier::external_body]
fn push_char(s: &mut String, c: char)
    ensures
        final(s)@ == old(s)@.push(c),
{
    s.push(c);
}

impl ScanError {
    pub fn message(&self) -> (r: String)
        ensures
            r@ == error_message(*self),
    {
        match self {
            ScanError::UnrecognizedCharacter { line, character } => {
                let mut r = String::from_str("unrecognized character at line ");
                let n = u64_text(*line as u64);
                r.append(n.as_str());
                r.append(": ");
                push_char(&mut r, *character);
                r
            },
            ScanError::UnterminatedString { .. } => String::from_str("unterminated string"),
        }
    }
}

/// The messages of `errors`, one per line.
pub fn join_messages(errors: &Vec<ScanError>) -> (r: String)
    ensures
        r@ == joined_messages(errors@),
{
    let mut r = String::new();
    let mut i: usize = 0;
    while i < errors.len()
        invariant
            i <= errors@.len(),
            r@ == joined_messages(errors@.take(i as int)),
        decreases errors.len() - i,
    {
        proof {
            reveal_strlit("\n");
        }
        if i > 0 {
            r.append("\n");
        }
        let m = errors[i].message();
        r.append(m.as_str());
        assert(errors@.take(i + 1).drop_last() =~= errors@.take(i as int));
        assert(r@ =~= joined_messages(errors@.take(i + 1)));
        i = i + 1;
    }
    assert(errors@.take(errors@.len() as int) =~= errors@);
    r
}

impl Scanner {
    fn string(&mut self) -> (r: Result<(), ScanError>)
        requires
            old(self).wf(),
            old(self).start < old(self).chars@.len(),
            old(self).current == old(self).start + 1,
            old(self).chars@[old(self).start as int] == '"',
        ensures
            final(self).wf(),
            final(self).start == old(self).start,
            step_done(
                old(self)@,
                old(self).start as int,
                final(self)@,
                string_step(old(self).chars@, old(self).start as int),
            ),
            r == step_result(string_step(old(self).chars@, old(self).start as int)),
    {
        let ghost src = self.chars@;
        let ghost pos = self.start as int;
        while self.peek() != '"' && !self.is_at_end()
            invariant
                self.wf(),
                self.chars@ == src,
                self.start == pos,
                self.tokens == old(self).tokens,
                pos + 1 <= self.current <= src.len(),
                run_end(src, pos + 1, Run::StringBody) == run_end(
                    src,
                    self.current as int,
                    Run::StringBody,
                ),
            decreases src.len() - self.current,
        {
            self.advance();
        }
        if self.is_at_end() {
            return Err(ScanError::UnterminatedString { line: self.start_line });
        }
        self.advance();
        let value = self.text(self.start + 1, self.current - 1);
        self.add_token_lit(TokenType::StringLiteral, Some(LiteralValue::StringValue(value)));
        assert(self@.tokens =~= old(self)@.tokens + step_token(src, pos, string_step(src, pos)));
        Ok(())
    }

    fn number(&mut self)
        requires
            old(self).wf(),
            old(self).start < old(self).chars@.len(),
            old(self).current == old(self).start + 1,
            spec_is_digit(old(self).chars@[old(self).start as int]),
        ensures
            final(self).wf(),
            final(self).start == old(self).start,
            step_done(
                old(self)@,
                old(self).start as int,
                final(self)@,
                number_step(old(self).chars@, old(self).start as int),
            ),
    {
        let ghost src = self.chars@;
        let ghost pos = self.start as int;
        while is_digit(self.peek())
            invariant
                self.wf(),
                self.chars@ == src,
                self.start == pos,
                self.tokens == old(self).tokens,
                pos + 1 <= self.current <= src.len(),
                run_end(src, pos + 1, Run::Digits) == run_end(src, self.current as int, Run::Digits),
            decreases src.len() - self.current,
        {
            self.advance();
        }
        let e1 = self.current;
        if self.peek() == '.' && is_digit(self.peek_next()) {
            self.advance();
            while is_digit(self.peek())
                invariant
                    self.wf(),
                    self.chars@ == src,
                    self.start == pos,
                    self.tokens == old(self).tokens,
                    e1 + 1 <= self.current <= src.len(),
                    run_end(src, e1 + 1, Run::Digits) == run_end(
                        src,
                        self.current as int,
                        Run::Digits,
                    ),
                decreases src.len() - self.current,
            {
                self.advance();
            }
            let d = Decimal {
                negative: false,
                whole: self.text(self.start, e1),
                fraction: self.text(e1 + 1, self.current),
            };
            proof {
                lemma_run_members(src, pos + 1, Run::Digits);
                lemma_run_members(src, e1 + 1, Run::Digits);
                assert(is_digits(d@.whole)) by {
                    assert forall|i: int| 0 <= i < d@.whole.len() implies spec_is_digit(
                        #[trigger] d@.whole[i],
                    ) by {
                        assert(d@.whole[i] == src[pos + i]);
                    }
                }
                assert(is_digits(d@.fraction)) by {
                    assert forall|i: int| 0 <= i < d@.fraction.len() implies spec_is_digit(
                        #[trigger] d@.fraction[i],
                    ) by {
                        assert(d@.fraction[i] == src[e1 + 1 + i]);
                    }
                }
            }
            self.add_token_lit(TokenType::Number, Some(LiteralValue::NumberValue(d)));
            assert(self@.tokens =~= old(self)@.tokens + step_token(src, pos, number_step(src, pos)));
        } else {
            let d = Decimal {
                negative: false,
                whole: self.text(self.start, e1),
                fraction: String::new(),
            };
            proof {
                lemma_run_members(src, pos + 1, Run::Digits);
                assert(is_digits(d@.whole)) by {
                    assert forall|i: int| 0 <= i < d@.whole.len() implies spec_is_digit(
                        #[trigger] d@.whole[i],
                    ) by {
                        assert(d@.whole[i] == src[pos + i]);
                    }
                }
            }
            self.add_token_lit(TokenType::Number, Some(LiteralValue::NumberValue(d)));
            assert(self@.tokens =~= old(self)@.tokens + step_token(src, pos, number_step(src, pos)));
        }
    }

    fn identifier(&mut self)
        requires
            old(self).wf(),
            old(self).start < old(self).chars@.len(),
            old(self).current == old(self).start + 1,
            spec_is_alpha(old(self).chars@[old(self).start as int]),
        ensures
            final(self).wf(),
            final(self).start == old(self).start,
            step_done(
                old(self)@,
                old(self).start as int,
                final(self)@,
                word_step(old(self).chars@, old(self).start as int),
            ),
    {
        let ghost src = self.chars@;
        let ghost pos = self.start as int;
        while is_aplha_numeric(self.peek())
            invariant
                self.wf(),
                self.chars@ == src,
                self.start == pos,
                self.tokens == old(self).tokens,
                pos + 1 <= self.current <= src.len(),
                run_end(src, pos + 1, Run::Word) == run_end(src, self.current as int, Run::Word),
            decreases src.len() - self.current,
        {
            self.advance();
        }
        let text = self.text(self.start, self.current);
        match lookup(&self.keywords, &text) {
            Some(k) => self.add_token(k),
            None => self.add_token_lit(
                TokenType::Identifier,
                Some(LiteralValue::IdentifierValue(text)),
            ),
        }
        assert(self@.tokens =~= old(self)@.tokens + step_token(src, pos, word_step(src, pos)));
    }
}

impl Scanner {
    /// Reads one lexeme starting at the cursor: emits its token, skips it, or
    /// reports its error; the cursor ends after it.
    pub fn scan_token(&mut self) -> (r: Result<(), ScanError>)
        requires
            old(self).wf(),
            old(self)@.valid(),
            old(self)@.current < old(self)@.source.len(),
        ensures
            final(self).wf(),
            final(self)@.valid(),
            final(self)@.start == old(self)@.current,
            step_done(
                old(self)@,
                old(self)@.current,
                final(self)@,
                scan_step(old(self)@.source, old(self)@.current),
            ),
            r == step_result(scan_step(old(self)@.source, old(self)@.current)),
    {
        let ghost src = self.chars@;
        let ghost pos = self.current as int;
        self.start = self.current;
        self.start_line = self.line;
        let ghost began = self@;
        assert(began.tokens == old(self)@.tokens);
        let c = self.advance();
        let ghost s = scan_step(src, pos);
        match c {
            '(' => self.add_token(TokenType::LeftParen),
            ')' => self.add_token(TokenType::RightParen),
            '{' => self.add_token(TokenType::LeftBrace),
            '}' => self.add_token(TokenType::RightBrace),
            ',' => self.add_token(TokenType::Comma),
            '.' => self.add_token(TokenType::Dot),
            '-' => self.add_token(TokenType::Minus),
            '+' => self.add_token(TokenType::Plus),
            ';' => self.add_token(TokenType::Semicolon),
            '*' => self.add_token(TokenType::Star),
            '!' => {
                let t = if self.char_match('=') {
                    TokenType::BangEqual
                } else {
                    TokenType::Bang
                };
                self.add_token(t);
            },
            '=' => {
                let t = if self.char_match('=') {
                    TokenType::EqualEqual
                } else {
                    TokenType::Equal
                };
                self.add_token(t);
            },
            '<' => {
                let t = if self.char_match('=') {
                    TokenType::LessEqual
                } else {
                    TokenType::Less
                };
                self.add_token(t);
            },
            '>' => {
                let t = if self.char_match('=') {
                    TokenType::GreaterEqual
                } else {
                    TokenType::Greater
                };
                self.add_token(t);
            },
            '/' => {
                if self.char_match('/') {
                    while self.peek() != '\n' && !self.is_at_end()
                        invariant
                            self.wf(),
                            self.chars@ == src,
                            self.start == pos,
                            self.tokens == old(self).tokens,
                            pos + 2 <= self.current <= src.len(),
                            run_end(src, pos + 2, Run::RestOfLine) == run_end(
                                src,
                                self.current as int,
                                Run::RestOfLine,
                            ),
                        decreases src.len() - self.current,
                    {
                        self.advance();
                    }
                } else {
                    self.add_token(TokenType::Slash);
                }
            },
            ' ' | '\r' | '\t' | '\n' => {},
            '"' => {
                let r = self.string();
                return r;
            },
            _ => {
                if is_digit(c) {
                    self.number();
                } else if is_aplha(c) {
                    self.identifier();
                } else {
                    assert(self@.tokens =~= old(self)@.tokens + step_token(src, pos, s));
                    return Err(ScanError::UnrecognizedCharacter { line: self.start_line, character: c });
                }
            },
        }
        assert(self@.tokens =~= old(self)@.tokens + step_token(src, pos, s));
        Ok(())
    }

    /// Scans the whole source from its beginning: every token, closed by the
    /// end-of-input token, and every error, each in the order met.
    pub fn scan_all(&mut self) -> (r: (Vec<Token>, Vec<ScanError>))
        requires
            old(self).wf(),
        ensures
            final(self).wf(),
            final(self)@.valid(),
            final(self)@.source == old(self)@.source,
            final(self)@.tokens == scan_source(old(self)@.source).tokens,
            tokens_view(r.0@) == scan_source(old(self)@.source).tokens,
            r.1@ == scan_source(old(self)@.source).errors,
    {
        let ghost src = self.chars@;
        self.tokens = Vec::new();
        self.start = 0;
        self.start_line = 1;
        self.current = 0;
        self.line = 1;
        assert(src.take(0) =~= Seq::<char>::empty());
        let mut errors: Vec<ScanError> = Vec::new();
        assert(self@.tokens + scan_from(src, 0).tokens =~= scan_from(src, 0).tokens);
        assert(errors@ + scan_from(src, 0).errors =~= scan_from(src, 0).errors);
        while !self.is_at_end()
            invariant
                self.wf(),
                self@.source == src,
                self@.tokens + scan_from(src, self@.current).tokens == scan_from(src, 0).tokens,
                errors@ + scan_from(src, self@.current).errors == scan_from(src, 0).errors,
            decreases src.len() - self@.current,
        {
            let ghost before = self@;
            let ghost errs = errors@;
            let ghost s = scan_step(src, before.current);
            match self.scan_token() {
                Ok(()) => {},
                Err(e) => errors.push(e),
            }
            proof {
                lemma_step_advances(src, before.current);
                let rest = scan_from(src, step_end(s));
                assert(scan_from(src, before.current).tokens == step_token(src, before.current, s)
                    + rest.tokens);
                assert(scan_from(src, before.current).errors == step_error(s) + rest.errors);
                assert(errors@ =~= errs + step_error(s));
                assert(self@.tokens + rest.tokens =~= before.tokens + scan_from(
                    src,
                    before.current,
                ).tokens);
                assert(errors@ + rest.errors =~= errs + scan_from(src, before.current).errors);
            }
        }
        assert(scan_from(src, self@.current).tokens.len() == 0);
        assert(self@.tokens =~= scan_from(src, 0).tokens);
        assert(errors@ =~= scan_from(src, 0).errors);
        let end = Token {
            token_type: TokenType::EndOfInput,
            lexeme: String::new(),
            literal: None,
            line_number: self.line,
        };
        self.tokens.push(end);
        assert(tokens_view(self.tokens@) =~= scan_source(src).tokens);
        assert(self@.valid());
        (copy_tokens(&self.tokens), errors)
    }

    /// Scans the whole source: the tokens when no lexical error was found,
    /// else every error's message, one per line.
    pub fn scan_tokens(&mut self) -> (r: Result<Vec<Token>, String>)
        requires
            old(self).wf(),
        ensures
            final(self).wf(),
            final(self)@.valid(),
            final(self)@.source == old(self)@.source,
            final(self)@.tokens == scan_source(old(self)@.source).tokens,
            ({
                let m = scan_source(old(self)@.source);
                match r {
                    Ok(ts) => m.errors.len() == 0 && tokens_view(ts@) == m.tokens,
                    Err(msg) => m.errors.len() > 0 && msg@ == joined_messages(m.errors),
                }
            }),
    {
        let (tokens, errors) = self.scan_all();
        if errors.len() > 0 {
            return Err(join_messages(&errors));
        }
        Ok(tokens)
    }
}

} // verus!
