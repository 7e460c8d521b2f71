use vstd::prelude::*;
use crate::number::{Decimal, DecimalView, decimal_text, int_decimal};

verus! {

/// The lexical category of a token.
#[derive(Debug, Clone, Copy, PartialEq, Eq, Structural)]
pub enum TokenType {
    LeftParen,
    RightParen,
    LeftBrace,
    RightBrace,
    Comma,
    Dot,
    Minus,
    Semicolon,
    Plus,
    Slash,
    Star,
    Bang,
    BangEqual,
    Equal,
    EqualEqual,
    Greater,
    GreaterEqual,
    Less,
    LessEqual,
    Identifier,
    StringLiteral,
    Number,
    And,
    Class,
    Else,
    False,
    For,
    Fun,
    If,
    Nil,
    Or,
    Print,
    Return,
    Super,
    This,
    True,
    Var,
    While,
    EndOfInput,
}

/// The name of a token kind, as its variant is spelled.
pub open spec fn kind_name(k: TokenType) -> Seq<char> {
    match k {
        TokenType::LeftParen => "LeftParen"@,
        TokenType::RightParen => "RightParen"@,
        TokenType::LeftBrace => "LeftBrace"@,
        TokenType::RightBrace => "RightBrace"@,
        TokenType::Comma => "Comma"@,
        TokenType::Dot => "Dot"@,
        TokenType::Minus => "Minus"@,
        TokenType::Semicolon => "Semicolon"@,
        TokenType::Plus => "Plus"@,
        TokenType::Slash => "Slash"@,
        TokenType::Star => "Star"@,
        TokenType::Bang => "Bang"@,
        TokenType::BangEqual => "BangEqual"@,
        TokenType::Equal => "Equal"@,
        TokenType::EqualEqual => "EqualEqual"@,
        TokenType::Greater => "Greater"@,
        TokenType::GreaterEqual => "GreaterEqual"@,
        TokenType::Less => "Less"@,
        TokenType::LessEqual => "LessEqual"@,
        TokenType::Identifier => "Identifier"@,
        TokenType::StringLiteral => "StringLiteral"@,
        TokenType::Number => "Number"@,
        TokenType::And => "And"@,
        TokenType::Class => "Class"@,
        TokenType::Else => "Else"@,
        TokenType::False => "False"@,
        TokenType::For => "For"@,
        TokenType::Fun => "Fun"@,
        TokenType::If => "If"@,
        TokenType::Nil => "Nil"@,
        TokenType::Or => "Or"@,
        TokenType::Print => "Print"@,
        TokenType::Return => "Return"@,
        TokenType::Super => "Super"@,
        TokenType::This => "This"@,
        TokenType::True => "True"@,
        TokenType::Var => "Var"@,
        TokenType::While => "While"@,
        TokenType::EndOfInput => "EndOfInput"@,
    }
}

impl TokenType {
    pub fn name(&self) -> (r: &'static str)
        ensures
            r@ == kind_name(*self),
    {
        match self {
            TokenType::LeftParen => "LeftParen",
            TokenType::RightParen => "RightParen",
            TokenType::LeftBrace => "LeftBrace",
            TokenType::RightBrace => "RightBrace",
            TokenType::Comma => "Comma",
            TokenType::Dot => "Dot",
            TokenType::Minus => "Minus",
            TokenType::Semicolon => "Semicolon",
            TokenType::Plus => "Plus",
            TokenType::Slash => "Slash",
            TokenType::Star => "Star",
            TokenType::Bang => "Bang",
            TokenType::BangEqual => "BangEqual",
            TokenType::Equal => "Equal",
            TokenType::EqualEqual => "EqualEqual",
            TokenType::Greater => "Greater",
            TokenType::GreaterEqual => "GreaterEqual",
            TokenType::Less => "Less",
            TokenType::LessEqual => "LessEqual",
            TokenType::Identifier => "Identifier",
            TokenType::StringLiteral => "StringLiteral",
            TokenType::Number => "Number",
            TokenType::And => "And",
            TokenType::Class => "Class",
            TokenType::Else => "Else",
            TokenType::False => "False",
            TokenType::For => "For",
            TokenType::Fun => "Fun",
            TokenType::If => "If",
            TokenType::Nil => "Nil",
            TokenType::Or => "Or",
            TokenType::Print => "Print",
            TokenType::Return => "Return",
            TokenType::Super => "Super",
            TokenType::This => "This",
            TokenType::True => "True",
            TokenType::Var => "Var",
            TokenType::While => "While",
            TokenType::EndOfInput => "EndOfInput",
        }
    }

    /// The kind's name as an owned string.
    pub fn to_string(&self) -> (r: String)
        ensures
            r@ == kind_name(*self),
    {
        String::from_str(self.name())
    }
}

/// The value a token carries: the digits of a number, the text of a string
/// literal, or the spelling of an identifier.
#[derive(Debug, Clone)]
pub enum LiteralValue {
    IntValue(i64),
    NumberValue(Decimal),
    StringValue(String),
    IdentifierValue(String),
}

pub enum LiteralView {
    IntValue(int),
    NumberValue(DecimalView),
    StringValue(Seq<char>),
    IdentifierValue(Seq<char>),
}

impl View for LiteralValue {
    type V = LiteralView;

    open spec fn view(&self) -> LiteralView {
        match self {
            LiteralValue::IntValue(x) => LiteralView::IntValue(*x as int),
            LiteralValue::NumberValue(d) => LiteralView::NumberValue(d@),
            LiteralValue::StringValue(s) => LiteralView::StringValue(s@),
            LiteralValue::IdentifierValue(s) => LiteralView::IdentifierValue(s@),
        }
    }
}

pub open spec fn literal_view(l: Option<LiteralValue>) -> Option<LiteralView> {
    match l {
        Some(v) => Some(v@),
        None => None,
    }
}

/// The text of a literal: numbers in their shortest decimal form, strings and
/// identifiers verbatim.
pub open spec fn literal_text(l: LiteralView) -> Seq<char> {
    match l {
        LiteralView::IntValue(x) => decimal_text(int_decimal(x)),
        LiteralView::NumberValue(d) => decimal_text(d),
        LiteralView::StringValue(s) => s,
        LiteralView::IdentifierValue(s) => s,
    }
}

impl LiteralValue {
    /// A copy of the value, equal to it.
    pub fn copied(&self) -> (r: LiteralValue)
        ensures
            r@ == self@,
    {
        match self {
            LiteralValue::IntValue(x) => LiteralValue::IntValue(*x),
            LiteralValue::NumberValue(d) => LiteralValue::NumberValue(d.copied()),
            LiteralValue::StringValue(s) => LiteralValue::StringValue(s.clone()),
            LiteralValue::IdentifierValue(s) => LiteralValue::IdentifierValue(s.clone()),
        }
    }

    pub fn to_string(&self) -> (r: String)
        requires
            literal_ok(Some(self@)),
        ensures
            r@ == literal_text(self@),
    {
        match self {
            LiteralValue::IntValue(x) => Decimal::from_int(*x).to_string(),
            LiteralValue::NumberValue(d) => d.to_string(),
            LiteralValue::StringValue(s) => s.clone(),
            LiteralValue::IdentifierValue(s) => s.clone(),
        }
    }
}

/// One scanned token: its kind, the exact source text it was read from, its
/// value if it has one, and the 1-based line on which it starts.
#[derive(Debug, Clone)]
pub struct Token {
    pub token_type: TokenType,
    pub lexeme: String,
    pub literal: Option<LiteralValue>,
    pub line_number: usize,
}

pub struct TokenView {
    pub kind: TokenType,
    pub lexeme: Seq<char>,
    pub literal: Option<LiteralView>,
    pub line: nat,
}

impl View for Token {
    type V = TokenView;

    open spec fn view(&self) -> TokenView {
        TokenView {
            kind: self.token_type,
            lexeme: self.lexeme@,
            literal: literal_view(self.literal),
            line: self.line_number as nat,
        }
    }
}

/// A literal written as its variant and text: `None`, or for instance
/// `Some(NumberValue(2.5))` and `Some(StringValue("hi"))`.
pub open spec fn literal_debug(l: Option<LiteralView>) -> Seq<char> {
    match l {
        None => "None"@,
        Some(LiteralView::IntValue(x)) => "Some(IntValue("@ + decimal_text(int_decimal(x)) + "))"@,
        Some(LiteralView::NumberValue(d)) => "Some(NumberValue("@ + decimal_text(d) + "))"@,
        Some(LiteralView::StringValue(s)) => "Some(StringValue(\""@ + s + "\"))"@,
        Some(LiteralView::IdentifierValue(s)) => "Some(IdentifierValue(\""@ + s + "\"))"@,
    }
}

/// Numbers in a literal are well formed; other literals always are.
pub open spec fn literal_ok(l: Option<LiteralView>) -> bool {
    match l {
        Some(LiteralView::NumberValue(d)) => d.valid(),
        _ => true,
    }
}

/// A token's text: kind, lexeme and literal, separated by single spaces.
pub open spec fn token_text(t: TokenView) -> Seq<char> {
    kind_name(t.kind) + seq![' '] + t.lexeme + seq![' '] + literal_debug(t.literal)
}

impl Token {
    pub fn new(
        token_type: TokenType,
        lexeme: String,
        literal: Option<LiteralValue>,
        line_number: usize,
    ) -> (r: Token)
        ensures
            r.token_type == token_type,
            r.lexeme == lexeme,
            r.literal == literal,
            r.line_number == line_number,
    {
        Token { token_type, lexeme, literal, line_number }
    }

    pub fn to_string(&self) -> (r: String)
        requires
            literal_ok(self@.literal),
        ensures
            r@ == token_text(self@),
    {
        proof {
            reveal_strlit(" ");
        }
        let mut r = self.token_type.to_string();
        r.append(" ");
        r.append(self.lexeme.as_str());
        r.append(" ");
        match &self.literal {
            None => r.append("None"),
            Some(LiteralValue::IntValue(x)) => {
                r.append("Some(IntValue(");
                let t = Decimal::from_int(*x).to_string();
                r.append(t.as_str());
                r.append("))");
            },
            Some(LiteralValue::NumberValue(d)) => {
                r.append("Some(NumberValue(");
                let t = d.to_string();
                r.append(t.as_str());
                r.append("))");
            },
            Some(LiteralValue::StringValue(s)) => {
                r.append("Some(StringValue(\"");
                r.append(s.as_str());
                r.append("\"))");
            },
            Some(LiteralValue::IdentifierValue(s)) => {
                r.append("Some(IdentifierValue(\"");
                r.append(s.as_str());
                r.append("\"))");
            },
        }
        r
    }

    /// A copy of the token, equal to it in every field.
    pub fn copied(&self) -> (r: Token)
        ensures
            r@ == self@,
    {
        let literal = match &self.literal {
            Some(l) => Some(l.copied()),
            None => None,
        };
        Token {
            token_type: self.token_type,
            lexeme: self.lexeme.clone(),
            literal,
            line_number: self.line_number,
        }
    }
}

} // verus!
