use vstd::prelude::*;
use crate::number::{Decimal, DecimalView, decimal_text, int_decimal};
use crate::token::{LiteralValue as TokenLiteral, LiteralView, Token, TokenType, literal_ok};

verus! {

/// The value of a literal expression.
#[derive(Debug, Clone)]
pub enum LiteralValue {
    Number(Decimal),
    StringValue(String),
    True,
    False,
    Nil,
}

pub enum ValueView {
    Number(DecimalView),
    StringValue(Seq<char>),
    True,
    False,
    Nil,
}

impl View for LiteralValue {
    type V = ValueView;

    open spec fn view(&self) -> ValueView {
        match self {
            LiteralValue::Number(d) => ValueView::Number(d@),
            LiteralValue::StringValue(s) => ValueView::StringValue(s@),
            LiteralValue::True => ValueView::True,
            LiteralValue::False => ValueView::False,
            LiteralValue::Nil => ValueView::Nil,
        }
    }
}

/// The text of a value: numbers in their shortest decimal form, strings
/// verbatim, and `true`, `false`, `nil`.
pub open spec fn value_text(v: ValueView) -> Seq<char> {
    match v {
        ValueView::Number(d) => decimal_text(d),
        ValueView::StringValue(s) => s,
        ValueView::True => "true"@,
        ValueView::False => "false"@,
        ValueView::Nil => "nil"@,
    }
}

/// Numbers among values are well formed; other values always are.
pub open spec fn value_ok(v: ValueView) -> bool {
    match v {
        ValueView::Number(d) => d.valid(),
        _ => true,
    }
}

/// The number a token's literal holds.
pub open spec fn number_of(l: Option<LiteralView>) -> DecimalView
    recommends
        l matches Some(LiteralView::IntValue(_)) || l matches Some(LiteralView::NumberValue(_)),
{
    match l {
        Some(LiteralView::IntValue(x)) => int_decimal(x),
        Some(LiteralView::NumberValue(d)) => d,
        _ => arbitrary(),
    }
}

/// The text a token's literal holds.
pub open spec fn text_of(l: Option<LiteralView>) -> Seq<char>
    recommends
        l matches Some(LiteralView::StringValue(_)) || l matches Some(
            LiteralView::IdentifierValue(_),
        ),
{
    match l {
        Some(LiteralView::StringValue(s)) => s,
        Some(LiteralView::IdentifierValue(s)) => s,
        _ => arbitrary(),
    }
}

pub open spec fn is_number_literal(l: Option<TokenLiteral>) -> bool {
    l matches Some(TokenLiteral::IntValue(_)) || l matches Some(TokenLiteral::NumberValue(_))
}

pub open spec fn is_text_literal(l: Option<TokenLiteral>) -> bool {
    l matches Some(TokenLiteral::StringValue(_)) || l matches Some(
        TokenLiteral::IdentifierValue(_),
    )
}

fn unwrap_as_number(literal: Option<TokenLiteral>) -> (r: Decimal)
    requires
        is_number_literal(literal),
    ensures
        r@ == number_of(crate::token::literal_view(literal)),
        literal_ok(crate::token::literal_view(literal)) ==> r@.valid(),
{
    match literal {
        Some(TokenLiteral::IntValue(x)) => Decimal::from_int(x),
        Some(TokenLiteral::NumberValue(d)) => d,
        _ => {
            assert(false);
            Decimal::from_int(0)
        },
    }
}

/// The text of a string or identifier literal.
pub fn unwrap_as_string(literal: Option<TokenLiteral>) -> (r: String)
    requires
        is_text_literal(literal),
    ensures
        r@ == text_of(crate::token::literal_view(literal)),
{
    match literal {
        Some(TokenLiteral::StringValue(s)) => s,
        Some(TokenLiteral::IdentifierValue(s)) => s,
        _ => {
            assert(false);
            String::new()
        },
    }
}

/// The tokens that denote a literal value: numbers and strings with their
/// literal, and the words `true`, `false` and `nil`.
pub open spec fn denotes_value(t: Token) -> bool {
    match t.token_type {
        TokenType::Number => is_number_literal(t.literal),
        TokenType::StringLiteral => is_text_literal(t.literal),
        TokenType::True | TokenType::False | TokenType::Nil => true,
        _ => false,
    }
}

/// The value that a token denotes.
pub open spec fn value_of(t: Token) -> ValueView {
    match t.token_type {
        TokenType::Number => ValueView::Number(number_of(t@.literal)),
        TokenType::StringLiteral => ValueView::StringValue(text_of(t@.literal)),
        TokenType::True => ValueView::True,
        TokenType::False => ValueView::False,
        _ => ValueView::Nil,
    }
}

impl LiteralValue {
    pub fn to_string(&self) -> (r: String)
        requires
            value_ok(self@),
        ensures
            r@ == value_text(self@),
    {
        match self {
            LiteralValue::Number(d) => d.to_string(),
            LiteralValue::StringValue(s) => s.clone(),
            LiteralValue::True => String::from_str("true"),
            LiteralValue::False => String::from_str("false"),
            LiteralValue::Nil => String::from_str("nil"),
        }
    }

    pub fn from_token(token: Token) -> (r: Self)
        requires
            denotes_value(token),
            literal_ok(token@.literal),
        ensures
            r@ == value_of(token),
            value_ok(r@),
    {
        match token.token_type {
            TokenType::Number => LiteralValue::Number(unwrap_as_number(token.literal)),
            TokenType::StringLiteral => LiteralValue::StringValue(unwrap_as_string(token.literal)),
            TokenType::False => LiteralValue::False,
            TokenType::True => LiteralValue::True,
            _ => LiteralValue::Nil,
        }
    }
}

/// An expression tree; each node owns its children, and operators keep their
/// whole token so that the printer can use their exact spelling.
#[derive(Debug)]
pub enum Expr {
    Binary { left: Box<Expr>, operator: Token, right: Box<Expr> },
    Grouping { expression: Box<Expr> },
    Literal { value: LiteralValue },
    Unary { operator: Token, right: Box<Expr> },
}

impl Expr {
    /// The parenthesized prefix form: `(op left right)`, `(op operand)`,
    /// `(group inner)`, and a literal's text.
    pub open spec fn text(&self) -> Seq<char>
        decreases self,
    {
        match self {
            Expr::Binary { left, operator, right } => seq!['('] + operator.lexeme@ + seq![' ']
                + left.text() + seq![' '] + right.text() + seq![')'],
            Expr::Grouping { expression } => "(group "@ + expression.text() + seq![')'],
            Expr::Literal { value } => value_text(value@),
            Expr::Unary { operator, right } => seq!['('] + operator.lexeme@ + seq![' ']
                + right.text() + seq![')'],
        }
    }

    /// Every literal in the tree is well formed.
    pub open spec fn well_formed(&self) -> bool
        decreases self,
    {
        match self {
            Expr::Binary { left, right, .. } => left.well_formed() && right.well_formed(),
            Expr::Grouping { expression } => expression.well_formed(),
            Expr::Literal { value } => value_ok(value@),
            Expr::Unary { right, .. } => right.well_formed(),
        }
    }

    /// Whether every literal in the tree is well formed.
    pub fn is_well_formed(&self) -> (r: bool)
        ensures
            r == self.well_formed(),
        decreases self,
    {
        match self {
            Expr::Binary { left, right, .. } => left.is_well_formed() && right.is_well_formed(),
            Expr::Grouping { expression } => expression.is_well_formed(),
            Expr::Literal { value } => match value {
                LiteralValue::Number(d) => d.is_valid(),
                _ => true,
            },
            Expr::Unary { right, .. } => right.is_well_formed(),
        }
    }

    pub fn to_string(&self) -> (r: String)
        requires
            self.well_formed(),
        ensures
            r@ == self.text(),
        decreases self,
    {
        proof {
            reveal_strlit("(");
            reveal_strlit(" ");
            reveal_strlit(")");
        }
        match self {
            Expr::Binary { left, operator, right } => {
                let mut r = String::from_str("(");
                r.append(operator.lexeme.as_str());
                r.append(" ");
                let l = left.to_string();
                r.append(l.as_str());
                r.append(" ");
                let rt = right.to_string();
                r.append(rt.as_str());
                r.append(")");
                r
            },
            Expr::Grouping { expression } => {
                let mut r = String::from_str("(group ");
                let inner = expression.to_string();
                r.append(inner.as_str());
                r.append(")");
                r
            },
            Expr::Literal { value } => value.to_string(),
            Expr::Unary { operator, right } => {
                let mut r = String::from_str("(");
                r.append(operator.lexeme.as_str());
                r.append(" ");
                let rt = right.to_string();
                r.append(rt.as_str());
                r.append(")");
                r
            },
        }
    }
}

} // verus!
