//! Tokens and their metadata: the type tag used as a registry key, the
//! textual representation, and the binding power of the binary operators.

use crate::text::spec_int_repr;
use vstd::prelude::*;

verus! {

/// Binding power of the additive operators `+` and `-` in infix position.
pub const SUM_BP: i32 = 10;

/// Binding power of the multiplicative operators `*` and `/`.
pub const PRODUCT_BP: i32 = 20;

/// Binding power of the exponent operator `^`.
pub const CARET_BP: i32 = 30;

/// Binding power of the unary prefix operators: higher than every binary
/// operator, so a prefix operator binds tighter than any infix one.
pub const PREFIX_BP: i32 = 40;

/// A token as the contracts speak of it: the name is a character sequence,
/// the literal an unbounded integer.
pub enum SpecToken {
    Name(Seq<char>),
    Plus,
    Minus,
    Slash,
    Star,
    Tilde,
    Bang,
    Caret,
    OpenParen,
    CloseParen,
    IntLit(int),
}

/// One token of the input text.
#[derive(Debug, PartialEq)]
pub enum Token {
    Name(String),
    Plus,
    Minus,
    Slash,
    Star,
    Tilde,
    Bang,
    Caret,
    OpenParen,
    CloseParen,
    IntLit(i32),
}

/// The type tag of a token: the key under which parselets are registered.
#[derive(Clone, Copy, Debug, PartialEq, Eq, Structural)]
pub enum TokenType {
    Name,
    Plus,
    Minus,
    Slash,
    Star,
    Tilde,
    Bang,
    Caret,
    OpenParen,
    CloseParen,
    IntLit,
}

impl Clone for Token {
    /// A clone is equal to the original, payload included.
    fn clone(&self) -> (res: Token)
        ensures
            res == *self,
    {
        match self {
            Token::Name(s) => Token::Name(s.clone()),
            Token::Plus => Token::Plus,
            Token::Minus => Token::Minus,
            Token::Slash => Token::Slash,
            Token::Star => Token::Star,
            Token::Tilde => Token::Tilde,
            Token::Bang => Token::Bang,
            Token::Caret => Token::Caret,
            Token::OpenParen => Token::OpenParen,
            Token::CloseParen => Token::CloseParen,
            Token::IntLit(v) => Token::IntLit(*v),
        }
    }
}

impl View for Token {
    type V = SpecToken;

    open spec fn view(&self) -> SpecToken {
        match self {
            Token::Name(s) => SpecToken::Name(s@),
            Token::Plus => SpecToken::Plus,
            Token::Minus => SpecToken::Minus,
            Token::Slash => SpecToken::Slash,
            Token::Star => SpecToken::Star,
            Token::Tilde => SpecToken::Tilde,
            Token::Bang => SpecToken::Bang,
            Token::Caret => SpecToken::Caret,
            Token::OpenParen => SpecToken::OpenParen,
            Token::CloseParen => SpecToken::CloseParen,
            Token::IntLit(v) => SpecToken::IntLit(*v as int),
        }
    }
}

/// The type tag of a token.
pub open spec fn spec_token_type(t: SpecToken) -> TokenType {
    match t {
        SpecToken::Name(_) => TokenType::Name,
        SpecToken::Plus => TokenType::Plus,
        SpecToken::Minus => TokenType::Minus,
        SpecToken::Slash => TokenType::Slash,
        SpecToken::Star => TokenType::Star,
        SpecToken::Tilde => TokenType::Tilde,
        SpecToken::Bang => TokenType::Bang,
        SpecToken::Caret => TokenType::Caret,
        SpecToken::OpenParen => TokenType::OpenParen,
        SpecToken::CloseParen => TokenType::CloseParen,
        SpecToken::IntLit(_) => TokenType::IntLit,
    }
}

/// Is the token one of the binary operators?
pub open spec fn spec_is_binop(t: SpecToken) -> bool {
    match t {
        SpecToken::Plus
        | SpecToken::Minus
        | SpecToken::Slash
        | SpecToken::Star
        | SpecToken::Caret => true,
        _ => false,
    }
}

/// The binding power of a token in infix position; every binary operator has
/// a power strictly greater than 0, every other token has 0.
pub open spec fn spec_binding_power(t: SpecToken) -> int {
    match t {
        SpecToken::Plus | SpecToken::Minus => SUM_BP as int,
        SpecToken::Slash | SpecToken::Star => PRODUCT_BP as int,
        SpecToken::Caret => CARET_BP as int,
        _ => 0,
    }
}

/// Every binary-operator token has a binding power strictly greater than 0;
/// non-operator tokens have binding power 0 and are never treated as infix
/// continuations.
pub proof fn lemma_binding_power_positive_iff_binop(t: SpecToken)
    ensures
        spec_is_binop(t) <==> spec_binding_power(t) > 0,
{
}

/// The textual representation of a token: the symbol of an operator, the
/// text of a name, the decimal text of a literal.
pub open spec fn spec_repr(t: SpecToken) -> Seq<char> {
    match t {
        SpecToken::Name(s) => s,
        SpecToken::Plus => "+"@,
        SpecToken::Minus => "-"@,
        SpecToken::Slash => "/"@,
        SpecToken::Star => "*"@,
        SpecToken::Tilde => "~"@,
        SpecToken::Bang => "!"@,
        SpecToken::OpenParen => "("@,
        SpecToken::CloseParen => ")"@,
        SpecToken::IntLit(v) => spec_int_repr(v),
        SpecToken::Caret => "^"@,
    }
}

/// The debug form of a token: the variant's name, with the payload of a name
/// or literal token in parentheses.
pub open spec fn spec_token_debug(t: SpecToken) -> Seq<char> {
    match t {
        SpecToken::Name(s) => "Name(\""@ + s + "\")"@,
        SpecToken::Plus => "Plus"@,
        SpecToken::Minus => "Minus"@,
        SpecToken::Slash => "Slash"@,
        SpecToken::Star => "Star"@,
        SpecToken::Tilde => "Tilde"@,
        SpecToken::Bang => "Bang"@,
        SpecToken::Caret => "Caret"@,
        SpecToken::OpenParen => "OpenParen"@,
        SpecToken::CloseParen => "CloseParen"@,
        SpecToken::IntLit(v) => "IntLit("@ + spec_int_repr(v) + ")"@,
    }
}

impl Token {
    /// The type tag, used as the lookup key into the parselet registries.
    pub fn get_type(&self) -> (t: TokenType)
        ensures
            t == spec_token_type(self@),
    {
        match self {
            Token::Name(_) => TokenType::Name,
            Token::Plus => TokenType::Plus,
            Token::Minus => TokenType::Minus,
            Token::Slash => TokenType::Slash,
            Token::Star => TokenType::Star,
            Token::Tilde => TokenType::Tilde,
            Token::Bang => TokenType::Bang,
            Token::OpenParen => TokenType::OpenParen,
            Token::CloseParen => TokenType::CloseParen,
            Token::IntLit(_) => TokenType::IntLit,
            Token::Caret => TokenType::Caret,
        }
    }

    /// The textual representation of the token.
    pub fn get_repr(&self) -> (r: String)
        ensures
            r@ == spec_repr(self@),
    {
        match self {
            Token::Name(name) => name.clone(),
            Token::Plus => String::from_str("+"),
            Token::Minus => String::from_str("-"),
            Token::Slash => String::from_str("/"),
            Token::Star => String::from_str("*"),
            Token::Tilde => String::from_str("~"),
            Token::Bang => String::from_str("!"),
            Token::OpenParen => String::from_str("("),
            Token::CloseParen => String::from_str(")"),
            Token::IntLit(lit) => crate::text::i32_to_decimal(*lit),
            Token::Caret => String::from_str("^"),
        }
    }

    /// The debug form of the token, used when a binary node is rendered.
    pub fn get_debug(&self) -> (r: String)
        ensures
            r@ == spec_token_debug(self@),
    {
        match self {
            Token::Name(name) => {
                let mut s = String::from_str("Name(\"");
                s.append(name.as_str());
                s.append("\")");
                proof {
                    assert(s@ =~= "Name(\""@ + name@ + "\")"@);
                }
                s
            },
            Token::Plus => String::from_str("Plus"),
            Token::Minus => String::from_str("Minus"),
            Token::Slash => String::from_str("Slash"),
            Token::Star => String::from_str("Star"),
            Token::Tilde => String::from_str("Tilde"),
            Token::Bang => String::from_str("Bang"),
            Token::Caret => String::from_str("Caret"),
            Token::OpenParen => String::from_str("OpenParen"),
            Token::CloseParen => String::from_str("CloseParen"),
            Token::IntLit(lit) => {
                let mut s = String::from_str("IntLit(");
                let digits = crate::text::i32_to_decimal(*lit);
                s.append(digits.as_str());
                s.append(")");
                proof {
                    assert(s@ =~= "IntLit("@ + spec_int_repr(*lit as int) + ")"@);
                }
                s
            },
        }
    }

    /// Is the token one of the binary operators `+ - / * ^`?
    pub fn is_binop(&self) -> (r: bool)
        ensures
            r == spec_is_binop(self@),
    {
        match self {
            Token::Plus | Token::Minus | Token::Slash | Token::Star | Token::Caret => true,
            _ => false,
        }
    }

    /// The binding power of the token in infix position.
    pub fn get_binding_power(&self) -> (r: i32)
        ensures
            r as int == spec_binding_power(self@),
    {
        match self {
            Token::Plus | Token::Minus => SUM_BP,
            Token::Slash | Token::Star => PRODUCT_BP,
            Token::Caret => CARET_BP,
            _ => 0,
        }
    }
}

}
