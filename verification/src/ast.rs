//! Expression trees.  Each composite node exclusively owns its children; a
//! tree is immutable once built.  Rendering produces the nested structural
//! text form, a pure function of the tree.

use crate::error::ParseError;
use crate::text::{i32_to_decimal, spec_int_repr};
use crate::token::{spec_repr, spec_token_debug, SpecToken, Token};
use vstd::prelude::*;

verus! {

/// An expression tree as the contracts speak of it.
pub enum SpecExpr {
    Name { name: Seq<char> },
    IntLit { value: int },
    Prefix { operator: Seq<char>, operand: Box<SpecExpr> },
    Binary { left: Box<SpecExpr>, operator: SpecToken, right: Box<SpecExpr> },
}

/// A bare name used as an operand.
#[derive(Debug, PartialEq)]
pub struct NameExpression {
    pub name: String,
}

/// An integer literal used as an operand.
#[derive(Debug, PartialEq)]
pub struct IntLitExpression {
    pub lit: i32,
}

/// A unary prefix operator applied to an operand; the operator is kept as
/// its symbol text.
#[derive(Debug, PartialEq)]
pub struct PrefixExpression {
    pub operand: Box<Expression>,
    pub operator: String,
}

/// A binary operator applied to two operands; the operator is kept as the
/// raw token.
#[derive(Debug, PartialEq)]
pub struct BinaryExpression {
    pub left: Box<Expression>,
    pub right: Box<Expression>,
    pub operator: Token,
}

/// One node of an expression tree.
#[derive(Debug, PartialEq)]
pub enum Expression {
    Name(NameExpression),
    IntLit(IntLitExpression),
    Prefix(PrefixExpression),
    Binary(BinaryExpression),
}

/// The mathematical tree a node stands for.
pub open spec fn expr_view(e: Expression) -> SpecExpr
    decreases e,
{
    match e {
        Expression::Name(ne) => SpecExpr::Name { name: ne.name@ },
        Expression::IntLit(ie) => SpecExpr::IntLit { value: ie.lit as int },
        Expression::Prefix(pe) => SpecExpr::Prefix {
            operator: pe.operator@,
            operand: Box::new(expr_view(*pe.operand)),
        },
        Expression::Binary(be) => SpecExpr::Binary {
            left: Box::new(expr_view(*be.left)),
            operator: be.operator@,
            right: Box::new(expr_view(*be.right)),
        },
    }
}

impl View for Expression {
    type V = SpecExpr;

    open spec fn view(&self) -> SpecExpr {
        expr_view(*self)
    }
}

/// The exact text a tree renders to: per-node shapes with literal
/// punctuation.  A name in quotes; a literal in decimal; a prefix node names
/// its operator symbol in quotes; a binary node names its operator token's
/// debug form.
pub open spec fn render_spec(e: SpecExpr) -> Seq<char>
    decreases e,
{
    match e {
        SpecExpr::Name { name } => "(name: \""@ + name + "\")"@,
        SpecExpr::IntLit { value } => "(int: "@ + spec_int_repr(value) + ")"@,
        SpecExpr::Prefix { operator, operand } => "(operator: \""@ + operator + "\", operand: "@
            + render_spec(*operand) + ")"@,
        SpecExpr::Binary { left, operator, right } => "(left operand: ("@ + render_spec(*left)
            + "), operator: "@ + spec_token_debug(operator) + ", right operand: ("@ + render_spec(
            *right,
        ) + "))"@,
    }
}

impl NameExpression {
    /// Wraps a name token; any other kind of token is a malformed operand
    /// for a name node.
    pub fn new(token: Token) -> (r: Result<NameExpression, ParseError>)
        ensures
            match token@ {
                SpecToken::Name(s) => r matches Ok(ne) && ne.name@ == s,
                _ => r == Err::<NameExpression, ParseError>(
                    ParseError::MalformedTokenForExpression,
                ),
            },
    {
        if let Token::Name(name) = token {
            Ok(NameExpression { name })
        } else {
            Err(ParseError::MalformedTokenForExpression)
        }
    }
}

impl IntLitExpression {
    /// Wraps an integer-literal token; any other kind of token is a
    /// malformed operand for a literal node.
    pub fn new(token: Token) -> (r: Result<IntLitExpression, ParseError>)
        ensures
            match token@ {
                SpecToken::IntLit(v) => r matches Ok(ie) && ie.lit as int == v,
                _ => r == Err::<IntLitExpression, ParseError>(
                    ParseError::MalformedTokenForExpression,
                ),
            },
    {
        if let Token::IntLit(lit) = token {
            Ok(IntLitExpression { lit })
        } else {
            Err(ParseError::MalformedTokenForExpression)
        }
    }
}

impl PrefixExpression {
    /// Builds a prefix node from the operator token (kept as its symbol
    /// text) and the already-parsed operand.
    pub fn new(token: Token, operand: Box<Expression>) -> (r: PrefixExpression)
        ensures
            r@ == (SpecExpr::Prefix {
                operator: spec_repr(token@),
                operand: Box::new(operand@),
            }),
    {
        PrefixExpression { operator: token.get_repr(), operand }
    }
}

impl BinaryExpression {
    /// Builds a binary node from the two already-parsed operands and the raw
    /// operator token.
    pub fn new(left: Box<Expression>, right: Box<Expression>, operator: Token) -> (r:
        BinaryExpression)
        ensures
            r@ == (SpecExpr::Binary {
                left: Box::new(left@),
                operator: operator@,
                right: Box::new(right@),
            }),
    {
        BinaryExpression { left, right, operator }
    }
}

impl View for NameExpression {
    type V = SpecExpr;

    open spec fn view(&self) -> SpecExpr {
        SpecExpr::Name { name: self.name@ }
    }
}

impl View for IntLitExpression {
    type V = SpecExpr;

    open spec fn view(&self) -> SpecExpr {
        SpecExpr::IntLit { value: self.lit as int }
    }
}

impl View for PrefixExpression {
    type V = SpecExpr;

    open spec fn view(&self) -> SpecExpr {
        SpecExpr::Prefix {
            operator: self.operator@,
            operand: Box::new(expr_view(*self.operand)),
        }
    }
}

impl View for BinaryExpression {
    type V = SpecExpr;

    open spec fn view(&self) -> SpecExpr {
        SpecExpr::Binary {
            left: Box::new(expr_view(*self.left)),
            operator: self.operator@,
            right: Box::new(expr_view(*self.right)),
        }
    }
}

impl Expression {
    /// Renders the tree as its nested structural text, exactly
    /// [`render_spec`] of the tree's view.
    pub fn render(&self) -> (r: String)
        ensures
            r@ == render_spec(self@),
        decreases self,
    {
        match self {
            Expression::Name(ne) => {
                let mut s = String::from_str("(name: \"");
                s.append(ne.name.as_str());
                s.append("\")");
                proof {
                    assert(s@ =~= render_spec(self@));
                }
                s
            },
            Expression::IntLit(ie) => {
                let mut s = String::from_str("(int: ");
                let digits = i32_to_decimal(ie.lit);
                s.append(digits.as_str());
                s.append(")");
                proof {
                    assert(s@ =~= render_spec(self@));
                }
                s
            },
            Expression::Prefix(pe) => {
                let mut s = String::from_str("(operator: \"");
                s.append(pe.operator.as_str());
                s.append("\", operand: ");
                let inner = pe.operand.render();
                s.append(inner.as_str());
                s.append(")");
                proof {
                    assert(s@ =~= render_spec(self@));
                }
                s
            },
            Expression::Binary(be) => {
                let mut s = String::from_str("(left operand: (");
                let left_text = be.left.render();
                s.append(left_text.as_str());
                s.append("), operator: ");
                let op_text = be.operator.get_debug();
                s.append(op_text.as_str());
                s.append(", right operand: (");
                let right_text = be.right.render();
                s.append(right_text.as_str());
                s.append("))");
                proof {
                    assert(s@ =~= render_spec(self@));
                }
                s
            },
        }
    }
}

/// Rendering is a pure function of the tree: two nodes with the same
/// mathematical view render to the same text, so rendering the same tree
/// twice produces identical text.
pub proof fn lemma_render_deterministic(e1: Expression, e2: Expression)
    requires
        e1@ == e2@,
    ensures
        render_spec(e1@) == render_spec(e2@),
{
}

}
