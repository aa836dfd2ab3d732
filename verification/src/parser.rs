//! The Pratt engine: a forward-only cursor over the token list, two
//! read-only parselet registries populated at construction, and
//! precedence-climbing over binding powers.
//!
//! The engine is specified by two recursive spec functions,
//! [`spec_parse_expr`] and [`spec_parse_loop`], that carry an explicit
//! recursion budget ("fuel").  Any budget of at least one more than the
//! number of tokens is enough; [`lemma_parse_expr_fuel`] shows the outcome
//! is then independent of the budget, so [`spec_parse`] with the canonical
//! budget is the one meaning of a parse.

use crate::ast::{BinaryExpression, Expression, IntLitExpression, NameExpression,
    PrefixExpression, SpecExpr};
use crate::error::ParseError;
use crate::parselet::{reg_find, reg_lookup, InfixOpParselet, InfixParselet, IntLitParselet,
    NameParselet, PrefixOpParselet, PrefixParselet};
use crate::token::{spec_binding_power, spec_is_binop, spec_repr, SpecToken, Token, TokenType,
    CARET_BP, PREFIX_BP, PRODUCT_BP, SUM_BP};
use crate::tokenizer::views_of;
use vstd::prelude::*;

verus! {

/// Parses one expression from the front of `toks`: consumes the first token,
/// builds the initial left expression from its prefix handler (a parenthesis
/// resets the minimum binding power to 0), then hands over to the infix
/// loop.  `fuel` bounds the recursion depth; any value of at least
/// `toks.len() + 1` gives the same outcome.
pub open spec fn spec_parse_expr(toks: Seq<SpecToken>, min_bp: int, fuel: nat) -> Result<
    (SpecExpr, Seq<SpecToken>),
    ParseError,
>
    decreases fuel,
{
    if fuel == 0 {
        Err(ParseError::UnexpectedEndOfInput)
    } else if toks.len() == 0 {
        Err(ParseError::UnexpectedEndOfInput)
    } else {
        let first = toks[0];
        let rest = toks.skip(1);
        let f2 = (fuel - 1) as nat;
        match first {
            SpecToken::OpenParen => match spec_parse_expr(rest, 0, f2) {
                Err(e) => Err(e),
                Ok((left, rem)) => spec_parse_loop(left, rem, min_bp, f2),
            },
            SpecToken::Name(nm) => spec_parse_loop(
                SpecExpr::Name { name: nm },
                rest,
                min_bp,
                f2,
            ),
            SpecToken::IntLit(v) => spec_parse_loop(
                SpecExpr::IntLit { value: v },
                rest,
                min_bp,
                f2,
            ),
            SpecToken::Plus | SpecToken::Minus | SpecToken::Bang | SpecToken::Tilde => match
                spec_parse_expr(rest, PREFIX_BP as int, f2) {
                Err(e) => Err(e),
                Ok((operand, rem)) => spec_parse_loop(
                    SpecExpr::Prefix { operator: spec_repr(first), operand: Box::new(operand) },
                    rem,
                    min_bp,
                    f2,
                ),
            },
            _ => Err(ParseError::MissingPrefixHandler),
        }
    }
}

/// The infix loop around a completed left expression: stops at the end of
/// the tokens, consumes a closing parenthesis and stops, or — for a binary
/// operator binding strictly tighter than `min_bp` — parses the right
/// operand with that operator's own binding power and folds a binary node,
/// which makes equal-precedence chains associate left.
pub open spec fn spec_parse_loop(
    left: SpecExpr,
    toks: Seq<SpecToken>,
    min_bp: int,
    fuel: nat,
) -> Result<(SpecExpr, Seq<SpecToken>), ParseError>
    decreases fuel,
{
    if toks.len() == 0 {
        Ok((left, toks))
    } else if toks[0] == SpecToken::CloseParen {
        Ok((left, toks.skip(1)))
    } else if spec_is_binop(toks[0]) && spec_binding_power(toks[0]) > min_bp {
        if fuel == 0 {
            Err(ParseError::UnexpectedEndOfInput)
        } else {
            let op = toks[0];
            let f2 = (fuel - 1) as nat;
            match spec_parse_expr(toks.skip(1), spec_binding_power(op), f2) {
                Err(e) => Err(e),
                Ok((right, rem)) => spec_parse_loop(
                    SpecExpr::Binary {
                        left: Box::new(left),
                        operator: op,
                        right: Box::new(right),
                    },
                    rem,
                    min_bp,
                    f2,
                ),
            }
        }
    } else {
        Ok((left, toks))
    }
}

/// The canonical recursion budget for a token list.
pub open spec fn canon_fuel(toks: Seq<SpecToken>) -> nat {
    (toks.len() + 1) as nat
}

/// Parsing one expression from the whole token list, with minimum binding
/// power 0: the meaning of a parse.
pub open spec fn spec_parse(toks: Seq<SpecToken>) -> Result<
    (SpecExpr, Seq<SpecToken>),
    ParseError,
> {
    spec_parse_expr(toks, 0, canon_fuel(toks))
}

/// Any budget of at least `toks.len() + 1` gives [`spec_parse_expr`] the
/// canonical outcome, and a successful parse consumes at least one token.
pub proof fn lemma_parse_expr_fuel(toks: Seq<SpecToken>, min_bp: int, fuel: nat)
    requires
        fuel >= toks.len() + 1,
    ensures
        spec_parse_expr(toks, min_bp, fuel) == spec_parse_expr(toks, min_bp, canon_fuel(toks)),
        spec_parse_expr(toks, min_bp, fuel) matches Ok((e, rem)) ==> rem.len() < toks.len(),
    decreases toks.len(), 1int,
{
    if toks.len() == 0 {
        return ;
    }
    let first = toks[0];
    let rest = toks.skip(1);
    assert(rest.len() == toks.len() - 1);
    let f2 = (fuel - 1) as nat;
    let c2 = (canon_fuel(toks) - 1) as nat;
    match first {
        SpecToken::OpenParen => {
            lemma_parse_expr_fuel(rest, 0, f2);
            lemma_parse_expr_fuel(rest, 0, c2);
            if let Ok((left, rem)) = spec_parse_expr(rest, 0, canon_fuel(rest)) {
                lemma_parse_loop_fuel(left, rem, min_bp, f2);
                lemma_parse_loop_fuel(left, rem, min_bp, c2);
            }
        },
        SpecToken::Name(nm) => {
            lemma_parse_loop_fuel(SpecExpr::Name { name: nm }, rest, min_bp, f2);
            lemma_parse_loop_fuel(SpecExpr::Name { name: nm }, rest, min_bp, c2);
        },
        SpecToken::IntLit(v) => {
            lemma_parse_loop_fuel(SpecExpr::IntLit { value: v }, rest, min_bp, f2);
            lemma_parse_loop_fuel(SpecExpr::IntLit { value: v }, rest, min_bp, c2);
        },
        SpecToken::Plus | SpecToken::Minus | SpecToken::Bang | SpecToken::Tilde => {
            lemma_parse_expr_fuel(rest, PREFIX_BP as int, f2);
            lemma_parse_expr_fuel(rest, PREFIX_BP as int, c2);
            if let Ok((operand, rem)) = spec_parse_expr(rest, PREFIX_BP as int, canon_fuel(rest)) {
                let left = SpecExpr::Prefix { operator: spec_repr(first), operand: Box::new(operand) };
                lemma_parse_loop_fuel(left, rem, min_bp, f2);
                lemma_parse_loop_fuel(left, rem, min_bp, c2);
            }
        },
        _ => {},
    }
}

/// Any budget of at least `toks.len() + 1` gives [`spec_parse_loop`] the
/// canonical outcome, and the loop never grows the remainder.
pub proof fn lemma_parse_loop_fuel(left: SpecExpr, toks: Seq<SpecToken>, min_bp: int, fuel: nat)
    requires
        fuel >= toks.len() + 1,
    ensures
        spec_parse_loop(left, toks, min_bp, fuel) == spec_parse_loop(
            left,
            toks,
            min_bp,
            canon_fuel(toks),
        ),
        spec_parse_loop(left, toks, min_bp, fuel) matches Ok((e, rem)) ==> rem.len()
            <= toks.len(),
    decreases toks.len(), 0int,
{
    if toks.len() == 0 {
        return ;
    }
    if toks[0] == SpecToken::CloseParen {
        return ;
    }
    if spec_is_binop(toks[0]) && spec_binding_power(toks[0]) > min_bp {
        let op = toks[0];
        let rest = toks.skip(1);
        assert(rest.len() == toks.len() - 1);
        let f2 = (fuel - 1) as nat;
        let c2 = (canon_fuel(toks) - 1) as nat;
        lemma_parse_expr_fuel(rest, spec_binding_power(op), f2);
        lemma_parse_expr_fuel(rest, spec_binding_power(op), c2);
        if let Ok((right, rem)) = spec_parse_expr(rest, spec_binding_power(op), canon_fuel(rest)) {
            let folded = SpecExpr::Binary {
                left: Box::new(left),
                operator: op,
                right: Box::new(right),
            };
            lemma_parse_loop_fuel(folded, rem, min_bp, f2);
            lemma_parse_loop_fuel(folded, rem, min_bp, c2);
        }
    }
}

/// The Pratt parser: a forward-only cursor over the token list and the two
/// parselet registries, populated at construction and read-only afterwards.
pub struct Parser {
    pub tokens: Vec<Token>,
    pub pos: usize,
    pub prefix_parselets: Vec<(TokenType, PrefixParselet)>,
    pub infix_parselets: Vec<(TokenType, InfixParselet)>,
}

impl Parser {
    /// The tokens not yet consumed, as mathematical values.
    pub open spec fn remaining(self) -> Seq<SpecToken> {
        views_of(self.tokens@).skip(self.pos as int)
    }

    /// The registries hold exactly the default registrations: every operand
    /// and prefix operator has its prefix handler, every binary operator its
    /// infix handler with its binding power, and no other token type has a
    /// handler in either registry.
    pub open spec fn wf_registries(self) -> bool {
        &&& reg_lookup(self.prefix_parselets@, TokenType::Name) == Some(
            PrefixParselet::Name(NameParselet { binding_power: PREFIX_BP }),
        )
        &&& reg_lookup(self.prefix_parselets@, TokenType::IntLit) == Some(
            PrefixParselet::IntLit(IntLitParselet { binding_power: PREFIX_BP }),
        )
        &&& reg_lookup(self.prefix_parselets@, TokenType::Bang) == Some(
            PrefixParselet::PrefixOp(PrefixOpParselet { binding_power: PREFIX_BP }),
        )
        &&& reg_lookup(self.prefix_parselets@, TokenType::Tilde) == Some(
            PrefixParselet::PrefixOp(PrefixOpParselet { binding_power: PREFIX_BP }),
        )
        &&& reg_lookup(self.prefix_parselets@, TokenType::Minus) == Some(
            PrefixParselet::PrefixOp(PrefixOpParselet { binding_power: PREFIX_BP }),
        )
        &&& reg_lookup(self.prefix_parselets@, TokenType::Plus) == Some(
            PrefixParselet::PrefixOp(PrefixOpParselet { binding_power: PREFIX_BP }),
        )
        &&& reg_lookup(self.prefix_parselets@, TokenType::Slash) == None::<PrefixParselet>
        &&& reg_lookup(self.prefix_parselets@, TokenType::Star) == None::<PrefixParselet>
        &&& reg_lookup(self.prefix_parselets@, TokenType::Caret) == None::<PrefixParselet>
        &&& reg_lookup(self.prefix_parselets@, TokenType::OpenParen) == None::<PrefixParselet>
        &&& reg_lookup(self.prefix_parselets@, TokenType::CloseParen) == None::<PrefixParselet>
        &&& reg_lookup(self.infix_parselets@, TokenType::Plus) == Some(
            InfixParselet::Op(InfixOpParselet { binding_power: SUM_BP }),
        )
        &&& reg_lookup(self.infix_parselets@, TokenType::Minus) == Some(
            InfixParselet::Op(InfixOpParselet { binding_power: SUM_BP }),
        )
        &&& reg_lookup(self.infix_parselets@, TokenType::Slash) == Some(
            InfixParselet::Op(InfixOpParselet { binding_power: PRODUCT_BP }),
        )
        &&& reg_lookup(self.infix_parselets@, TokenType::Star) == Some(
            InfixParselet::Op(InfixOpParselet { binding_power: PRODUCT_BP }),
        )
        &&& reg_lookup(self.infix_parselets@, TokenType::Caret) == Some(
            InfixParselet::Op(InfixOpParselet { binding_power: CARET_BP }),
        )
        &&& reg_lookup(self.infix_parselets@, TokenType::Name) == None::<InfixParselet>
        &&& reg_lookup(self.infix_parselets@, TokenType::IntLit) == None::<InfixParselet>
        &&& reg_lookup(self.infix_parselets@, TokenType::Tilde) == None::<InfixParselet>
        &&& reg_lookup(self.infix_parselets@, TokenType::Bang) == None::<InfixParselet>
        &&& reg_lookup(self.infix_parselets@, TokenType::OpenParen) == None::<InfixParselet>
        &&& reg_lookup(self.infix_parselets@, TokenType::CloseParen) == None::<InfixParselet>
    }

    /// The cursor is in range and the registries are the default ones.
    pub open spec fn wf(self) -> bool {
        &&& self.pos <= self.tokens@.len()
        &&& self.wf_registries()
    }

    /// Builds a parser over the token list with the default registrations:
    /// names, literals and the four prefix operators in the prefix registry,
    /// the five binary operators in the infix registry.
    pub fn new(tokens: Vec<Token>) -> (p: Parser)
        ensures
            p.wf(),
            p.pos == 0,
            p.tokens@ == tokens@,
            p.remaining() == views_of(tokens@),
    {
        let ghost toks = tokens@;
        let mut parser = Parser {
            tokens,
            pos: 0,
            prefix_parselets: Vec::new(),
            infix_parselets: Vec::new(),
        };
        let ghost pp0 = parser.prefix_parselets@;
        parser.reg_prefix_parselet(TokenType::Name, PrefixParselet::Name(NameParselet::new(PREFIX_BP)));
        let ghost pp1 = parser.prefix_parselets@;
        parser.reg_prefix_parselet(TokenType::IntLit, PrefixParselet::IntLit(IntLitParselet::new(PREFIX_BP)));
        let ghost pp2 = parser.prefix_parselets@;
        parser.reg_prefix_parselet(TokenType::Bang, PrefixParselet::PrefixOp(PrefixOpParselet::new(PREFIX_BP)));
        let ghost pp3 = parser.prefix_parselets@;
        parser.reg_prefix_parselet(TokenType::Tilde, PrefixParselet::PrefixOp(PrefixOpParselet::new(PREFIX_BP)));
        let ghost pp4 = parser.prefix_parselets@;
        parser.reg_prefix_parselet(TokenType::Minus, PrefixParselet::PrefixOp(PrefixOpParselet::new(PREFIX_BP)));
        let ghost pp5 = parser.prefix_parselets@;
        parser.reg_prefix_parselet(TokenType::Plus, PrefixParselet::PrefixOp(PrefixOpParselet::new(PREFIX_BP)));

        let ghost ip0 = parser.infix_parselets@;
        parser.reg_infix_parselet(TokenType::Plus, InfixParselet::Op(InfixOpParselet::new(SUM_BP)));
        let ghost ip1 = parser.infix_parselets@;
        parser.reg_infix_parselet(TokenType::Minus, InfixParselet::Op(InfixOpParselet::new(SUM_BP)));
        let ghost ip2 = parser.infix_parselets@;
        parser.reg_infix_parselet(TokenType::Slash, InfixParselet::Op(InfixOpParselet::new(PRODUCT_BP)));
        let ghost ip3 = parser.infix_parselets@;
        parser.reg_infix_parselet(TokenType::Star, InfixParselet::Op(InfixOpParselet::new(PRODUCT_BP)));
        let ghost ip4 = parser.infix_parselets@;
        parser.reg_infix_parselet(TokenType::Caret, InfixParselet::Op(InfixOpParselet::new(CARET_BP)));

        proof {
            crate::parselet::lemma_reg_lookup_empty::<PrefixParselet>();
            crate::parselet::lemma_reg_lookup_push(pp0, TokenType::Name, PrefixParselet::Name(NameParselet { binding_power: PREFIX_BP }));
            crate::parselet::lemma_reg_lookup_push(pp1, TokenType::IntLit, PrefixParselet::IntLit(IntLitParselet { binding_power: PREFIX_BP }));
            crate::parselet::lemma_reg_lookup_push(pp2, TokenType::Bang, PrefixParselet::PrefixOp(PrefixOpParselet { binding_power: PREFIX_BP }));
            crate::parselet::lemma_reg_lookup_push(pp3, TokenType::Tilde, PrefixParselet::PrefixOp(PrefixOpParselet { binding_power: PREFIX_BP }));
            crate::parselet::lemma_reg_lookup_push(pp4, TokenType::Minus, PrefixParselet::PrefixOp(PrefixOpParselet { binding_power: PREFIX_BP }));
            crate::parselet::lemma_reg_lookup_push(pp5, TokenType::Plus, PrefixParselet::PrefixOp(PrefixOpParselet { binding_power: PREFIX_BP }));
            crate::parselet::lemma_reg_lookup_empty::<InfixParselet>();
            crate::parselet::lemma_reg_lookup_push(ip0, TokenType::Plus, InfixParselet::Op(InfixOpParselet { binding_power: SUM_BP }));
            crate::parselet::lemma_reg_lookup_push(ip1, TokenType::Minus, InfixParselet::Op(InfixOpParselet { binding_power: SUM_BP }));
            crate::parselet::lemma_reg_lookup_push(ip2, TokenType::Slash, InfixParselet::Op(InfixOpParselet { binding_power: PRODUCT_BP }));
            crate::parselet::lemma_reg_lookup_push(ip3, TokenType::Star, InfixParselet::Op(InfixOpParselet { binding_power: PRODUCT_BP }));
            crate::parselet::lemma_reg_lookup_push(ip4, TokenType::Caret, InfixParselet::Op(InfixOpParselet { binding_power: CARET_BP }));
            assert(parser.remaining() =~= views_of(toks));
        }
        parser
    }

    /// Registers (or overwrites) the prefix-position handler for a token
    /// type.
    pub fn reg_prefix_parselet(&mut self, token_type: TokenType, parselet: PrefixParselet)
        ensures
            final(self).prefix_parselets@ == old(self).prefix_parselets@.push(
                (token_type, parselet),
            ),
            final(self).infix_parselets@ == old(self).infix_parselets@,
            final(self).tokens@ == old(self).tokens@,
            final(self).pos == old(self).pos,
    {
        self.prefix_parselets.push((token_type, parselet));
    }

    /// Registers (or overwrites) the infix-position handler for a token
    /// type.
    pub fn reg_infix_parselet(&mut self, token_type: TokenType, parselet: InfixParselet)
        ensures
            final(self).infix_parselets@ == old(self).infix_parselets@.push(
                (token_type, parselet),
            ),
            final(self).prefix_parselets@ == old(self).prefix_parselets@,
            final(self).tokens@ == old(self).tokens@,
            final(self).pos == old(self).pos,
    {
        self.infix_parselets.push((token_type, parselet));
    }

    /// Parses exactly one complete expression from the start of the token
    /// stream: the result and the tokens left over are exactly what
    /// [`spec_parse`] names.
    pub fn parse(&mut self) -> (r: Result<Expression, ParseError>)
        requires
            old(self).wf(),
        ensures
            final(self).wf(),
            final(self).tokens@ == old(self).tokens@,
            final(self).prefix_parselets@ == old(self).prefix_parselets@,
            final(self).infix_parselets@ == old(self).infix_parselets@,
            match spec_parse(old(self).remaining()) {
                Ok((e, rem)) => r matches Ok(x) && x@ == e && final(self).remaining() == rem,
                Err(pe) => r == Err::<Expression, ParseError>(pe),
            },
    {
        self.parse_expression(0)
    }

    /// The core recursive operation, with an explicit minimum binding
    /// power.
    pub fn parse_expression(&mut self, binding_power: i32) -> (r: Result<Expression, ParseError>)
        requires
            old(self).wf(),
        ensures
            final(self).wf(),
            final(self).tokens@ == old(self).tokens@,
            final(self).prefix_parselets@ == old(self).prefix_parselets@,
            final(self).infix_parselets@ == old(self).infix_parselets@,
            match spec_parse_expr(
                old(self).remaining(),
                binding_power as int,
                canon_fuel(old(self).remaining()),
            ) {
                Ok((e, rem)) => r matches Ok(x) && x@ == e && final(self).remaining() == rem,
                Err(pe) => r == Err::<Expression, ParseError>(pe),
            },
    {
        let (r, newpos) = parse_expr_at(self, self.pos, binding_power);
        self.pos = newpos;
        r
    }
}

/// One call of the engine at a cursor position: returns the outcome and the
/// new cursor.  Implements [`spec_parse_expr`] at the canonical recursion
/// budget over the tokens from `pos` on.
fn parse_expr_at(p: &Parser, pos: usize, min_bp: i32) -> (res: (
    Result<Expression, ParseError>,
    usize,
))
    requires
        p.wf_registries(),
        pos <= p.tokens@.len(),
    ensures
        pos <= res.1 <= p.tokens@.len(),
        ({
            let toks = views_of(p.tokens@).skip(pos as int);
            match spec_parse_expr(toks, min_bp as int, canon_fuel(toks)) {
                Ok((e, rem)) => res.0 matches Ok(x) && x@ == e && views_of(p.tokens@).skip(
                    res.1 as int,
                ) == rem,
                Err(pe) => res.0 == Err::<Expression, ParseError>(pe),
            }
        }),
    decreases p.tokens@.len() - pos,
{
    let ghost toks = views_of(p.tokens@).skip(pos as int);
    let n = p.tokens.len();
    if pos >= n {
        return (Err(ParseError::UnexpectedEndOfInput), pos);
    }
    proof {
        assert(toks[0] == p.tokens@[pos as int]@);
        assert(toks.skip(1) =~= views_of(p.tokens@).skip(pos as int + 1));
        assert(canon_fuel(toks) - 1 == canon_fuel(toks.skip(1)));
    }
    let first = &p.tokens[pos];
    let mut cur: usize = pos + 1;
    let mut left: Expression;
    match first {
        Token::OpenParen => {
            let (r0, np) = parse_expr_at(p, cur, 0);
            proof {
                lemma_parse_expr_fuel(toks.skip(1), 0, canon_fuel(toks.skip(1)));
            }
            match r0 {
                Err(e) => {
                    return (Err(e), np);
                },
                Ok(x) => {
                    proof {
                        let (e0, rem0) = spec_parse_expr(
                            toks.skip(1),
                            0,
                            canon_fuel(toks.skip(1)),
                        )->Ok_0;
                        lemma_parse_loop_fuel(e0, rem0, min_bp as int, (canon_fuel(toks) - 1) as nat);
                    }
                    left = x;
                    cur = np;
                },
            }
        },
        _ => {
            let tt = first.get_type();
            match reg_find(&p.prefix_parselets, tt) {
                None => {
                    return (Err(ParseError::MissingPrefixHandler), cur);
                },
                Some(PrefixParselet::Name(_)) => {
                    let tok = first.clone();
                    match NameExpression::new(tok) {
                        Ok(ne) => {
                            left = Expression::Name(ne);
                            proof {
                                lemma_parse_loop_fuel(
                                    left@,
                                    toks.skip(1),
                                    min_bp as int,
                                    (canon_fuel(toks) - 1) as nat,
                                );
                            }
                        },
                        Err(e) => {
                            // Unreachable: the name handler is only ever
                            // registered under the name token type.
                            proof {
                                assert(false);
                            }
                            return (Err(e), cur);
                        },
                    }
                },
                Some(PrefixParselet::IntLit(_)) => {
                    let tok = first.clone();
                    match IntLitExpression::new(tok) {
                        Ok(ie) => {
                            left = Expression::IntLit(ie);
                            proof {
                                lemma_parse_loop_fuel(
                                    left@,
                                    toks.skip(1),
                                    min_bp as int,
                                    (canon_fuel(toks) - 1) as nat,
                                );
                            }
                        },
                        Err(e) => {
                            // Unreachable: the literal handler is only ever
                            // registered under the literal token type.
                            proof {
                                assert(false);
                            }
                            return (Err(e), cur);
                        },
                    }
                },
                Some(PrefixParselet::PrefixOp(pp)) => {
                    let (r0, np) = parse_expr_at(p, cur, pp.binding_power);
                    proof {
                        lemma_parse_expr_fuel(
                            toks.skip(1),
                            PREFIX_BP as int,
                            canon_fuel(toks.skip(1)),
                        );
                    }
                    match r0 {
                        Err(e) => {
                            return (Err(e), np);
                        },
                        Ok(operand) => {
                            let tok = first.clone();
                            left = Expression::Prefix(
                                PrefixExpression::new(tok, Box::new(operand)),
                            );
                            cur = np;
                            proof {
                                let (e0, rem0) = spec_parse_expr(
                                    toks.skip(1),
                                    PREFIX_BP as int,
                                    canon_fuel(toks.skip(1)),
                                )->Ok_0;
                                lemma_parse_loop_fuel(
                                    left@,
                                    rem0,
                                    min_bp as int,
                                    (canon_fuel(toks) - 1) as nat,
                                );
                            }
                        },
                    }
                },
            }
        },
    }
    loop
        invariant
            p.wf_registries(),
            n == p.tokens@.len(),
            pos < cur <= n,
            toks == views_of(p.tokens@).skip(pos as int),
            spec_parse_loop(
                left@,
                views_of(p.tokens@).skip(cur as int),
                min_bp as int,
                canon_fuel(views_of(p.tokens@).skip(cur as int)),
            ) == spec_parse_expr(toks, min_bp as int, canon_fuel(toks)),
        decreases n - cur,
    {
        let ghost rem_cur = views_of(p.tokens@).skip(cur as int);
        if cur >= n {
            proof {
                assert(rem_cur.len() == 0);
            }
            return (Ok(left), cur);
        }
        proof {
            assert(rem_cur[0] == p.tokens@[cur as int]@);
            assert(rem_cur.skip(1) =~= views_of(p.tokens@).skip(cur as int + 1));
        }
        let next = &p.tokens[cur];
        let mut is_close = false;
        match next {
            Token::CloseParen => {
                is_close = true;
            },
            _ => {},
        }
        if is_close {
            return (Ok(left), cur + 1);
        }
        if next.is_binop() && next.get_binding_power() > min_bp {
            let op = next.clone();
            cur = cur + 1;
            let itt = op.get_type();
            match reg_find(&p.infix_parselets, itt) {
                None => {
                    // Defensive, and unreachable here: the default
                    // registrations give every binary operator an infix
                    // handler.
                    proof {
                        assert(false);
                    }
                    return (Err(ParseError::MissingInfixHandler), cur);
                },
                Some(InfixParselet::Op(ip)) => {
                    proof {
                        assert(ip.binding_power as int == spec_binding_power(op@));
                        assert(canon_fuel(rem_cur) - 1 == canon_fuel(rem_cur.skip(1)));
                    }
                    let (r0, np) = parse_expr_at(p, cur, ip.binding_power);
                    proof {
                        lemma_parse_expr_fuel(
                            rem_cur.skip(1),
                            spec_binding_power(op@),
                            canon_fuel(rem_cur.skip(1)),
                        );
                    }
                    match r0 {
                        Err(e) => {
                            return (Err(e), np);
                        },
                        Ok(right) => {
                            left = Expression::Binary(
                                BinaryExpression::new(Box::new(left), Box::new(right), op),
                            );
                            cur = np;
                            proof {
                                let (r0s, rem2) = spec_parse_expr(
                                    rem_cur.skip(1),
                                    spec_binding_power(op@),
                                    canon_fuel(rem_cur.skip(1)),
                                )->Ok_0;
                                lemma_parse_loop_fuel(
                                    left@,
                                    rem2,
                                    min_bp as int,
                                    (canon_fuel(rem_cur) - 1) as nat,
                                );
                            }
                        },
                    }
                },
            }
        } else {
            return (Ok(left), cur);
        }
    }
}

}
