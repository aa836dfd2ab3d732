//! Parselets: per-token-type handlers, each configured with a fixed binding
//! power, and the registries that map a token type to its handler.  A
//! registry is a list of registrations; the most recent registration for a
//! token type wins, so registering again overwrites.

use crate::token::TokenType;
use vstd::prelude::*;

verus! {

/// Handler for a bare name in prefix position: wraps the token into a name
/// node, no recursion.
#[derive(Clone, Copy, Debug, PartialEq, Eq, Structural)]
pub struct NameParselet {
    pub binding_power: i32,
}

impl NameParselet {
    pub fn new(binding_power: i32) -> (r: NameParselet)
        ensures
            r.binding_power == binding_power,
    {
        NameParselet { binding_power }
    }
}

/// Handler for an integer literal in prefix position: wraps the token into a
/// literal node, no recursion.
#[derive(Clone, Copy, Debug, PartialEq, Eq, Structural)]
pub struct IntLitParselet {
    pub binding_power: i32,
}

impl IntLitParselet {
    pub fn new(binding_power: i32) -> (r: IntLitParselet)
        ensures
            r.binding_power == binding_power,
    {
        IntLitParselet { binding_power }
    }
}

/// Handler for a unary operator in prefix position: parses its operand with
/// the configured binding power as the new minimum.
#[derive(Clone, Copy, Debug, PartialEq, Eq, Structural)]
pub struct PrefixOpParselet {
    pub binding_power: i32,
}

impl PrefixOpParselet {
    pub fn new(binding_power: i32) -> (r: PrefixOpParselet)
        ensures
            r.binding_power == binding_power,
    {
        PrefixOpParselet { binding_power }
    }
}

/// Handler for a binary operator in infix position: parses the right operand
/// with the configured binding power as the new minimum.
#[derive(Clone, Copy, Debug, PartialEq, Eq, Structural)]
pub struct InfixOpParselet {
    pub binding_power: i32,
}

impl InfixOpParselet {
    pub fn new(binding_power: i32) -> (r: InfixOpParselet)
        ensures
            r.binding_power == binding_power,
    {
        InfixOpParselet { binding_power }
    }
}

/// A prefix-position handler: one of the closed set of handler kinds.
#[derive(Clone, Copy, Debug, PartialEq, Eq, Structural)]
pub enum PrefixParselet {
    Name(NameParselet),
    IntLit(IntLitParselet),
    PrefixOp(PrefixOpParselet),
}

/// An infix-position handler.
#[derive(Clone, Copy, Debug, PartialEq, Eq, Structural)]
pub enum InfixParselet {
    Op(InfixOpParselet),
}

/// The handler a registry holds for a token type: the most recent
/// registration for that type, if there is one.
pub open spec fn reg_lookup<P>(entries: Seq<(TokenType, P)>, tt: TokenType) -> Option<P>
    decreases entries.len(),
{
    if entries.len() == 0 {
        None
    } else if entries.last().0 == tt {
        Some(entries.last().1)
    } else {
        reg_lookup(entries.drop_last(), tt)
    }
}

/// Registering a handler makes it the one found for its token type and
/// changes no other lookup.
pub proof fn lemma_reg_lookup_push<P>(entries: Seq<(TokenType, P)>, tt: TokenType, p: P)
    ensures
        reg_lookup(entries.push((tt, p)), tt) == Some(p),
        forall|tt2: TokenType|
            tt2 != tt ==> #[trigger] reg_lookup(entries.push((tt, p)), tt2) == reg_lookup(
                entries,
                tt2,
            ),
{
    assert(entries.push((tt, p)).last() == (tt, p));
    assert(entries.push((tt, p)).drop_last() =~= entries);
}

/// An empty registry holds no handler.
pub proof fn lemma_reg_lookup_empty<P>()
    ensures
        forall|tt: TokenType| #[trigger]
            reg_lookup(Seq::<(TokenType, P)>::empty(), tt) == None::<P>,
{
}

/// Finds the handler for a token type: the most recent registration wins.
pub fn reg_find<P: Copy>(entries: &Vec<(TokenType, P)>, tt: TokenType) -> (r: Option<P>)
    ensures
        r == reg_lookup(entries@, tt),
{
    let mut i: usize = entries.len();
    proof {
        assert(entries@.take(entries@.len() as int) =~= entries@);
    }
    while i > 0
        invariant
            0 <= i <= entries@.len(),
            reg_lookup(entries@, tt) == reg_lookup(entries@.take(i as int), tt),
        decreases i,
    {
        i = i - 1;
        let e = entries[i];
        proof {
            assert(entries@.take(i as int + 1).last() == entries@[i as int]);
            assert(entries@.take(i as int + 1).drop_last() =~= entries@.take(i as int));
        }
        if e.0 == tt {
            return Some(e.1);
        }
    }
    proof {
        assert(entries@.take(0) =~= Seq::<(TokenType, P)>::empty());
    }
    None
}

}
