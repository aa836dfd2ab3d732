//! The error taxonomy.  Every error is fatal: the run that meets one stops
//! with no partial result and no recovery.

use vstd::prelude::*;

verus! {

/// Why tokenizing or parsing stopped.
#[derive(Clone, Copy, Debug, PartialEq, Eq, Structural)]
pub enum ParseError {
    /// A token appears where an expression must start but has no registered
    /// prefix behaviour.
    MissingPrefixHandler,
    /// A recognized binary-operator token has no registered infix behaviour
    /// (defensive; the default registrations cover every binary operator).
    MissingInfixHandler,
    /// An accumulated digit run does not fit in a signed 32-bit integer.
    IntegerOverflow,
    /// The token stream ran out while an operand was still required.
    UnexpectedEndOfInput,
    /// An expression-node constructor received a token of the wrong kind
    /// (defensive; indicates an internal contract violation).
    MalformedTokenForExpression,
}

}
