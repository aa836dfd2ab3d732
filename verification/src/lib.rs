//! An expression-parsing front end: a character-level tokenizer feeding a
//! precedence-climbing (Pratt) parser with an extensible operator registry.
//!
//! The tokenizer turns a character sequence into a list of [`token::Token`]s;
//! the parser consumes that list and builds one [`ast::Expression`] tree that
//! reflects operator precedence, associativity, and unary/binary
//! disambiguation.  Every step is specified against a mathematical model:
//! tokens as [`token::SpecToken`], trees as [`ast::SpecExpr`], and the two
//! algorithms as recursive spec functions that the executable code is proved
//! to implement.

pub mod error;
pub mod text;
pub mod ast;
pub mod parselet;
pub mod parser;
pub mod token;
pub mod tokenizer;
