use pratt::ast::{Expression, IntLitExpression};
use pratt::error::ParseError;
use pratt::parser::Parser;
use pratt::token::Token;
use pratt::tokenizer::tokenize;

fn parse_text(text: &str) -> Result<Expression, ParseError> {
    let mut tokens: Vec<Token> = vec![];
    tokenize(&mut tokens, text)?;
    let mut parser = Parser::new(tokens);
    parser.parse()
}

#[test]
fn render_name() {
    let e = parse_text("foo").unwrap();
    assert_eq!(e.render(), "(name: \"foo\")");
}

#[test]
fn render_int() {
    let e = parse_text("42").unwrap();
    assert_eq!(e.render(), "(int: 42)");
}

#[test]
fn render_negative_int() {
    let node = Expression::IntLit(IntLitExpression::new(Token::IntLit(-5)).unwrap());
    assert_eq!(node.render(), "(int: -5)");
}

#[test]
fn render_prefix() {
    let e = parse_text("-1").unwrap();
    assert_eq!(e.render(), "(operator: \"-\", operand: (int: 1))");
}

#[test]
fn render_binary_uses_token_debug_form() {
    let e = parse_text("1+2").unwrap();
    assert_eq!(
        e.render(),
        "(left operand: ((int: 1)), operator: Plus, right operand: ((int: 2)))"
    );
}

#[test]
fn render_nested_tree() {
    let e = parse_text("(1+2)*3").unwrap();
    assert_eq!(
        e.render(),
        "(left operand: ((left operand: ((int: 1)), operator: Plus, right operand: ((int: 2)))), \
         operator: Star, right operand: ((int: 3)))"
    );
}

#[test]
fn render_is_idempotent() {
    // Rendering is a pure function of the tree: the same tree renders to the
    // same text however often it is rendered.
    let e = parse_text("1+2*ab").unwrap();
    let first = e.render();
    let second = e.render();
    assert_eq!(first, second);
}

#[test]
fn token_debug_forms() {
    assert_eq!(Token::Plus.get_debug(), "Plus");
    assert_eq!(Token::Caret.get_debug(), "Caret");
    assert_eq!(Token::OpenParen.get_debug(), "OpenParen");
    assert_eq!(Token::Name(String::from("ab")).get_debug(), "Name(\"ab\")");
    assert_eq!(Token::IntLit(7).get_debug(), "IntLit(7)");
}
