use pratt::ast::{BinaryExpression, Expression, IntLitExpression, NameExpression,
    PrefixExpression};
use pratt::error::ParseError;
use pratt::parselet::{InfixOpParselet, InfixParselet, IntLitParselet, NameParselet,
    PrefixOpParselet, PrefixParselet};
use pratt::parser::Parser;
use pratt::token::{Token, TokenType};
use pratt::tokenizer::tokenize;

fn parse_text(text: &str) -> Result<Expression, ParseError> {
    let mut tokens: Vec<Token> = vec![];
    tokenize(&mut tokens, text)?;
    let mut parser = Parser::new(tokens);
    parser.parse()
}

fn intlit(v: i32) -> Expression {
    Expression::IntLit(IntLitExpression { lit: v })
}

fn name(s: &str) -> Expression {
    Expression::Name(NameExpression {
        name: String::from(s),
    })
}

fn binary(left: Expression, op: Token, right: Expression) -> Expression {
    Expression::Binary(BinaryExpression {
        left: Box::new(left),
        right: Box::new(right),
        operator: op,
    })
}

fn prefix(op: &str, operand: Expression) -> Expression {
    Expression::Prefix(PrefixExpression {
        operator: String::from(op),
        operand: Box::new(operand),
    })
}

#[test]
fn left_associativity() {
    // "1-2-3" parses as (1-2)-3.
    assert_eq!(
        parse_text("1-2-3"),
        Ok(binary(
            binary(intlit(1), Token::Minus, intlit(2)),
            Token::Minus,
            intlit(3)
        ))
    );
}

#[test]
fn precedence_product_over_sum() {
    // "1+2*3" parses as 1+(2*3); "1*2+3" parses as (1*2)+3.
    assert_eq!(
        parse_text("1+2*3"),
        Ok(binary(
            intlit(1),
            Token::Plus,
            binary(intlit(2), Token::Star, intlit(3))
        ))
    );
    assert_eq!(
        parse_text("1*2+3"),
        Ok(binary(
            binary(intlit(1), Token::Star, intlit(2)),
            Token::Plus,
            intlit(3)
        ))
    );
}

#[test]
fn parentheses_override_precedence() {
    // "(1+2)*3" multiplies the whole sum by 3.
    assert_eq!(
        parse_text("(1+2)*3"),
        Ok(binary(
            binary(intlit(1), Token::Plus, intlit(2)),
            Token::Star,
            intlit(3)
        ))
    );
}

#[test]
fn unary_binds_tighter_than_binary() {
    // "-1+2" parses as (-1)+2, not -(1+2).
    assert_eq!(
        parse_text("-1+2"),
        Ok(binary(prefix("-", intlit(1)), Token::Plus, intlit(2)))
    );
}

#[test]
fn bare_operator_is_fatal() {
    // A bare "+" is a prefix operator with no operand following.
    assert_eq!(parse_text("+"), Err(ParseError::UnexpectedEndOfInput));
}

#[test]
fn trailing_operator_is_fatal() {
    assert_eq!(parse_text("1+"), Err(ParseError::UnexpectedEndOfInput));
}

#[test]
fn empty_input_is_fatal() {
    assert_eq!(parse_text(""), Err(ParseError::UnexpectedEndOfInput));
}

#[test]
fn leading_binary_operator_is_fatal() {
    // `*` has no prefix registration, so it cannot start an expression.
    assert_eq!(parse_text("*3"), Err(ParseError::MissingPrefixHandler));
    assert_eq!(parse_text("/3"), Err(ParseError::MissingPrefixHandler));
    assert_eq!(parse_text("^3"), Err(ParseError::MissingPrefixHandler));
}

#[test]
fn leading_close_paren_is_fatal() {
    assert_eq!(parse_text(")"), Err(ParseError::MissingPrefixHandler));
}

#[test]
fn overflow_reaches_the_caller() {
    assert_eq!(parse_text("2147483648"), Err(ParseError::IntegerOverflow));
}

#[test]
fn caret_binds_tighter_than_product() {
    // "2^3*4" parses as (2^3)*4.
    assert_eq!(
        parse_text("2^3*4"),
        Ok(binary(
            binary(intlit(2), Token::Caret, intlit(3)),
            Token::Star,
            intlit(4)
        ))
    );
}

#[test]
fn prefix_operator_over_caret() {
    // The prefix operator takes the tightest operand: "-a^b" is (-a)^b.
    assert_eq!(
        parse_text("-a^b"),
        Ok(binary(prefix("-", name("a")), Token::Caret, name("b")))
    );
}

#[test]
fn prefix_chain() {
    assert_eq!(parse_text("!~x"), Ok(prefix("!", prefix("~", name("x")))));
    assert_eq!(parse_text("+5"), Ok(prefix("+", intlit(5))));
}

#[test]
fn nested_parentheses() {
    assert_eq!(parse_text("((1))"), Ok(intlit(1)));
    assert_eq!(
        parse_text("((1+2))*3"),
        Ok(binary(
            binary(intlit(1), Token::Plus, intlit(2)),
            Token::Star,
            intlit(3)
        ))
    );
}

#[test]
fn names_as_operands() {
    assert_eq!(
        parse_text("ab12/cd"),
        Ok(binary(name("ab12"), Token::Slash, name("cd")))
    );
}

#[test]
fn name_expression_rejects_wrong_token() {
    assert_eq!(
        NameExpression::new(Token::Plus),
        Err(ParseError::MalformedTokenForExpression)
    );
    assert_eq!(
        NameExpression::new(Token::Name(String::from("ok"))),
        Ok(NameExpression {
            name: String::from("ok")
        })
    );
}

#[test]
fn int_lit_expression_rejects_wrong_token() {
    assert_eq!(
        IntLitExpression::new(Token::Name(String::from("x"))),
        Err(ParseError::MalformedTokenForExpression)
    );
    assert_eq!(
        IntLitExpression::new(Token::IntLit(9)),
        Ok(IntLitExpression { lit: 9 })
    );
}

#[test]
fn expression_constructors_build_nodes() {
    let p = PrefixExpression::new(Token::Minus, Box::new(intlit(4)));
    assert_eq!(p.operator, "-");
    assert_eq!(*p.operand, intlit(4));
    let b = BinaryExpression::new(Box::new(intlit(1)), Box::new(intlit(2)), Token::Star);
    assert_eq!(*b.left, intlit(1));
    assert_eq!(*b.right, intlit(2));
    assert_eq!(b.operator, Token::Star);
}

#[test]
fn parselet_constructors_keep_binding_power() {
    assert_eq!(NameParselet::new(40).binding_power, 40);
    assert_eq!(IntLitParselet::new(40).binding_power, 40);
    assert_eq!(PrefixOpParselet::new(40).binding_power, 40);
    assert_eq!(InfixOpParselet::new(10).binding_power, 10);
}

#[test]
fn registries_accept_registrations() {
    let mut parser = Parser::new(vec![Token::IntLit(1)]);
    // Re-registering overwrites; the defaults here keep behaviour unchanged.
    parser.reg_prefix_parselet(
        TokenType::Minus,
        PrefixParselet::PrefixOp(PrefixOpParselet::new(40)),
    );
    parser.reg_infix_parselet(TokenType::Minus, InfixParselet::Op(InfixOpParselet::new(10)));
    assert_eq!(parser.parse(), Ok(intlit(1)));
}
