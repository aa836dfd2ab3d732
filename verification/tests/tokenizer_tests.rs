use pratt::error::ParseError;
use pratt::token::Token;
use pratt::tokenizer::tokenize;

fn toks(text: &str) -> Vec<Token> {
    let mut tokens: Vec<Token> = vec![];
    tokenize(&mut tokens, text).expect("tokenizing should succeed");
    tokens
}

#[test]
fn tokenize_simple_sum() {
    assert_eq!(
        toks("1+2"),
        vec![Token::IntLit(1), Token::Plus, Token::IntLit(2)]
    );
}

#[test]
fn whitespace_insensitivity() {
    assert_eq!(toks("1+2"), toks("1 + 2"));
    assert_eq!(
        toks("1 + 2"),
        vec![Token::IntLit(1), Token::Plus, Token::IntLit(2)]
    );
}

#[test]
fn name_absorption() {
    assert_eq!(toks("ab12"), vec![Token::Name(String::from("ab12"))]);
}

#[test]
fn int_then_name_splits() {
    assert_eq!(
        toks("12ab"),
        vec![Token::IntLit(12), Token::Name(String::from("ab"))]
    );
}

#[test]
fn literal_round_trip_samples() {
    assert_eq!(toks("0"), vec![Token::IntLit(0)]);
    assert_eq!(toks("7"), vec![Token::IntLit(7)]);
    assert_eq!(toks("1048576"), vec![Token::IntLit(1048576)]);
    assert_eq!(toks("2147483647"), vec![Token::IntLit(2147483647)]);
}

#[test]
fn leading_zeros_are_value_based() {
    assert_eq!(toks("007"), vec![Token::IntLit(7)]);
}

#[test]
fn overflow_is_fatal() {
    let mut tokens: Vec<Token> = vec![];
    assert_eq!(
        tokenize(&mut tokens, "2147483648"),
        Err(ParseError::IntegerOverflow)
    );
    let mut tokens: Vec<Token> = vec![];
    assert_eq!(
        tokenize(&mut tokens, "99999999999999999999"),
        Err(ParseError::IntegerOverflow)
    );
    let mut tokens: Vec<Token> = vec![];
    assert_eq!(
        tokenize(&mut tokens, "1+2147483648"),
        Err(ParseError::IntegerOverflow)
    );
}

#[test]
fn max_plus_digit_in_name_is_fine() {
    // The digits after the name are absorbed into it, so no overflow occurs.
    assert_eq!(
        toks("a2147483648"),
        vec![Token::Name(String::from("a2147483648"))]
    );
}

#[test]
fn all_operator_symbols() {
    assert_eq!(
        toks("+-/*!~()^"),
        vec![
            Token::Plus,
            Token::Minus,
            Token::Slash,
            Token::Star,
            Token::Bang,
            Token::Tilde,
            Token::OpenParen,
            Token::CloseParen,
            Token::Caret,
        ]
    );
}

#[test]
fn newline_flushes_like_space() {
    assert_eq!(toks("1\n2"), vec![Token::IntLit(1), Token::IntLit(2)]);
    assert_eq!(toks("ab\ncd"), vec![
        Token::Name(String::from("ab")),
        Token::Name(String::from("cd")),
    ]);
}

#[test]
fn empty_input_gives_no_tokens() {
    assert_eq!(toks(""), Vec::<Token>::new());
}

#[test]
fn operators_flush_accumulators() {
    assert_eq!(
        toks("ab12+34cd"),
        vec![
            Token::Name(String::from("ab12")),
            Token::Plus,
            Token::IntLit(34),
            Token::Name(String::from("cd")),
        ]
    );
}

#[test]
fn tokenize_appends_to_existing_tokens() {
    let mut tokens: Vec<Token> = vec![Token::Bang];
    tokenize(&mut tokens, "5").expect("tokenizing should succeed");
    assert_eq!(tokens, vec![Token::Bang, Token::IntLit(5)]);
}

#[test]
fn token_metadata() {
    assert!(Token::Plus.is_binop());
    assert!(Token::Caret.is_binop());
    assert!(!Token::Bang.is_binop());
    assert!(!Token::OpenParen.is_binop());
    assert!(!Token::IntLit(3).is_binop());
    assert_eq!(Token::Plus.get_binding_power(), 10);
    assert_eq!(Token::Minus.get_binding_power(), 10);
    assert_eq!(Token::Star.get_binding_power(), 20);
    assert_eq!(Token::Slash.get_binding_power(), 20);
    assert_eq!(Token::Caret.get_binding_power(), 30);
    assert_eq!(Token::Tilde.get_binding_power(), 0);
    assert_eq!(Token::Plus.get_repr(), "+");
    assert_eq!(Token::Name(String::from("xy")).get_repr(), "xy");
    assert_eq!(Token::IntLit(42).get_repr(), "42");
    assert_eq!(Token::IntLit(-42).get_repr(), "-42");
}
