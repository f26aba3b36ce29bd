use rlox::scanner::{Scanner, Token, TokenType};

fn token_sequence_test(scanner: &mut Scanner, tokens: Vec<Token>) {
    for token in tokens {
        assert_eq!(scanner.next(), Some(token));
    }
    assert_eq!(scanner.next(), None);
}

#[test]
fn scanner_scanner_can_recognize_single_token() {
    let mut scanner = Scanner::new("=");
    token_sequence_test(&mut scanner, vec![Token::from_type(TokenType::Equal)]);
}

#[test]
fn scanner_scanner_can_recognize_multiple_tokens() {
    let mut scanner = Scanner::new("><");
    token_sequence_test(
        &mut scanner,
        vec![
            Token::from_type(TokenType::Greater),
            Token::from_type(TokenType::Less),
        ],
    )
}

#[test]
fn scanner_scanner_can_skip_whitespace() {
    let mut scanner = Scanner::new("! !");
    token_sequence_test(
        &mut scanner,
        vec![
            Token::from_type(TokenType::Bang),
            Token::from_type(TokenType::Bang),
        ],
    );
}

#[test]
fn scanner_scanner_can_recognize_all_simple_tokens() {
    let mut scanner = Scanner::new(">= <= > < = == - + * ! . , ; () {}");
    token_sequence_test(
        &mut scanner,
        vec![
            Token::from_type(TokenType::GreaterEqual),
            Token::from_type(TokenType::LessEqual),
            Token::from_type(TokenType::Greater),
            Token::from_type(TokenType::Less),
            Token::from_type(TokenType::Equal),
            Token::from_type(TokenType::EqualEqual),
            Token::from_type(TokenType::Minus),
            Token::from_type(TokenType::Plus),
            Token::from_type(TokenType::Star),
            Token::from_type(TokenType::Bang),
            Token::from_type(TokenType::Dot),
            Token::from_type(TokenType::Comma),
            Token::from_type(TokenType::Semicolon),
            Token::from_type(TokenType::LeftParen),
            Token::from_type(TokenType::RightParen),
            Token::from_type(TokenType::LeftBrace),
            Token::from_type(TokenType::RightBrace),
        ],
    );
}

#[test]
fn scanner_scanner_can_recognize_string_literal() {
    let mut scanner = Scanner::new("\"hello\"");
    token_sequence_test(&mut scanner, vec![Token::new(TokenType::Str, "hello")]);
}

#[test]
fn scanner_scanner_can_recognize_identifier() {
    let mut scanner = Scanner::new("id");
    token_sequence_test(&mut scanner, vec![Token::new(TokenType::Identifier, "id")]);
}

#[test]
fn scanner_scanner_can_recognize_true() {
    let mut scanner = Scanner::new("true");
    token_sequence_test(&mut scanner, vec![Token::from_type(TokenType::True)]);
}

#[test]
fn scanner_scanner_can_recognize_super() {
    let mut scanner = Scanner::new("super");
    token_sequence_test(&mut scanner, vec![Token::from_type(TokenType::Super)]);
}

#[test]
fn scanner_scanner_does_not_recognize_super_inside_superb() {
    let mut scanner = Scanner::new("superb");
    token_sequence_test(
        &mut scanner,
        vec![Token::new(TokenType::Identifier, "superb")],
    );
}

#[test]
fn scanner_scanner_can_recognize_all_keywords() {
    let mut scanner = Scanner::new(
        "and class else false fun for if nil or print return super this true var while",
    );
    token_sequence_test(
        &mut scanner,
        vec![
            Token::from_type(TokenType::And),
            Token::from_type(TokenType::Class),
            Token::from_type(TokenType::Else),
            Token::from_type(TokenType::False),
            Token::from_type(TokenType::Fun),
            Token::from_type(TokenType::For),
            Token::from_type(TokenType::If),
            Token::from_type(TokenType::Nil),
            Token::from_type(TokenType::Or),
            Token::from_type(TokenType::Print),
            Token::from_type(TokenType::Return),
            Token::from_type(TokenType::Super),
            Token::from_type(TokenType::This),
            Token::from_type(TokenType::True),
            Token::from_type(TokenType::Var),
            Token::from_type(TokenType::While),
        ],
    )
}

#[test]
fn scanner_scanner_can_recognize_numbers() {
    let mut scanner = Scanner::new("12345");
    token_sequence_test(&mut scanner, vec![Token::new(TokenType::Number, "12345")]);
}

#[test]
fn scanner_scanner_can_recognize_floating_point_numbers() {
    let mut scanner = Scanner::new("987.654");
    token_sequence_test(&mut scanner, vec![Token::new(TokenType::Number, "987.654")]);
}
