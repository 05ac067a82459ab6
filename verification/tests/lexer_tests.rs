use calculator::lexer::{LexError, Lexer};
use calculator::token::Token;

fn chars(s: &str) -> Vec<char> {
    s.chars().collect()
}

#[test]
fn peek_does_not_consume() {
    let lx = Lexer::new(chars("ab"));
    assert_eq!(lx.char_peek(0), Ok('a'));
    assert_eq!(lx.char_peek(0), Ok('a'));
    assert_eq!(lx.char_peek(1), Ok('b'));
}

#[test]
fn peek_past_end_is_an_error() {
    let lx = Lexer::new(chars("a"));
    assert_eq!(lx.char_peek(1), Err(LexError::UnexpectedEndOfInput));
    let empty = Lexer::new(chars(""));
    assert_eq!(empty.char_peek(0), Err(LexError::UnexpectedEndOfInput));
}

#[test]
fn read_consumes_forward() {
    let mut lx = Lexer::new(chars("ab"));
    assert_eq!(lx.char_read(), Ok('a'));
    assert_eq!(lx.char_read(), Ok('b'));
    assert_eq!(lx.char_read(), Err(LexError::UnexpectedEndOfInput));
}

#[test]
fn tokenize_simple_sum() {
    let mut lx = Lexer::new(chars("1+2"));
    assert_eq!(lx.tokenize(), Ok(Token::Value(chars("1"))));
    assert_eq!(lx.tokenize(), Ok(Token::Add));
    assert_eq!(lx.tokenize(), Ok(Token::Value(chars("2"))));
    assert_eq!(lx.tokenize(), Ok(Token::End));
    // The end marker is a repeatable terminal result, not an error.
    assert_eq!(lx.tokenize(), Ok(Token::End));
}

#[test]
fn tokenize_skips_whitespace() {
    let mut lx = Lexer::new(chars("  7 \t *\n 8 "));
    assert_eq!(lx.tokenize(), Ok(Token::Value(chars("7"))));
    assert_eq!(lx.tokenize(), Ok(Token::Mul));
    assert_eq!(lx.tokenize(), Ok(Token::Value(chars("8"))));
    assert_eq!(lx.tokenize(), Ok(Token::End));
}

#[test]
fn tokenize_all_operators() {
    let mut lx = Lexer::new(chars("+-*/^%()"));
    assert_eq!(lx.tokenize(), Ok(Token::Add));
    assert_eq!(lx.tokenize(), Ok(Token::Sub));
    assert_eq!(lx.tokenize(), Ok(Token::Mul));
    assert_eq!(lx.tokenize(), Ok(Token::Div));
    assert_eq!(lx.tokenize(), Ok(Token::Pow));
    assert_eq!(lx.tokenize(), Ok(Token::Mod));
    assert_eq!(lx.tokenize(), Ok(Token::BrOpen));
    assert_eq!(lx.tokenize(), Ok(Token::BrClose));
    assert_eq!(lx.tokenize(), Ok(Token::End));
}

#[test]
fn tokenize_decimal_literal() {
    let mut lx = Lexer::new(chars("3.14"));
    assert_eq!(lx.tokenize(), Ok(Token::Value(chars("3.14"))));
    assert_eq!(lx.tokenize(), Ok(Token::End));
}

#[test]
fn tokenize_second_point_ends_literal() {
    // The literal stops before the second point; the point itself is left
    // for the next scan, which cannot place it.
    let mut lx = Lexer::new(chars("1.2.3"));
    assert_eq!(lx.tokenize(), Ok(Token::Value(chars("1.2"))));
    assert_eq!(lx.tokenize(), Err(LexError::UnexpectedCharacter('.')));
}

#[test]
fn tokenize_identifier_stops_at_digit() {
    let mut lx = Lexer::new(chars("sqrt16"));
    assert_eq!(lx.tokenize(), Ok(Token::Name(chars("sqrt"))));
    assert_eq!(lx.tokenize(), Ok(Token::Value(chars("16"))));
}

#[test]
fn tokenize_unexpected_character() {
    let mut lx = Lexer::new(chars("1 $ 2"));
    assert_eq!(lx.tokenize(), Ok(Token::Value(chars("1"))));
    assert_eq!(lx.tokenize(), Err(LexError::UnexpectedCharacter('$')));
}

#[test]
fn token_predicates() {
    assert!(Token::Add.is_unary_operator());
    assert!(Token::Sub.is_unary_operator());
    assert!(!Token::Mul.is_unary_operator());
    assert!(Token::Pow.is_binary_operator());
    assert!(Token::Mod.is_binary_operator());
    assert!(!Token::BrOpen.is_binary_operator());
    assert!(Token::Value(chars("1")).is_value());
    assert!(!Token::Value(chars("1")).is_name());
    assert!(Token::Name(chars("pi")).is_name());
}

#[test]
fn token_precedence_tiers() {
    assert_eq!(Token::Add.get_precedence(), 1);
    assert_eq!(Token::Sub.get_precedence(), 1);
    assert_eq!(Token::Mul.get_precedence(), 2);
    assert_eq!(Token::Div.get_precedence(), 2);
    assert_eq!(Token::Pow.get_precedence(), 2);
    assert_eq!(Token::Mod.get_precedence(), 2);
}

#[test]
fn tokenize_skips_unicode_whitespace() {
    let mut lx = Lexer::new(chars("1\u{A0}+\u{2003}2"));
    assert_eq!(lx.tokenize(), Ok(Token::Value(chars("1"))));
    assert_eq!(lx.tokenize(), Ok(Token::Add));
    assert_eq!(lx.tokenize(), Ok(Token::Value(chars("2"))));
    assert_eq!(lx.tokenize(), Ok(Token::End));
}
