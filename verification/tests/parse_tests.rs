use calculator::ast::Node;
use calculator::lexer::LexError;
use calculator::parser::ParseError;
use calculator::table::arity_lookup;
use calculator::token::Token;
use calculator::{read, read_str, ReadError};

fn chars(s: &str) -> Vec<char> {
    s.chars().collect()
}

fn num(s: &str) -> Node {
    Node::Const(chars(s))
}

fn bi(left: Node, right: Node, op: Token) -> Node {
    Node::BiExpr(Box::new(left), Box::new(right), op)
}

fn un(operand: Node, op: Token) -> Node {
    Node::UnExpr(Box::new(operand), op)
}

#[test]
fn tree_multiplication_binds_tighter() {
    let tree = read(chars("2+3*4")).unwrap();
    assert_eq!(tree, bi(num("2"), bi(num("3"), num("4"), Token::Mul), Token::Add));
}

#[test]
fn tree_equal_precedence_left_assoc() {
    let tree = read(chars("2^3^2")).unwrap();
    assert_eq!(tree, bi(bi(num("2"), num("3"), Token::Pow), num("2"), Token::Pow));
}

#[test]
fn tree_parens_override() {
    let tree = read(chars("(2+3)*4")).unwrap();
    assert_eq!(tree, bi(bi(num("2"), num("3"), Token::Add), num("4"), Token::Mul));
}

#[test]
fn tree_sign_wraps_single_primary() {
    let tree = read(chars("-2^2")).unwrap();
    assert_eq!(tree, bi(un(num("2"), Token::Sub), num("2"), Token::Pow));
}

#[test]
fn tree_zero_arity_constant() {
    let tree = read(chars("pi+1")).unwrap();
    assert_eq!(tree, bi(Node::Call0(chars("pi")), num("1"), Token::Add));
}

#[test]
fn tree_one_argument_call() {
    let tree = read(chars("sqrt 16")).unwrap();
    assert_eq!(tree, Node::Call1(chars("sqrt"), Box::new(num("16"))));
}

#[test]
fn tree_two_argument_call() {
    let tree = read(chars("log 2 8")).unwrap();
    assert_eq!(
        tree,
        Node::Call2(chars("log"), Box::new(num("2")), Box::new(num("8")))
    );
}

#[test]
fn tree_argument_is_primary_not_expression() {
    let tree = read(chars("sin 1+1")).unwrap();
    assert_eq!(
        tree,
        bi(Node::Call1(chars("sin"), Box::new(num("1"))), num("1"), Token::Add)
    );
}

#[test]
fn unknown_function_fails() {
    assert_eq!(
        read(chars("foo 1")),
        Err(ReadError::Parse(ParseError::UnknownFunction(chars("foo"))))
    );
}

#[test]
fn missing_close_fails() {
    assert_eq!(
        read(chars("(1+2")),
        Err(ReadError::Parse(ParseError::ExpectedToken {
            expected: Token::BrClose,
            found: Token::End,
        }))
    );
}

#[test]
fn trailing_close_is_ignored() {
    let tree = read(chars("1+2)")).unwrap();
    assert_eq!(tree, bi(num("1"), num("2"), Token::Add));
}

#[test]
fn unexpected_character_fails() {
    assert_eq!(
        read(chars("1 $ 2")),
        Err(ReadError::Lex(LexError::UnexpectedCharacter('$')))
    );
}

#[test]
fn empty_line_fails_cleanly() {
    assert_eq!(
        read(chars("")),
        Err(ReadError::Parse(ParseError::UnexpectedToken(Token::End)))
    );
}

#[test]
fn bare_operator_fails() {
    assert_eq!(
        read(chars("*2")),
        Err(ReadError::Parse(ParseError::UnexpectedToken(Token::Mul)))
    );
}

#[test]
fn signed_argument_fails() {
    // An argument is a primary; a sign cannot start a primary.
    assert_eq!(
        read(chars("abs -5")),
        Err(ReadError::Parse(ParseError::UnexpectedToken(Token::Sub)))
    );
}

#[test]
fn double_point_literal_fails() {
    assert_eq!(
        read(chars("1.2.3")),
        Err(ReadError::Lex(LexError::UnexpectedCharacter('.')))
    );
}

#[test]
fn same_line_read_twice_gives_identical_result() {
    let first = read(chars("2+3*4"));
    let second = read(chars("2+3*4"));
    assert_eq!(first, second);
    let bad_first = read(chars("1 $ 2"));
    let bad_second = read(chars("1 $ 2"));
    assert_eq!(bad_first, bad_second);
}

#[test]
fn error_does_not_poison_next_line() {
    assert!(read(chars("1 $ 2")).is_err());
    let tree = read(chars("1+2")).unwrap();
    assert_eq!(tree, bi(num("1"), num("2"), Token::Add));
}

#[test]
fn arity_table_entries() {
    assert_eq!(arity_lookup(&chars("pi")), Some(0));
    assert_eq!(arity_lookup(&chars("e")), Some(0));
    assert_eq!(arity_lookup(&chars("golden")), Some(0));
    assert_eq!(arity_lookup(&chars("abs")), Some(1));
    assert_eq!(arity_lookup(&chars("sin")), Some(1));
    assert_eq!(arity_lookup(&chars("cos")), Some(1));
    assert_eq!(arity_lookup(&chars("tan")), Some(1));
    assert_eq!(arity_lookup(&chars("round")), Some(1));
    assert_eq!(arity_lookup(&chars("floor")), Some(1));
    assert_eq!(arity_lookup(&chars("ceil")), Some(1));
    assert_eq!(arity_lookup(&chars("fib")), Some(1));
    assert_eq!(arity_lookup(&chars("sqrt")), Some(1));
    assert_eq!(arity_lookup(&chars("log")), Some(2));
    assert_eq!(arity_lookup(&chars("min")), Some(2));
    assert_eq!(arity_lookup(&chars("max")), Some(2));
    assert_eq!(arity_lookup(&chars("foo")), None);
    assert_eq!(arity_lookup(&chars("")), None);
    assert_eq!(arity_lookup(&chars("pie")), None);
}

#[test]
fn whitespace_is_skipped() {
    let tree = read(chars("  1 \t+  2 ")).unwrap();
    assert_eq!(tree, bi(num("1"), num("2"), Token::Add));
}

#[test]
fn deeply_nested_parens() {
    let tree = read(chars("(((5)))")).unwrap();
    assert_eq!(tree, num("5"));
}

#[test]
fn read_str_agrees_with_read() {
    assert_eq!(read_str("2+3*4"), read(chars("2+3*4")));
    assert_eq!(read_str("(1+2"), read(chars("(1+2")));
    assert_eq!(read_str("1 $ 2"), read(chars("1 $ 2")));
    assert_eq!(read_str("sqrt 16"), read(chars("sqrt 16")));
}
