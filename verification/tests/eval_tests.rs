//! End-to-end numeric checks: the library builds the tree, and a small
//! evaluator here applies the floating-point semantics the shell uses.

use calculator::ast::Node;
use calculator::read;
use calculator::token::Token;

fn name_of(v: &[char]) -> String {
    v.iter().collect()
}

fn apply(name: &str, args: &[f64]) -> f64 {
    match name {
        "pi" => std::f64::consts::PI,
        "e" => std::f64::consts::E,
        "golden" => 1.618033988749895f64,
        "abs" => args[0].abs(),
        "sin" => args[0].sin(),
        "cos" => args[0].cos(),
        "tan" => args[0].tan(),
        "round" => args[0].round(),
        "floor" => args[0].floor(),
        "ceil" => args[0].ceil(),
        "fib" => (1.618033988749895f64.powf(args[0]) / 2.23606797749979f64).round(),
        "sqrt" => args[0].sqrt(),
        "log" => args[1].log(args[0]),
        "min" => args[0].min(args[1]),
        "max" => args[0].max(args[1]),
        _ => panic!("no such function"),
    }
}

fn eval(n: &Node) -> f64 {
    match n {
        Node::Const(lit) => name_of(lit).parse::<f64>().unwrap(),
        Node::UnExpr(operand, op) => {
            let v = eval(operand);
            match op {
                Token::Add => v,
                Token::Sub => -v,
                _ => panic!("not a unary operator"),
            }
        },
        Node::BiExpr(left, right, op) => {
            let a = eval(left);
            let b = eval(right);
            match op {
                Token::Add => a + b,
                Token::Sub => a - b,
                Token::Mul => a * b,
                Token::Div => a / b,
                Token::Pow => a.powf(b),
                Token::Mod => a % b,
                _ => panic!("not a binary operator"),
            }
        },
        Node::Call0(name) => apply(&name_of(name), &[]),
        Node::Call1(name, a) => apply(&name_of(name), &[eval(a)]),
        Node::Call2(name, a, b) => apply(&name_of(name), &[eval(a), eval(b)]),
    }
}

fn eval_line(s: &str) -> f64 {
    eval(&read(s.chars().collect()).unwrap())
}

#[test]
fn precedence_two_plus_three_times_four() {
    assert_eq!(eval_line("2+3*4"), 14.0);
}

#[test]
fn precedence_two_times_three_plus_four() {
    assert_eq!(eval_line("2*3+4"), 10.0);
}

#[test]
fn power_chain_is_left_associative() {
    // (2^3)^2 = 64, not the conventional right-associative 512.
    assert_eq!(eval_line("2^3^2"), 64.0);
}

#[test]
fn parens_override_precedence() {
    assert_eq!(eval_line("(2+3)*4"), 20.0);
}

#[test]
fn sign_applies_to_the_primary_only() {
    // (-2)^2 = 4, not -(2^2) = -4.
    assert_eq!(eval_line("-2^2"), 4.0);
}

#[test]
fn plus_sign_is_identity() {
    assert_eq!(eval_line("+5"), 5.0);
}

#[test]
fn sqrt_of_sixteen() {
    assert_eq!(eval_line("sqrt 16"), 4.0);
}

#[test]
fn log_base_two_of_eight() {
    assert_eq!(eval_line("log 2 8"), 3.0);
}

#[test]
fn min_and_max() {
    assert_eq!(eval_line("min 3 5"), 3.0);
    assert_eq!(eval_line("max 2 3"), 3.0);
}

#[test]
fn pi_alone_and_in_a_sum() {
    assert!((eval_line("pi") - std::f64::consts::PI).abs() < 1e-12);
    assert!((eval_line("pi+1") - (std::f64::consts::PI + 1.0)).abs() < 1e-12);
}

#[test]
fn sin_argument_is_a_primary() {
    // sin 1+1 is sin(1) + 1, not sin(2).
    assert!((eval_line("sin 1+1") - (1f64.sin() + 1.0)).abs() < 1e-12);
    assert!((eval_line("sin 1+1") - 2f64.sin()).abs() > 0.5);
}

#[test]
fn fib_by_rounded_powers() {
    assert_eq!(eval_line("fib 10"), 55.0);
    assert_eq!(eval_line("fib 1"), 1.0);
}

#[test]
fn golden_ratio_constant() {
    assert!((eval_line("golden") - 1.618033988749895).abs() < 1e-12);
}

#[test]
fn remainder_keeps_dividend_sign() {
    assert_eq!(eval_line("7%3"), 1.0);
    assert_eq!(eval_line("0-7%3"), -1.0);
}

#[test]
fn division_by_zero_is_infinite() {
    assert!(eval_line("1/0").is_infinite());
}

#[test]
fn decimal_literals() {
    assert_eq!(eval_line("1.5+2.25"), 3.75);
    // A trailing point is still a valid literal.
    assert_eq!(eval_line("2.+1"), 3.0);
}

#[test]
fn rounding_family() {
    assert_eq!(eval_line("floor 2.7"), 2.0);
    assert_eq!(eval_line("ceil 2.2"), 3.0);
    assert_eq!(eval_line("round 2.5"), 3.0);
    assert_eq!(eval_line("abs 5"), 5.0);
}

#[test]
fn identifier_glued_to_number() {
    // Identifiers stop at the first non-letter, so this is sqrt(16).
    assert_eq!(eval_line("sqrt16"), 4.0);
}

#[test]
fn nested_calls_as_primaries() {
    // sqrt sqrt 16 = sqrt(sqrt(16)) = 2.
    assert_eq!(eval_line("sqrt sqrt 16"), 2.0);
}

#[test]
fn same_line_evaluates_identically_twice() {
    let a = eval_line("2+3*4^2");
    let b = eval_line("2+3*4^2");
    assert_eq!(a, b);
    // Multiplication and power share one tier and associate left:
    // 2 + (3*4)^2 = 146.
    assert_eq!(a, 146.0);
}
