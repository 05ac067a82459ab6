use vstd::prelude::*;
use crate::ast::NodeView;
use crate::lexer::{literal_wf, token_from, tokens_from};
use crate::parser::{ParseErrorView, spec_parse_expr, spec_parse_unary, spec_parse_primary,
    spec_parse_binary, spec_parse_absorb};
use crate::table::arity_of;
use crate::token::TokenView;
use crate::read_result;

verus! {

/// Reading is a pure function of the characters alone: the same line read
/// twice — there is no shared mutable state anywhere — yields the identical
/// result, tree or fault.
pub proof fn lemma_read_deterministic(a: Seq<char>, b: Seq<char>)
    requires
        a == b,
    ensures
        read_result(a) == read_result(b),
{
}

/// Two binary operators where the first binds at least as tightly as the
/// second associate to the left: `a op1 b op2 c` parses as
/// `(a op1 b) op2 c`. In particular operators of equal precedence — among
/// them power chained with power — associate to the left.
pub proof fn lemma_equal_or_looser_left_assoc(
    a: Seq<char>,
    b: Seq<char>,
    c: Seq<char>,
    op1: TokenView,
    op2: TokenView,
)
    requires
        op1.is_binary_operator(),
        op2.is_binary_operator(),
        op1.precedence() >= op2.precedence(),
    ensures
        spec_parse_expr(
            seq![
                TokenView::Value(a),
                op1,
                TokenView::Value(b),
                op2,
                TokenView::Value(c),
            ],
            0,
        ) == Ok::<(NodeView, nat), ParseErrorView>(
            (
                NodeView::BiExpr(
                    Box::new(
                        NodeView::BiExpr(
                            Box::new(NodeView::Const(a)),
                            Box::new(NodeView::Const(b)),
                            op1,
                        ),
                    ),
                    Box::new(NodeView::Const(c)),
                    op2,
                ),
                5nat,
            ),
        ),
{
    let ts = seq![TokenView::Value(a), op1, TokenView::Value(b), op2, TokenView::Value(c)];
    assert(spec_parse_primary(ts, 0) == Ok::<(NodeView, nat), ParseErrorView>(
        (NodeView::Const(a), 1nat),
    ));
    assert(spec_parse_unary(ts, 0) == Ok::<(NodeView, nat), ParseErrorView>(
        (NodeView::Const(a), 1nat),
    ));
    assert(spec_parse_primary(ts, 2) == Ok::<(NodeView, nat), ParseErrorView>(
        (NodeView::Const(b), 1nat),
    ));
    assert(spec_parse_unary(ts, 2) == Ok::<(NodeView, nat), ParseErrorView>(
        (NodeView::Const(b), 1nat),
    ));
    assert(spec_parse_absorb(ts, NodeView::Const(b), 3, op1.precedence()) == Ok::<
        (NodeView, nat),
        ParseErrorView,
    >((NodeView::Const(b), 0nat)));
    let n1 = NodeView::BiExpr(Box::new(NodeView::Const(a)), Box::new(NodeView::Const(b)), op1);
    assert(spec_parse_primary(ts, 4) == Ok::<(NodeView, nat), ParseErrorView>(
        (NodeView::Const(c), 1nat),
    ));
    assert(spec_parse_unary(ts, 4) == Ok::<(NodeView, nat), ParseErrorView>(
        (NodeView::Const(c), 1nat),
    ));
    assert(spec_parse_absorb(ts, NodeView::Const(c), 5, op2.precedence()) == Ok::<
        (NodeView, nat),
        ParseErrorView,
    >((NodeView::Const(c), 0nat)));
    let n2 = NodeView::BiExpr(Box::new(n1), Box::new(NodeView::Const(c)), op2);
    assert(spec_parse_binary(ts, n2, 5, 0) == Ok::<(NodeView, nat), ParseErrorView>((n2, 0nat)));
    assert(spec_parse_binary(ts, n1, 3, 0) == Ok::<(NodeView, nat), ParseErrorView>((n2, 2nat)));
    assert(spec_parse_binary(ts, NodeView::Const(a), 1, 0) == Ok::<
        (NodeView, nat),
        ParseErrorView,
    >((n2, 4nat)));
}

/// A binary operator binding strictly tighter to the right wins its operand:
/// `a op1 b op2 c` with `op1` looser than `op2` parses as `a op1 (b op2 c)`.
pub proof fn lemma_tighter_right_operand(
    a: Seq<char>,
    b: Seq<char>,
    c: Seq<char>,
    op1: TokenView,
    op2: TokenView,
)
    requires
        op1.is_binary_operator(),
        op2.is_binary_operator(),
        op1.precedence() < op2.precedence(),
    ensures
        spec_parse_expr(
            seq![
                TokenView::Value(a),
                op1,
                TokenView::Value(b),
                op2,
                TokenView::Value(c),
            ],
            0,
        ) == Ok::<(NodeView, nat), ParseErrorView>(
            (
                NodeView::BiExpr(
                    Box::new(NodeView::Const(a)),
                    Box::new(
                        NodeView::BiExpr(
                            Box::new(NodeView::Const(b)),
                            Box::new(NodeView::Const(c)),
                            op2,
                        ),
                    ),
                    op1,
                ),
                5nat,
            ),
        ),
{
    let ts = seq![TokenView::Value(a), op1, TokenView::Value(b), op2, TokenView::Value(c)];
    assert(spec_parse_unary(ts, 0) == Ok::<(NodeView, nat), ParseErrorView>(
        (NodeView::Const(a), 1nat),
    ));
    assert(spec_parse_unary(ts, 2) == Ok::<(NodeView, nat), ParseErrorView>(
        (NodeView::Const(b), 1nat),
    ));
    assert(spec_parse_unary(ts, 4) == Ok::<(NodeView, nat), ParseErrorView>(
        (NodeView::Const(c), 1nat),
    ));
    assert(spec_parse_absorb(ts, NodeView::Const(c), 5, op2.precedence()) == Ok::<
        (NodeView, nat),
        ParseErrorView,
    >((NodeView::Const(c), 0nat)));
    let inner = NodeView::BiExpr(Box::new(NodeView::Const(b)), Box::new(NodeView::Const(c)), op2);
    assert(spec_parse_binary(ts, inner, 5, op2.precedence()) == Ok::<
        (NodeView, nat),
        ParseErrorView,
    >((inner, 0nat)));
    assert(spec_parse_absorb(ts, inner, 5, op1.precedence()) == Ok::<
        (NodeView, nat),
        ParseErrorView,
    >((inner, 0nat)));
    assert(spec_parse_absorb(ts, NodeView::Const(b), 3, op1.precedence()) == Ok::<
        (NodeView, nat),
        ParseErrorView,
    >((inner, 2nat)));
    let outer = NodeView::BiExpr(Box::new(NodeView::Const(a)), Box::new(inner), op1);
    assert(spec_parse_binary(ts, outer, 5, 0) == Ok::<(NodeView, nat), ParseErrorView>(
        (outer, 0nat),
    ));
    assert(spec_parse_binary(ts, NodeView::Const(a), 1, 0) == Ok::<
        (NodeView, nat),
        ParseErrorView,
    >((outer, 4nat)));
}

/// Parenthesization overrides precedence: `(a op1 b) op2 c` parses as
/// `(a op1 b) op2 c` whatever the two operators' precedences are.
pub proof fn lemma_parens_override_precedence(
    a: Seq<char>,
    b: Seq<char>,
    c: Seq<char>,
    op1: TokenView,
    op2: TokenView,
)
    requires
        op1.is_binary_operator(),
        op2.is_binary_operator(),
    ensures
        spec_parse_expr(
            seq![
                TokenView::BrOpen,
                TokenView::Value(a),
                op1,
                TokenView::Value(b),
                TokenView::BrClose,
                op2,
                TokenView::Value(c),
            ],
            0,
        ) == Ok::<(NodeView, nat), ParseErrorView>(
            (
                NodeView::BiExpr(
                    Box::new(
                        NodeView::BiExpr(
                            Box::new(NodeView::Const(a)),
                            Box::new(NodeView::Const(b)),
                            op1,
                        ),
                    ),
                    Box::new(NodeView::Const(c)),
                    op2,
                ),
                7nat,
            ),
        ),
{
    let ts = seq![
        TokenView::BrOpen,
        TokenView::Value(a),
        op1,
        TokenView::Value(b),
        TokenView::BrClose,
        op2,
        TokenView::Value(c),
    ];
    assert(spec_parse_unary(ts, 1) == Ok::<(NodeView, nat), ParseErrorView>(
        (NodeView::Const(a), 1nat),
    ));
    assert(spec_parse_unary(ts, 3) == Ok::<(NodeView, nat), ParseErrorView>(
        (NodeView::Const(b), 1nat),
    ));
    assert(spec_parse_absorb(ts, NodeView::Const(b), 4, op1.precedence()) == Ok::<
        (NodeView, nat),
        ParseErrorView,
    >((NodeView::Const(b), 0nat)));
    let inner = NodeView::BiExpr(Box::new(NodeView::Const(a)), Box::new(NodeView::Const(b)), op1);
    assert(spec_parse_binary(ts, inner, 4, 0) == Ok::<(NodeView, nat), ParseErrorView>(
        (inner, 0nat),
    ));
    assert(spec_parse_binary(ts, NodeView::Const(a), 2, 0) == Ok::<
        (NodeView, nat),
        ParseErrorView,
    >((inner, 2nat)));
    assert(spec_parse_expr(ts, 1) == Ok::<(NodeView, nat), ParseErrorView>((inner, 3nat)));
    assert(spec_parse_primary(ts, 0) == Ok::<(NodeView, nat), ParseErrorView>((inner, 5nat)));
    assert(spec_parse_unary(ts, 0) == Ok::<(NodeView, nat), ParseErrorView>((inner, 5nat)));
    assert(spec_parse_unary(ts, 6) == Ok::<(NodeView, nat), ParseErrorView>(
        (NodeView::Const(c), 1nat),
    ));
    assert(spec_parse_absorb(ts, NodeView::Const(c), 7, op2.precedence()) == Ok::<
        (NodeView, nat),
        ParseErrorView,
    >((NodeView::Const(c), 0nat)));
    let outer = NodeView::BiExpr(Box::new(inner), Box::new(NodeView::Const(c)), op2);
    assert(spec_parse_binary(ts, outer, 7, 0) == Ok::<(NodeView, nat), ParseErrorView>(
        (outer, 0nat),
    ));
    assert(spec_parse_binary(ts, inner, 5, 0) == Ok::<(NodeView, nat), ParseErrorView>(
        (outer, 2nat),
    ));
}

/// A leading sign binds tighter than any binary continuation, but only over
/// the single primary that follows it: `- a op b` parses as `(-a) op b` —
/// not as `-(a op b)` — for every binary operator `op`, the power operator
/// included.
pub proof fn lemma_sign_wraps_single_primary(a: Seq<char>, b: Seq<char>, op: TokenView)
    requires
        op.is_binary_operator(),
    ensures
        spec_parse_expr(
            seq![TokenView::Sub, TokenView::Value(a), op, TokenView::Value(b)],
            0,
        ) == Ok::<(NodeView, nat), ParseErrorView>(
            (
                NodeView::BiExpr(
                    Box::new(NodeView::UnExpr(Box::new(NodeView::Const(a)), TokenView::Sub)),
                    Box::new(NodeView::Const(b)),
                    op,
                ),
                4nat,
            ),
        ),
{
    let ts = seq![TokenView::Sub, TokenView::Value(a), op, TokenView::Value(b)];
    assert(spec_parse_primary(ts, 1) == Ok::<(NodeView, nat), ParseErrorView>(
        (NodeView::Const(a), 1nat),
    ));
    let signed = NodeView::UnExpr(Box::new(NodeView::Const(a)), TokenView::Sub);
    assert(spec_parse_unary(ts, 0) == Ok::<(NodeView, nat), ParseErrorView>((signed, 2nat)));
    assert(spec_parse_unary(ts, 3) == Ok::<(NodeView, nat), ParseErrorView>(
        (NodeView::Const(b), 1nat),
    ));
    assert(spec_parse_absorb(ts, NodeView::Const(b), 4, op.precedence()) == Ok::<
        (NodeView, nat),
        ParseErrorView,
    >((NodeView::Const(b), 0nat)));
    let outer = NodeView::BiExpr(Box::new(signed), Box::new(NodeView::Const(b)), op);
    assert(spec_parse_binary(ts, outer, 4, 0) == Ok::<(NodeView, nat), ParseErrorView>(
        (outer, 0nat),
    ));
    assert(spec_parse_binary(ts, signed, 2, 0) == Ok::<(NodeView, nat), ParseErrorView>(
        (outer, 2nat),
    ));
}

/// A one-argument function consumes exactly the one primary after its name.
pub proof fn lemma_call_one_argument(name: Seq<char>, x: Seq<char>)
    requires
        arity_of(name) == Some(1u8),
    ensures
        spec_parse_expr(seq![TokenView::Name(name), TokenView::Value(x)], 0) == Ok::<
            (NodeView, nat),
            ParseErrorView,
        >((NodeView::Call1(name, Box::new(NodeView::Const(x))), 2nat)),
{
    let ts = seq![TokenView::Name(name), TokenView::Value(x)];
    assert(spec_parse_primary(ts, 1) == Ok::<(NodeView, nat), ParseErrorView>(
        (NodeView::Const(x), 1nat),
    ));
    let call = NodeView::Call1(name, Box::new(NodeView::Const(x)));
    assert(spec_parse_primary(ts, 0) == Ok::<(NodeView, nat), ParseErrorView>((call, 2nat)));
    assert(spec_parse_unary(ts, 0) == Ok::<(NodeView, nat), ParseErrorView>((call, 2nat)));
    assert(spec_parse_binary(ts, call, 2, 0) == Ok::<(NodeView, nat), ParseErrorView>(
        (call, 0nat),
    ));
}

/// A two-argument function consumes exactly the two primaries after its
/// name, in order.
pub proof fn lemma_call_two_arguments(name: Seq<char>, x: Seq<char>, y: Seq<char>)
    requires
        arity_of(name) == Some(2u8),
    ensures
        spec_parse_expr(
            seq![TokenView::Name(name), TokenView::Value(x), TokenView::Value(y)],
            0,
        ) == Ok::<(NodeView, nat), ParseErrorView>(
            (
                NodeView::Call2(
                    name,
                    Box::new(NodeView::Const(x)),
                    Box::new(NodeView::Const(y)),
                ),
                3nat,
            ),
        ),
{
    let ts = seq![TokenView::Name(name), TokenView::Value(x), TokenView::Value(y)];
    assert(spec_parse_primary(ts, 1) == Ok::<(NodeView, nat), ParseErrorView>(
        (NodeView::Const(x), 1nat),
    ));
    assert(spec_parse_primary(ts, 2) == Ok::<(NodeView, nat), ParseErrorView>(
        (NodeView::Const(y), 1nat),
    ));
    let call = NodeView::Call2(name, Box::new(NodeView::Const(x)), Box::new(NodeView::Const(y)));
    assert(spec_parse_primary(ts, 0) == Ok::<(NodeView, nat), ParseErrorView>((call, 3nat)));
    assert(spec_parse_unary(ts, 0) == Ok::<(NodeView, nat), ParseErrorView>((call, 3nat)));
    assert(spec_parse_binary(ts, call, 3, 0) == Ok::<(NodeView, nat), ParseErrorView>(
        (call, 0nat),
    ));
}

/// A zero-argument identifier consumes nothing after its name: followed by a
/// binary operator and a value it is an ordinary operand, `n op b`.
pub proof fn lemma_call_zero_arguments(name: Seq<char>, b: Seq<char>, op: TokenView)
    requires
        arity_of(name) == Some(0u8),
        op.is_binary_operator(),
    ensures
        spec_parse_expr(seq![TokenView::Name(name)], 0) == Ok::<
            (NodeView, nat),
            ParseErrorView,
        >((NodeView::Call0(name), 1nat)),
        spec_parse_expr(seq![TokenView::Name(name), op, TokenView::Value(b)], 0) == Ok::<
            (NodeView, nat),
            ParseErrorView,
        >(
            (
                NodeView::BiExpr(
                    Box::new(NodeView::Call0(name)),
                    Box::new(NodeView::Const(b)),
                    op,
                ),
                3nat,
            ),
        ),
{
    let t1 = seq![TokenView::Name(name)];
    assert(spec_parse_primary(t1, 0) == Ok::<(NodeView, nat), ParseErrorView>(
        (NodeView::Call0(name), 1nat),
    ));
    assert(spec_parse_unary(t1, 0) == Ok::<(NodeView, nat), ParseErrorView>(
        (NodeView::Call0(name), 1nat),
    ));
    assert(spec_parse_binary(t1, NodeView::Call0(name), 1, 0) == Ok::<
        (NodeView, nat),
        ParseErrorView,
    >((NodeView::Call0(name), 0nat)));

    let t2 = seq![TokenView::Name(name), op, TokenView::Value(b)];
    assert(spec_parse_primary(t2, 0) == Ok::<(NodeView, nat), ParseErrorView>(
        (NodeView::Call0(name), 1nat),
    ));
    assert(spec_parse_unary(t2, 0) == Ok::<(NodeView, nat), ParseErrorView>(
        (NodeView::Call0(name), 1nat),
    ));
    assert(spec_parse_unary(t2, 2) == Ok::<(NodeView, nat), ParseErrorView>(
        (NodeView::Const(b), 1nat),
    ));
    assert(spec_parse_absorb(t2, NodeView::Const(b), 3, op.precedence()) == Ok::<
        (NodeView, nat),
        ParseErrorView,
    >((NodeView::Const(b), 0nat)));
    let outer = NodeView::BiExpr(Box::new(NodeView::Call0(name)), Box::new(NodeView::Const(b)), op);
    assert(spec_parse_binary(t2, outer, 3, 0) == Ok::<(NodeView, nat), ParseErrorView>(
        (outer, 0nat),
    ));
    assert(spec_parse_binary(t2, NodeView::Call0(name), 1, 0) == Ok::<
        (NodeView, nat),
        ParseErrorView,
    >((outer, 2nat)));
}

/// A function's argument is a primary, never a full expression: a
/// one-argument call followed by a binary continuation parses as
/// `f(a) op b`, not `f(a op b)`.
pub proof fn lemma_argument_is_primary(
    name: Seq<char>,
    a: Seq<char>,
    b: Seq<char>,
    op: TokenView,
)
    requires
        arity_of(name) == Some(1u8),
        op.is_binary_operator(),
    ensures
        spec_parse_expr(
            seq![TokenView::Name(name), TokenView::Value(a), op, TokenView::Value(b)],
            0,
        ) == Ok::<(NodeView, nat), ParseErrorView>(
            (
                NodeView::BiExpr(
                    Box::new(NodeView::Call1(name, Box::new(NodeView::Const(a)))),
                    Box::new(NodeView::Const(b)),
                    op,
                ),
                4nat,
            ),
        ),
{
    let ts = seq![TokenView::Name(name), TokenView::Value(a), op, TokenView::Value(b)];
    assert(spec_parse_primary(ts, 1) == Ok::<(NodeView, nat), ParseErrorView>(
        (NodeView::Const(a), 1nat),
    ));
    let call = NodeView::Call1(name, Box::new(NodeView::Const(a)));
    assert(spec_parse_primary(ts, 0) == Ok::<(NodeView, nat), ParseErrorView>((call, 2nat)));
    assert(spec_parse_unary(ts, 0) == Ok::<(NodeView, nat), ParseErrorView>((call, 2nat)));
    assert(spec_parse_unary(ts, 3) == Ok::<(NodeView, nat), ParseErrorView>(
        (NodeView::Const(b), 1nat),
    ));
    assert(spec_parse_absorb(ts, NodeView::Const(b), 4, op.precedence()) == Ok::<
        (NodeView, nat),
        ParseErrorView,
    >((NodeView::Const(b), 0nat)));
    let outer = NodeView::BiExpr(Box::new(call), Box::new(NodeView::Const(b)), op);
    assert(spec_parse_binary(ts, outer, 4, 0) == Ok::<(NodeView, nat), ParseErrorView>(
        (outer, 0nat),
    ));
    assert(spec_parse_binary(ts, call, 2, 0) == Ok::<(NodeView, nat), ParseErrorView>(
        (outer, 2nat),
    ));
}

/// An identifier the function table does not hold fails the whole parse with
/// exactly `UnknownFunction` and that name, whatever follows it.
pub proof fn lemma_unknown_name_fails(toks: Seq<TokenView>, i: nat, name: Seq<char>)
    requires
        i < toks.len(),
        toks[i as int] == TokenView::Name(name),
        arity_of(name) is None,
    ensures
        spec_parse_expr(toks, i) == Err::<(NodeView, nat), ParseErrorView>(
            ParseErrorView::UnknownFunction(name),
        ),
{
    assert(spec_parse_primary(toks, i) == Err::<(NodeView, nat), ParseErrorView>(
        ParseErrorView::UnknownFunction(name),
    ));
    assert(spec_parse_unary(toks, i) == Err::<(NodeView, nat), ParseErrorView>(
        ParseErrorView::UnknownFunction(name),
    ));
}

/// An opening parenthesis whose group never closes fails with
/// `ExpectedToken`: the closing parenthesis was required and the end of the
/// input stood in its place.
pub proof fn lemma_missing_close_fails(x: Seq<char>)
    ensures
        spec_parse_expr(seq![TokenView::BrOpen, TokenView::Value(x)], 0) == Err::<
            (NodeView, nat),
            ParseErrorView,
        >(
            ParseErrorView::ExpectedToken {
                expected: TokenView::BrClose,
                found: TokenView::End,
            },
        ),
{
    let ts = seq![TokenView::BrOpen, TokenView::Value(x)];
    assert(spec_parse_unary(ts, 1) == Ok::<(NodeView, nat), ParseErrorView>(
        (NodeView::Const(x), 1nat),
    ));
    assert(spec_parse_binary(ts, NodeView::Const(x), 2, 0) == Ok::<
        (NodeView, nat),
        ParseErrorView,
    >((NodeView::Const(x), 0nat)));
    assert(spec_parse_expr(ts, 1) == Ok::<(NodeView, nat), ParseErrorView>(
        (NodeView::Const(x), 1nat),
    ));
    let failure = ParseErrorView::ExpectedToken {
        expected: TokenView::BrClose,
        found: TokenView::End,
    };
    assert(spec_parse_primary(ts, 0) == Err::<(NodeView, nat), ParseErrorView>(failure));
    assert(spec_parse_unary(ts, 0) == Err::<(NodeView, nat), ParseErrorView>(failure));
}

/// A stray closing parenthesis after a complete expression is never
/// consumed: the parse succeeds and leaves it standing. This preserves the
/// deliberate leniency that trailing tokens after a complete expression are
/// ignored.
pub proof fn lemma_trailing_close_ignored(x: Seq<char>)
    ensures
        spec_parse_expr(seq![TokenView::Value(x), TokenView::BrClose], 0) == Ok::<
            (NodeView, nat),
            ParseErrorView,
        >((NodeView::Const(x), 1nat)),
{
    let ts = seq![TokenView::Value(x), TokenView::BrClose];
    assert(spec_parse_unary(ts, 0) == Ok::<(NodeView, nat), ParseErrorView>(
        (NodeView::Const(x), 1nat),
    ));
    assert(spec_parse_binary(ts, NodeView::Const(x), 1, 0) == Ok::<
        (NodeView, nat),
        ParseErrorView,
    >((NodeView::Const(x), 0nat)));
}

/// The materialized token sequence never contains the end marker: scanning
/// stops at it, and it is reported only by reading past the last real token.
pub proof fn lemma_tokens_hold_no_end_marker(s: Seq<char>, i: int)
    requires
        0 <= i,
    ensures
        match tokens_from(s, i) {
            Ok(ts) => forall|k: int| 0 <= k < ts.len() ==> !((#[trigger] ts[k]) is End),
            Err(_) => true,
        },
    decreases s.len() - i,
{
    crate::lexer::lemma_token_from_advances(s, i);
    let (res, j) = crate::lexer::token_from(s, i);
    match res {
        Err(_) => {},
        Ok(t) => {
            if t is End {
            } else if 0 <= i && i < j && j <= s.len() {
                lemma_tokens_hold_no_end_marker(s, j);
                match tokens_from(s, j) {
                    Ok(rest) => {
                        assert forall|k: int|
                            0 <= k < (seq![t] + rest).len() implies !(
                        (#[trigger] (seq![t] + rest)[k]) is End) by {
                            if k > 0 {
                                assert((seq![t] + rest)[k] == rest[k - 1]);
                            }
                        }
                    },
                    Err(_) => {},
                }
            }
        },
    }
}

/// Every numeric literal the scanner yields is well formed: nonempty, a
/// digit first, then only digits and at most one point. So a scanned
/// literal always reads as a floating-point number, and a malformed-number
/// fault can never arise from scanning.
pub proof fn lemma_scanned_literal_wf(s: Seq<char>, i: int)
    requires
        0 <= i,
    ensures
        ({
            let (res, j) = token_from(s, i);
            match res {
                Ok(t) => t matches TokenView::Value(lit) ==> literal_wf(lit),
                Err(_) => true,
            }
        }),
{
    if i <= s.len() {
        crate::lexer::lemma_ws_end_bounds(s, i);
        let w = crate::lexer::ws_end(s, i);
        if w < s.len() && crate::lexer::is_digit_char(s[w]) {
            crate::lexer::lemma_num_end_bounds(s, w + 1, false);
            crate::lexer::lemma_num_scan_shape(s, w + 1, false);
            let e = crate::lexer::num_end(s, w + 1, false);
            let lit = s.subrange(w, e);
            assert forall|k: int| 1 <= k < lit.len() implies crate::lexer::is_digit_char(
                #[trigger] lit[k],
            ) || lit[k] == '.' by {
                assert(lit[k] == s[w + k]);
            }
            assert forall|k1: int, k2: int|
                0 <= k1 < k2 < lit.len() && (#[trigger] lit[k1]) == '.' implies (
            #[trigger] lit[k2]) != '.' by {
                assert(lit[k1] == s[w + k1]);
                assert(lit[k2] == s[w + k2]);
            }
        }
    }
}

/// Well-formedness of every literal holds across the whole materialized
/// token sequence, not only one scanning step.
pub proof fn lemma_all_scanned_literals_wf(s: Seq<char>, i: int)
    requires
        0 <= i,
    ensures
        match tokens_from(s, i) {
            Ok(ts) => forall|k: int|
                0 <= k < ts.len() ==> ((#[trigger] ts[k]) matches TokenView::Value(lit)
                    ==> literal_wf(lit)),
            Err(_) => true,
        },
    decreases s.len() - i,
{
    crate::lexer::lemma_token_from_advances(s, i);
    lemma_scanned_literal_wf(s, i);
    let (res, j) = token_from(s, i);
    match res {
        Err(_) => {},
        Ok(t) => {
            if t is End {
            } else if 0 <= i && i < j && j <= s.len() {
                lemma_all_scanned_literals_wf(s, j);
                match tokens_from(s, j) {
                    Ok(rest) => {
                        assert forall|k: int|
                            0 <= k < (seq![t] + rest).len() implies ((#[trigger] (seq![t]
                            + rest)[k]) matches TokenView::Value(lit) ==> literal_wf(lit)) by {
                            if k > 0 {
                                assert((seq![t] + rest)[k] == rest[k - 1]);
                            }
                        }
                    },
                    Err(_) => {},
                }
            }
        },
    }
}

} // verus!
