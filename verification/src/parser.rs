use vstd::prelude::*;
use crate::token::{Token, TokenView};
use crate::ast::{Node, NodeView, node_wf};
use crate::table::{arity_of, arity_lookup};
use crate::lexer::{LexError, Lexer, tokens_from};

verus! {

/// A fault met while parsing the token sequence.
#[derive(Debug, PartialEq)]
pub enum ParseError {
    /// An identifier the function table does not hold.
    UnknownFunction(Vec<char>),
    /// A token that cannot start a primary expression.
    UnexpectedToken(Token),
    /// A required token (a closing parenthesis) was missing.
    ExpectedToken { expected: Token, found: Token },
}

/// Mathematical picture of a parse fault.
pub enum ParseErrorView {
    UnknownFunction(Seq<char>),
    UnexpectedToken(TokenView),
    ExpectedToken { expected: TokenView, found: TokenView },
}

impl View for ParseError {
    type V = ParseErrorView;

    open spec fn view(&self) -> ParseErrorView {
        match self {
            ParseError::UnknownFunction(name) => ParseErrorView::UnknownFunction(name@),
            ParseError::UnexpectedToken(t) => ParseErrorView::UnexpectedToken(t@),
            ParseError::ExpectedToken { expected, found } => ParseErrorView::ExpectedToken {
                expected: expected@,
                found: found@,
            },
        }
    }
}

/// Tokens still unread at position `i`; clamped so it can serve as a
/// termination measure whatever `i` is.
pub open spec fn toks_left(toks: Seq<TokenView>, i: nat) -> int {
    if i <= toks.len() {
        toks.len() - i
    } else {
        0
    }
}

/// The token at position `i`; reading past the last token transparently
/// yields the end marker instead of faulting.
pub open spec fn peek_at(toks: Seq<TokenView>, i: nat) -> TokenView {
    if i < toks.len() {
        toks[i as int]
    } else {
        TokenView::End
    }
}

/// What parsing one primary expression at position `i` yields: the tree and
/// the number of tokens consumed, or the fault. A primary is a numeric
/// literal, a parenthesized expression, or a function call whose arguments
/// are themselves primaries — exactly as many as the function's arity.
pub open spec fn spec_parse_primary(toks: Seq<TokenView>, i: nat) -> Result<
    (NodeView, nat),
    ParseErrorView,
>
    decreases toks_left(toks, i), 0int,
{
    if i >= toks.len() {
        Err(ParseErrorView::UnexpectedToken(TokenView::End))
    } else {
        match toks[i as int] {
            TokenView::BrOpen => match spec_parse_expr(toks, (i + 1) as nat) {
                Err(e) => Err(e),
                Ok((n, c)) => {
                    let k = (i + 1 + c) as nat;
                    if peek_at(toks, k) is BrClose {
                        Ok((n, (c + 2) as nat))
                    } else {
                        Err(
                            ParseErrorView::ExpectedToken {
                                expected: TokenView::BrClose,
                                found: peek_at(toks, k),
                            },
                        )
                    }
                },
            },
            TokenView::Value(lit) => Ok((NodeView::Const(lit), 1nat)),
            TokenView::Name(name) => match arity_of(name) {
                None => Err(ParseErrorView::UnknownFunction(name)),
                Some(count) => {
                    if count == 0 {
                        Ok((NodeView::Call0(name), 1nat))
                    } else if count == 1 {
                        match spec_parse_primary(toks, (i + 1) as nat) {
                            Err(e) => Err(e),
                            Ok((a, ca)) => Ok(
                                (NodeView::Call1(name, Box::new(a)), (1 + ca) as nat),
                            ),
                        }
                    } else if count == 2 {
                        match spec_parse_primary(toks, (i + 1) as nat) {
                            Err(e) => Err(e),
                            Ok((a, ca)) => match spec_parse_primary(toks, (i + 1 + ca) as nat) {
                                Err(e) => Err(e),
                                Ok((b, cb)) => Ok(
                                    (
                                        NodeView::Call2(name, Box::new(a), Box::new(b)),
                                        (1 + ca + cb) as nat,
                                    ),
                                ),
                            },
                        }
                    } else {
                        // The table holds no arity above two.
                        Err(ParseErrorView::UnknownFunction(name))
                    }
                },
            },
            t => Err(ParseErrorView::UnexpectedToken(t)),
        }
    }
}

/// What parsing a unary-or-primary operand yields: a leading sign wraps a
/// single primary — the sign does not recurse into another sign.
pub open spec fn spec_parse_unary(toks: Seq<TokenView>, i: nat) -> Result<
    (NodeView, nat),
    ParseErrorView,
>
    decreases toks_left(toks, i), 1int,
{
    if i < toks.len() && toks[i as int].is_unary_operator() {
        match spec_parse_primary(toks, (i + 1) as nat) {
            Err(e) => Err(e),
            Ok((n, c)) => Ok((NodeView::UnExpr(Box::new(n), toks[i as int]), (1 + c) as nat)),
        }
    } else {
        spec_parse_primary(toks, i)
    }
}

/// The absorb step of precedence climbing: while the lookahead is a binary
/// operator binding strictly tighter than `p`, the right-hand operand grown
/// so far absorbs the tighter operator's whole climb before control returns
/// to the looser level.
pub open spec fn spec_parse_absorb(
    toks: Seq<TokenView>,
    right: NodeView,
    j: nat,
    p: u32,
) -> Result<(NodeView, nat), ParseErrorView>
    decreases toks_left(toks, j), 2int,
{
    if j < toks.len() && toks[j as int].is_binary_operator() && toks[j as int].precedence()
        > p {
        let op = toks[j as int];
        let q = op.precedence();
        match spec_parse_unary(toks, (j + 1) as nat) {
            Err(e) => Err(e),
            Ok((r0, ca)) => match spec_parse_absorb(toks, r0, (j + 1 + ca) as nat, q) {
                Err(e) => Err(e),
                Ok((right2, cb)) => {
                    let combined = NodeView::BiExpr(Box::new(right), Box::new(right2), op);
                    match spec_parse_binary(toks, combined, (j + 1 + ca + cb) as nat, q) {
                        Err(e) => Err(e),
                        Ok((r2, cc)) => match spec_parse_absorb(
                            toks,
                            r2,
                            (j + 1 + ca + cb + cc) as nat,
                            p,
                        ) {
                            Err(e) => Err(e),
                            Ok((r3, cd)) => Ok((r3, (1 + ca + cb + cc + cd) as nat)),
                        },
                    }
                },
            },
        }
    } else {
        Ok((right, 0nat))
    }
}

/// The climb step of precedence climbing: while the lookahead is a binary
/// operator of precedence at least `min_precedence`, consume it, parse the
/// right-hand operand (letting it absorb tighter operators), and fold the
/// pair into `left`. Operators of equal precedence therefore associate to
/// the left.
pub open spec fn spec_parse_binary(
    toks: Seq<TokenView>,
    left: NodeView,
    i: nat,
    min_precedence: u32,
) -> Result<(NodeView, nat), ParseErrorView>
    decreases toks_left(toks, i), 3int,
{
    if i < toks.len() && toks[i as int].is_binary_operator() && toks[i as int].precedence()
        >= min_precedence {
        let op = toks[i as int];
        match spec_parse_unary(toks, (i + 1) as nat) {
            Err(e) => Err(e),
            Ok((r0, ca)) => match spec_parse_absorb(toks, r0, (i + 1 + ca) as nat, op.precedence()) {
                Err(e) => Err(e),
                Ok((right, cb)) => {
                    let combined = NodeView::BiExpr(Box::new(left), Box::new(right), op);
                    match spec_parse_binary(toks, combined, (i + 1 + ca + cb) as nat, min_precedence) {
                        Err(e) => Err(e),
                        Ok((res, cc)) => Ok((res, (1 + ca + cb + cc) as nat)),
                    }
                },
            },
        }
    } else {
        Ok((left, 0nat))
    }
}

/// What parsing a full expression at position `i` yields: one unary-or-primary
/// operand, then the precedence climb from the loosest level. Tokens after a
/// syntactically complete expression are left unconsumed.
pub open spec fn spec_parse_expr(toks: Seq<TokenView>, i: nat) -> Result<
    (NodeView, nat),
    ParseErrorView,
>
    decreases toks_left(toks, i), 4int,
{
    match spec_parse_unary(toks, i) {
        Err(e) => Err(e),
        Ok((l, c0)) => match spec_parse_binary(toks, l, (i + c0) as nat, 0u32) {
            Err(e) => Err(e),
            Ok((r, c1)) => Ok((r, (c0 + c1) as nat)),
        },
    }
}

/// Compares two character vectors element by element.
pub fn chars_eq(a: &Vec<char>, b: &Vec<char>) -> (r: bool)
    ensures
        r == (a@ == b@),
{
    if a.len() != b.len() {
        return false;
    }
    let mut i: usize = 0;
    while i < a.len()
        invariant
            a@.len() == b@.len(),
            i <= a@.len(),
            forall|k: int| 0 <= k < i ==> a@[k] == b@[k],
        decreases a@.len() - i,
    {
        if a[i] != b[i] {
            return false;
        }
        i = i + 1;
    }
    proof {
        assert(a@ =~= b@);
    }
    true
}

/// Structural equality of two tokens.
pub fn token_eq(a: &Token, b: &Token) -> (r: bool)
    ensures
        r == (a@ == b@),
{
    match (a, b) {
        (Token::Value(x), Token::Value(y)) => chars_eq(x, y),
        (Token::Name(x), Token::Name(y)) => chars_eq(x, y),
        (Token::Add, Token::Add) => true,
        (Token::Sub, Token::Sub) => true,
        (Token::Mul, Token::Mul) => true,
        (Token::Div, Token::Div) => true,
        (Token::Pow, Token::Pow) => true,
        (Token::Mod, Token::Mod) => true,
        (Token::BrOpen, Token::BrOpen) => true,
        (Token::BrClose, Token::BrClose) => true,
        (Token::End, Token::End) => true,
        _ => false,
    }
}

/// Pulls every remaining token out of the scanner, stopping at (and
/// excluding) the end marker and propagating the first scanning error.
fn tokenize_all(lexer: &mut Lexer) -> (r: Result<Vec<Token>, LexError>)
    ensures
        final(lexer).buffer@ == old(lexer).buffer@,
        match r {
            Ok(ts) => tokens_from(old(lexer).buffer@, old(lexer).offset as int) == Ok::<
                _,
                LexError,
            >(ts@.map_values(|t: Token| t@)),
            Err(e) => tokens_from(old(lexer).buffer@, old(lexer).offset as int) == Err::<
                Seq<TokenView>,
                _,
            >(e),
        },
    decreases lexer.buffer@.len() - lexer.offset,
{
    let ghost s = lexer.buffer@;
    let ghost i0 = lexer.offset as int;
    proof {
        crate::lexer::lemma_token_from_advances(s, i0);
    }
    match lexer.tokenize() {
        Err(e) => Err(e),
        Ok(t) => {
            if matches!(t, Token::End) {
                let out: Vec<Token> = Vec::new();
                proof {
                    assert(out@.map_values(|t2: Token| t2@) =~= Seq::<TokenView>::empty());
                }
                Ok(out)
            } else {
                match tokenize_all(lexer) {
                    Err(e) => Err(e),
                    Ok(rest) => {
                        let ghost restv = rest@;
                        let mut out = rest;
                        out.insert(0, t);
                        proof {
                            assert(out@.map_values(|t2: Token| t2@) =~= seq![t@]
                                + restv.map_values(|t2: Token| t2@));
                        }
                        Ok(out)
                    },
                }
            }
        },
    }
}

/// A forward-only cursor over the fully materialized token sequence.
pub struct Parser {
    pub tokens: Vec<Token>,
    pub offset: usize,
}

impl Parser {
    /// The token sequence as its mathematical picture.
    pub open spec fn toks(&self) -> Seq<TokenView> {
        self.tokens@.map_values(|t: Token| t@)
    }

    /// Drains the given scanner completely, stopping at (and excluding) the
    /// end marker and propagating the first scanning error.
    pub fn new(mut lexer: Lexer) -> (r: Result<Parser, LexError>)
        ensures
            match r {
                Ok(p) => {
                    &&& tokens_from(lexer.buffer@, lexer.offset as int) == Ok::<_, LexError>(
                        p.toks(),
                    )
                    &&& p.offset == 0
                },
                Err(e) => tokens_from(lexer.buffer@, lexer.offset as int) == Err::<
                    Seq<TokenView>,
                    _,
                >(e),
            },
    {
        match tokenize_all(&mut lexer) {
            Ok(tokens) => Ok(Parser { tokens, offset: 0 }),
            Err(e) => Err(e),
        }
    }

    /// Looks `offset` tokens ahead without consuming; past the end it yields
    /// the end marker.
    pub fn token_peek(&self, offset: usize) -> (r: Token)
        ensures
            r@ == peek_at(self.toks(), (self.offset + offset) as nat),
    {
        if self.offset < self.tokens.len() && offset < self.tokens.len() - self.offset {
            self.tokens[self.offset + offset].duplicate()
        } else {
            Token::End
        }
    }

    /// Consumes and returns the next token; past the end it yields the end
    /// marker and the cursor stays put, so the cursor never leaves the
    /// sequence.
    pub fn token_read(&mut self) -> (t: Token)
        ensures
            final(self).tokens@ == old(self).tokens@,
            t@ == peek_at(old(self).toks(), old(self).offset as nat),
            old(self).offset < old(self).tokens@.len() ==> final(self).offset == old(
                self,
            ).offset + 1,
            old(self).offset >= old(self).tokens@.len() ==> final(self).offset == old(
                self,
            ).offset,
    {
        if self.offset < self.tokens.len() {
            let t = self.tokens[self.offset].duplicate();
            self.offset = self.offset + 1;
            t
        } else {
            Token::End
        }
    }

    /// Consumes one token and checks that it is the expected one; a mismatch
    /// reports what was required and what stood in its place.
    pub fn token_expect(&mut self, expected: Token) -> (r: Result<Token, ParseError>)
        ensures
            final(self).tokens@ == old(self).tokens@,
            old(self).offset < old(self).tokens@.len() ==> final(self).offset == old(
                self,
            ).offset + 1,
            old(self).offset >= old(self).tokens@.len() ==> final(self).offset == old(
                self,
            ).offset,
            ({
                let t = peek_at(old(self).toks(), old(self).offset as nat);
                match r {
                    Ok(tk) => tk@ == t && t == expected@,
                    Err(e) => {
                        &&& t != expected@
                        &&& e@ == ParseErrorView::ExpectedToken {
                            expected: expected@,
                            found: t,
                        }
                    },
                }
            }),
    {
        let token = self.token_read();
        if token_eq(&token, &expected) {
            Ok(token)
        } else {
            Err(ParseError::ExpectedToken { expected, found: token })
        }
    }

    /// Parses one full expression: a unary-or-primary operand, then the
    /// precedence climb from the loosest level. Tokens after a complete
    /// expression are left unconsumed.
    pub fn parse(&mut self) -> (r: Result<Node, ParseError>)
        ensures
            final(self).tokens@ == old(self).tokens@,
            old(self).offset <= final(self).offset,
            match r {
                Ok(n) => {
                    &&& spec_parse_expr(old(self).toks(), old(self).offset as nat) == Ok::<
                        (NodeView, nat),
                        ParseErrorView,
                    >((n@, (final(self).offset - old(self).offset) as nat))
                    &&& node_wf(n@)
                },
                Err(e) => spec_parse_expr(old(self).toks(), old(self).offset as nat) == Err::<
                    (NodeView, nat),
                    ParseErrorView,
                >(e@),
            },
        decreases toks_left(self.toks(), self.offset as nat), 4int,
    {
        let left = match self.parse_unary() {
            Ok(n) => n,
            Err(e) => {
                return Err(e);
            },
        };
        self.parse_binary(left, 0)
    }

    /// The climb step: consumes operators of precedence at least
    /// `min_precedence` and folds each with its right-hand operand into
    /// `left`; equal precedence therefore associates to the left.
    pub fn parse_binary(&mut self, left: Node, min_precedence: u32) -> (r: Result<
        Node,
        ParseError,
    >)
        requires
            node_wf(left@),
        ensures
            final(self).tokens@ == old(self).tokens@,
            old(self).offset <= final(self).offset,
            match r {
                Ok(n) => {
                    &&& spec_parse_binary(
                        old(self).toks(),
                        left@,
                        old(self).offset as nat,
                        min_precedence,
                    ) == Ok::<(NodeView, nat), ParseErrorView>(
                        (n@, (final(self).offset - old(self).offset) as nat),
                    )
                    &&& node_wf(n@)
                },
                Err(e) => spec_parse_binary(
                    old(self).toks(),
                    left@,
                    old(self).offset as nat,
                    min_precedence,
                ) == Err::<(NodeView, nat), ParseErrorView>(e@),
            },
        decreases toks_left(self.toks(), self.offset as nat), 3int,
    {
        let lookahead = self.token_peek(0);
        if lookahead.is_binary_operator() && lookahead.get_precedence() >= min_precedence {
            let operator = self.token_read();
            let right0 = match self.parse_unary() {
                Ok(n) => n,
                Err(e) => {
                    return Err(e);
                },
            };
            let right = match self.parse_absorb(right0, operator.get_precedence()) {
                Ok(n) => n,
                Err(e) => {
                    return Err(e);
                },
            };
            let combined = Node::BiExpr(Box::new(left), Box::new(right), operator);
            self.parse_binary(combined, min_precedence)
        } else {
            Ok(left)
        }
    }

    /// The absorb step: while the lookahead operator binds strictly tighter
    /// than `p`, the right-hand operand grown so far absorbs that operator's
    /// whole climb. This is the inner lookahead loop of precedence climbing.
    pub fn parse_absorb(&mut self, right: Node, p: u32) -> (r: Result<Node, ParseError>)
        requires
            node_wf(right@),
        ensures
            final(self).tokens@ == old(self).tokens@,
            old(self).offset <= final(self).offset,
            match r {
                Ok(n) => {
                    &&& spec_parse_absorb(
                        old(self).toks(),
                        right@,
                        old(self).offset as nat,
                        p,
                    ) == Ok::<(NodeView, nat), ParseErrorView>(
                        (n@, (final(self).offset - old(self).offset) as nat),
                    )
                    &&& node_wf(n@)
                },
                Err(e) => spec_parse_absorb(
                    old(self).toks(),
                    right@,
                    old(self).offset as nat,
                    p,
                ) == Err::<(NodeView, nat), ParseErrorView>(e@),
            },
        decreases toks_left(self.toks(), self.offset as nat), 2int,
    {
        let lookahead = self.token_peek(0);
        if lookahead.is_binary_operator() && lookahead.get_precedence() > p {
            let operator = self.token_read();
            let q = operator.get_precedence();
            let r0 = match self.parse_unary() {
                Ok(n) => n,
                Err(e) => {
                    return Err(e);
                },
            };
            let right2 = match self.parse_absorb(r0, q) {
                Ok(n) => n,
                Err(e) => {
                    return Err(e);
                },
            };
            let combined = Node::BiExpr(Box::new(right), Box::new(right2), operator);
            let r2 = match self.parse_binary(combined, q) {
                Ok(n) => n,
                Err(e) => {
                    return Err(e);
                },
            };
            self.parse_absorb(r2, p)
        } else {
            Ok(right)
        }
    }

    /// Parses a unary-or-primary operand: a leading sign wraps one single
    /// primary — it does not recurse into another sign.
    pub fn parse_unary(&mut self) -> (r: Result<Node, ParseError>)
        ensures
            final(self).tokens@ == old(self).tokens@,
            old(self).offset <= final(self).offset,
            match r {
                Ok(n) => {
                    &&& spec_parse_unary(old(self).toks(), old(self).offset as nat) == Ok::<
                        (NodeView, nat),
                        ParseErrorView,
                    >((n@, (final(self).offset - old(self).offset) as nat))
                    &&& node_wf(n@)
                },
                Err(e) => spec_parse_unary(old(self).toks(), old(self).offset as nat) == Err::<
                    (NodeView, nat),
                    ParseErrorView,
                >(e@),
            },
        decreases toks_left(self.toks(), self.offset as nat), 1int,
    {
        let token = self.token_peek(0);
        if token.is_unary_operator() {
            let _consumed = self.token_read();
            let operand = match self.parse_primary() {
                Ok(n) => n,
                Err(e) => {
                    return Err(e);
                },
            };
            Ok(Node::UnExpr(Box::new(operand), token))
        } else {
            self.parse_primary()
        }
    }

    /// Parses one primary: a numeric literal, a parenthesized expression, or
    /// a function call that consumes exactly as many further primaries as the
    /// function's arity — arguments are primaries, never full expressions.
    pub fn parse_primary(&mut self) -> (r: Result<Node, ParseError>)
        ensures
            final(self).tokens@ == old(self).tokens@,
            old(self).offset <= final(self).offset,
            match r {
                Ok(n) => {
                    &&& spec_parse_primary(old(self).toks(), old(self).offset as nat) == Ok::<
                        (NodeView, nat),
                        ParseErrorView,
                    >((n@, (final(self).offset - old(self).offset) as nat))
                    &&& node_wf(n@)
                },
                Err(e) => spec_parse_primary(old(self).toks(), old(self).offset as nat)
                    == Err::<(NodeView, nat), ParseErrorView>(e@),
            },
        decreases toks_left(self.toks(), self.offset as nat), 0int,
    {
        let token = self.token_read();
        match token {
            Token::BrOpen => {
                let expr = match self.parse() {
                    Ok(n) => n,
                    Err(e) => {
                        return Err(e);
                    },
                };
                match self.token_expect(Token::BrClose) {
                    Ok(_closing) => Ok(expr),
                    Err(e) => Err(e),
                }
            },
            Token::Value(lit) => Ok(Node::Const(lit)),
            Token::Name(name) => {
                match arity_lookup(&name) {
                    None => Err(ParseError::UnknownFunction(name)),
                    Some(count) => {
                        if count == 0 {
                            Ok(Node::Call0(name))
                        } else if count == 1 {
                            let a = match self.parse_primary() {
                                Ok(n) => n,
                                Err(e) => {
                                    return Err(e);
                                },
                            };
                            Ok(Node::Call1(name, Box::new(a)))
                        } else if count == 2 {
                            let a = match self.parse_primary() {
                                Ok(n) => n,
                                Err(e) => {
                                    return Err(e);
                                },
                            };
                            let b = match self.parse_primary() {
                                Ok(n) => n,
                                Err(e) => {
                                    return Err(e);
                                },
                            };
                            Ok(Node::Call2(name, Box::new(a), Box::new(b)))
                        } else {
                            // The table holds no arity above two.
                            Err(ParseError::UnknownFunction(name))
                        }
                    },
                }
            },
            other => Err(ParseError::UnexpectedToken(other)),
        }
    }
}

} // verus!

