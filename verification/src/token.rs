use vstd::prelude::*;

verus! {

/// Mathematical picture of a lexical token: numeric literals and identifier
/// names appear as character sequences, every other token is a bare tag.
pub enum TokenView {
    Value(Seq<char>),
    Name(Seq<char>),
    Add,
    Sub,
    Mul,
    Div,
    Pow,
    Mod,
    BrOpen,
    BrClose,
    End,
}

impl TokenView {
    /// A numeric literal.
    pub open spec fn is_value(self) -> bool {
        self is Value
    }

    /// An identifier.
    pub open spec fn is_name(self) -> bool {
        self is Name
    }

    /// A token usable as a unary (sign) operator.
    pub open spec fn is_unary_operator(self) -> bool {
        self is Add || self is Sub
    }

    /// A token usable as a binary operator.
    pub open spec fn is_binary_operator(self) -> bool {
        self is Add || self is Sub || self is Mul || self is Div || self is Pow || self is Mod
    }

    /// Binding strength of a binary operator: the additive tier is 1, the
    /// multiplicative tier (including power and modulo) is 2. Tokens that are
    /// not operators are mapped to 0; nothing relies on that value.
    pub open spec fn precedence(self) -> u32 {
        match self {
            TokenView::Add => 1u32,
            TokenView::Sub => 1u32,
            TokenView::Mul => 2u32,
            TokenView::Div => 2u32,
            TokenView::Pow => 2u32,
            TokenView::Mod => 2u32,
            _ => 0u32,
        }
    }
}

/// One lexical token. Numeric literals carry their exact source text, so that
/// the caller that finally turns them into machine numbers sees precisely the
/// characters that were scanned.
#[derive(Debug, PartialEq)]
pub enum Token {
    Value(Vec<char>),
    Name(Vec<char>),
    Add,
    Sub,
    Mul,
    Div,
    Pow,
    Mod,
    BrOpen,
    BrClose,
    End,
}

impl View for Token {
    type V = TokenView;

    open spec fn view(&self) -> TokenView {
        match self {
            Token::Value(lit) => TokenView::Value(lit@),
            Token::Name(name) => TokenView::Name(name@),
            Token::Add => TokenView::Add,
            Token::Sub => TokenView::Sub,
            Token::Mul => TokenView::Mul,
            Token::Div => TokenView::Div,
            Token::Pow => TokenView::Pow,
            Token::Mod => TokenView::Mod,
            Token::BrOpen => TokenView::BrOpen,
            Token::BrClose => TokenView::BrClose,
            Token::End => TokenView::End,
        }
    }
}

/// Copies a character vector element by element.
pub fn copy_chars(v: &Vec<char>) -> (r: Vec<char>)
    ensures
        r@ == v@,
{
    let mut out: Vec<char> = Vec::new();
    let mut i: usize = 0;
    while i < v.len()
        invariant
            i <= v@.len(),
            out@ == v@.subrange(0, i as int),
        decreases v@.len() - i,
    {
        out.push(v[i]);
        proof {
            assert(v@.subrange(0, i as int).push(v@[i as int]) =~= v@.subrange(0, i as int + 1));
        }
        i = i + 1;
    }
    proof {
        assert(v@.subrange(0, v@.len() as int) =~= v@);
    }
    out
}

impl Token {
    /// The literal text of a numeric token. Callers check `is_value` first,
    /// so the question is always answerable; no panic is reachable.
    pub fn as_value(&self) -> (r: Vec<char>)
        requires
            self@.is_value(),
        ensures
            self@ == TokenView::Value(r@),
    {
        match self {
            Token::Value(lit) => copy_chars(lit),
            _ => Vec::new(),
        }
    }

    /// The text of an identifier token. Callers check `is_name` first, so
    /// the question is always answerable; no panic is reachable.
    pub fn as_name(&self) -> (r: Vec<char>)
        requires
            self@.is_name(),
        ensures
            self@ == TokenView::Name(r@),
    {
        match self {
            Token::Name(name) => copy_chars(name),
            _ => Vec::new(),
        }
    }

    pub fn is_value(&self) -> (r: bool)
        ensures
            r == self@.is_value(),
    {
        matches!(self, Token::Value(_))
    }

    pub fn is_name(&self) -> (r: bool)
        ensures
            r == self@.is_name(),
    {
        matches!(self, Token::Name(_))
    }

    pub fn is_unary_operator(&self) -> (r: bool)
        ensures
            r == self@.is_unary_operator(),
    {
        matches!(self, Token::Add | Token::Sub)
    }

    pub fn is_binary_operator(&self) -> (r: bool)
        ensures
            r == self@.is_binary_operator(),
    {
        matches!(
            self,
            Token::Add | Token::Sub | Token::Mul | Token::Div | Token::Pow | Token::Mod
        )
    }

    /// Binding strength of an operator token. The parser only asks after it
    /// has checked `is_binary_operator`, so the question is always answerable.
    pub fn get_precedence(&self) -> (r: u32)
        requires
            self@.is_binary_operator(),
        ensures
            r == self@.precedence(),
    {
        match self {
            Token::Add | Token::Sub => 1,
            _ => 2,
        }
    }

    /// Structural copy of a token; the copy carries the same view.
    pub fn duplicate(&self) -> (r: Token)
        ensures
            r@ == self@,
    {
        match self {
            Token::Value(lit) => Token::Value(copy_chars(lit)),
            Token::Name(name) => Token::Name(copy_chars(name)),
            Token::Add => Token::Add,
            Token::Sub => Token::Sub,
            Token::Mul => Token::Mul,
            Token::Div => Token::Div,
            Token::Pow => Token::Pow,
            Token::Mod => Token::Mod,
            Token::BrOpen => Token::BrOpen,
            Token::BrClose => Token::BrClose,
            Token::End => Token::End,
        }
    }
}

} // verus!
