//! An arithmetic expression reader: a scanner that turns a line of characters
//! into tokens, and a precedence-climbing parser that turns the tokens into an
//! expression tree. Numeric literals travel as their source text; turning them
//! into machine numbers, and evaluating the tree, is left to the caller.

pub mod ast;
pub mod laws;
pub mod lexer;
pub mod parser;
pub mod table;
pub mod token;

use vstd::prelude::*;
use vstd::std_specs::iter::IteratorSpec;
use crate::ast::{Node, NodeView, node_wf};
use crate::lexer::{LexError, Lexer, tokens_from};
use crate::parser::{ParseError, ParseErrorView, Parser, spec_parse_expr};

verus! {

/// A fault met anywhere on the way from characters to a tree.
#[derive(Debug, PartialEq)]
pub enum ReadError {
    Lex(LexError),
    Parse(ParseError),
}

/// Mathematical picture of a read fault.
pub enum ReadErrorView {
    Lex(LexError),
    Parse(ParseErrorView),
}

impl View for ReadError {
    type V = ReadErrorView;

    open spec fn view(&self) -> ReadErrorView {
        match self {
            ReadError::Lex(e) => ReadErrorView::Lex(*e),
            ReadError::Parse(e) => ReadErrorView::Parse(e@),
        }
    }
}

/// What reading one line yields: scan all tokens, then parse one expression
/// from the front. The first fault of either stage is the result; tokens
/// after a syntactically complete expression are ignored.
pub open spec fn read_result(s: Seq<char>) -> Result<NodeView, ReadErrorView> {
    match tokens_from(s, 0) {
        Err(e) => Err(ReadErrorView::Lex(e)),
        Ok(toks) => match spec_parse_expr(toks, 0) {
            Err(e) => Err(ReadErrorView::Parse(e)),
            Ok((n, c)) => Ok(n),
        },
    }
}

/// Reads one line of characters into an expression tree, or reports the
/// first fault met. The result is a function of the characters alone: two
/// calls on equal input yield equal results.
pub fn read(input: Vec<char>) -> (r: Result<Node, ReadError>)
    ensures
        match r {
            Ok(n) => read_result(input@) == Ok::<_, ReadErrorView>(n@) && node_wf(n@),
            Err(e) => read_result(input@) == Err::<NodeView, _>(e@),
        },
{
    let lexer = Lexer::new(input);
    let mut parser = match Parser::new(lexer) {
        Ok(p) => p,
        Err(e) => {
            return Err(ReadError::Lex(e));
        },
    };
    match parser.parse() {
        Ok(n) => Ok(n),
        Err(e) => Err(ReadError::Parse(e)),
    }
}

/// Reads one line given as string text; the same contract as `read`, over
/// the string's characters.
pub fn read_str(input: &str) -> (r: Result<Node, ReadError>)
    ensures
        match r {
            Ok(n) => read_result(input@) == Ok::<_, ReadErrorView>(n@) && node_wf(n@),
            Err(e) => read_result(input@) == Err::<NodeView, _>(e@),
        },
{
    broadcast use vstd::string::axiom_spec_iter, vstd::string::next_postcondition;

    let mut rest = input.chars();
    let mut buf: Vec<char> = Vec::new();
    proof {
        assert(buf@ + rest.remaining() =~= input@);
    }
    loop
        invariant
            buf@ + rest.remaining() == input@,
            rest.decrease() is Some,
        decreases rest.decrease()->0,
    {
        let ghost before = rest;
        match rest.next() {
            Some(c) => {
                proof {
                    assert(buf@.push(c) + rest.remaining() =~= buf@ + before.remaining());
                }
                buf.push(c);
            },
            None => {
                proof {
                    assert(buf@ + rest.remaining() =~= buf@);
                    assert(buf@ =~= input@);
                }
                return read(buf);
            },
        }
    }
}

} // verus!
