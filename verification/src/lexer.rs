use vstd::prelude::*;
use crate::token::{Token, TokenView};

verus! {

/// A fault met while scanning characters.
#[derive(Debug, PartialEq, Eq, Clone, Copy)]
pub enum LexError {
    /// A character outside the recognized set.
    UnexpectedCharacter(char),
    /// A read ran past the buffer where more input was structurally required.
    UnexpectedEndOfInput,
    /// A scanned literal cannot be turned into a number. The scanner itself
    /// never produces such a literal; the variant exists for the caller that
    /// converts literal text into machine numbers.
    MalformedNumber,
}

/// Whitespace skipped between tokens: the characters with Unicode's
/// white-space property, as std documents them.
pub open spec fn is_ws_char(c: char) -> bool {
    ||| c == ' '
    ||| c == '\t'
    ||| c == '\n'
    ||| c as u32 == 0x0B
    ||| c as u32 == 0x0C
    ||| c == '\r'
    ||| c as u32 == 0x85
    ||| c as u32 == 0xA0
    ||| c as u32 == 0x1680
    ||| (0x2000 <= c as u32 && c as u32 <= 0x200A)
    ||| c as u32 == 0x2028
    ||| c as u32 == 0x2029
    ||| c as u32 == 0x202F
    ||| c as u32 == 0x205F
    ||| c as u32 == 0x3000
}

/// An ASCII decimal digit.
pub open spec fn is_digit_char(c: char) -> bool {
    48 <= c as u32 && c as u32 <= 57
}

/// An ASCII letter; identifiers are made of these alone.
pub open spec fn is_alpha_char(c: char) -> bool {
    (97 <= c as u32 && c as u32 <= 122) || (65 <= c as u32 && c as u32 <= 90)
}

pub fn ws_char(c: char) -> (r: bool)
    ensures
        r == is_ws_char(c),
{
    let u = c as u32;
    u == 0x20 || u == 0x09 || u == 0x0A || u == 0x0B || u == 0x0C || u == 0x0D || u == 0x85
        || u == 0xA0 || u == 0x1680 || (0x2000 <= u && u <= 0x200A) || u == 0x2028
        || u == 0x2029 || u == 0x202F || u == 0x205F || u == 0x3000
}

pub fn digit_char(c: char) -> (r: bool)
    ensures
        r == is_digit_char(c),
{
    let u = c as u32;
    48 <= u && u <= 57
}

pub fn alpha_char(c: char) -> (r: bool)
    ensures
        r == is_alpha_char(c),
{
    let u = c as u32;
    (97 <= u && u <= 122) || (65 <= u && u <= 90)
}

/// First position at or after `i` that does not hold whitespace.
pub open spec fn ws_end(s: Seq<char>, i: int) -> int
    decreases s.len() - i,
{
    if 0 <= i && i < s.len() && is_ws_char(s[i]) {
        ws_end(s, i + 1)
    } else {
        i
    }
}

/// End of a numeric literal scanned from `i`: digits and at most one point,
/// greedily; a second point ends the literal without being consumed.
/// `seen_point` records whether a point was already consumed.
pub open spec fn num_end(s: Seq<char>, i: int, seen_point: bool) -> int
    decreases s.len() - i,
{
    if 0 <= i && i < s.len() {
        if s[i] == '.' {
            if seen_point {
                i
            } else {
                num_end(s, i + 1, true)
            }
        } else if is_digit_char(s[i]) {
            num_end(s, i + 1, seen_point)
        } else {
            i
        }
    } else {
        i
    }
}

/// End of an identifier scanned from `i`: letters, greedily.
pub open spec fn ident_end(s: Seq<char>, i: int) -> int
    decreases s.len() - i,
{
    if 0 <= i && i < s.len() && is_alpha_char(s[i]) {
        ident_end(s, i + 1)
    } else {
        i
    }
}

pub proof fn lemma_ws_end_bounds(s: Seq<char>, i: int)
    requires
        0 <= i <= s.len(),
    ensures
        i <= ws_end(s, i) <= s.len(),
    decreases s.len() - i,
{
    if i < s.len() && is_ws_char(s[i]) {
        lemma_ws_end_bounds(s, i + 1);
    }
}

pub proof fn lemma_num_end_bounds(s: Seq<char>, i: int, seen_point: bool)
    requires
        0 <= i <= s.len(),
    ensures
        i <= num_end(s, i, seen_point) <= s.len(),
    decreases s.len() - i,
{
    if i < s.len() {
        if s[i] == '.' && !seen_point {
            lemma_num_end_bounds(s, i + 1, true);
        } else if is_digit_char(s[i]) {
            lemma_num_end_bounds(s, i + 1, seen_point);
        }
    }
}

pub proof fn lemma_ident_end_bounds(s: Seq<char>, i: int)
    requires
        0 <= i <= s.len(),
    ensures
        i <= ident_end(s, i) <= s.len(),
    decreases s.len() - i,
{
    if i < s.len() && is_alpha_char(s[i]) {
        lemma_ident_end_bounds(s, i + 1);
    }
}

/// Shape of a scanned numeric literal: at least one character, a digit
/// first, then only digits and at most one point. Every such text is a
/// readable floating-point literal, so a scanned literal never fails the
/// later conversion into a machine number.
pub open spec fn literal_wf(lit: Seq<char>) -> bool {
    &&& lit.len() >= 1
    &&& is_digit_char(lit[0])
    &&& forall|k: int|
        1 <= k < lit.len() ==> is_digit_char(#[trigger] lit[k]) || lit[k] == '.'
    &&& forall|k1: int, k2: int|
        0 <= k1 < k2 < lit.len() && (#[trigger] lit[k1]) == '.' ==> (#[trigger] lit[k2]) != '.'
}

/// Everything a numeric scan passes over is a digit or a point, a point only
/// where none was seen before it.
pub proof fn lemma_num_scan_shape(s: Seq<char>, i: int, seen_point: bool)
    requires
        0 <= i <= s.len(),
    ensures
        ({
            let e = num_end(s, i, seen_point);
            &&& forall|k: int|
                i <= k < e ==> is_digit_char(#[trigger] s[k]) || s[k] == '.'
            &&& (seen_point ==> forall|k: int| i <= k < e ==> (#[trigger] s[k]) != '.')
            &&& forall|k1: int, k2: int|
                i <= k1 < k2 < e && (#[trigger] s[k1]) == '.' ==> (#[trigger] s[k2]) != '.'
        }),
    decreases s.len() - i,
{
    if i < s.len() {
        if s[i] == '.' && !seen_point {
            lemma_num_scan_shape(s, i + 1, true);
        } else if is_digit_char(s[i]) {
            lemma_num_scan_shape(s, i + 1, seen_point);
        }
    }
}

/// What one scanning step yields from position `i`: the token or error, and
/// the position where scanning resumes afterwards. Whitespace is skipped
/// first; the buffer's end yields `End` without moving further.
pub open spec fn token_from(s: Seq<char>, i: int) -> (Result<TokenView, LexError>, int) {
    let j = ws_end(s, i);
    if j >= s.len() {
        (Ok(TokenView::End), j)
    } else {
        let c = s[j];
        if is_digit_char(c) {
            let e = num_end(s, j + 1, false);
            (Ok(TokenView::Value(s.subrange(j, e))), e)
        } else if is_alpha_char(c) {
            let e = ident_end(s, j + 1);
            (Ok(TokenView::Name(s.subrange(j, e))), e)
        } else if c == '+' {
            (Ok(TokenView::Add), j + 1)
        } else if c == '-' {
            (Ok(TokenView::Sub), j + 1)
        } else if c == '*' {
            (Ok(TokenView::Mul), j + 1)
        } else if c == '/' {
            (Ok(TokenView::Div), j + 1)
        } else if c == '^' {
            (Ok(TokenView::Pow), j + 1)
        } else if c == '%' {
            (Ok(TokenView::Mod), j + 1)
        } else if c == '(' {
            (Ok(TokenView::BrOpen), j + 1)
        } else if c == ')' {
            (Ok(TokenView::BrClose), j + 1)
        } else {
            (Err(LexError::UnexpectedCharacter(c)), j + 1)
        }
    }
}

/// Scanning moves forward: the resume position never precedes `i`, and it
/// stays within the buffer (and strictly advances) whenever the step yields
/// anything other than the end marker.
pub proof fn lemma_token_from_advances(s: Seq<char>, i: int)
    requires
        0 <= i,
    ensures
        ({
            let (res, j) = token_from(s, i);
            &&& i <= j
            &&& match res {
                Ok(t) => t is End || (i < j && j <= s.len()),
                Err(_) => i < j && j <= s.len(),
            }
        }),
{
    if i <= s.len() {
        lemma_ws_end_bounds(s, i);
        let w = ws_end(s, i);
        if w < s.len() {
            lemma_num_end_bounds(s, w + 1, false);
            lemma_ident_end_bounds(s, w + 1);
        }
    }
}

/// The full token sequence from position `i` to the end marker, or the first
/// scanning error. The end marker itself is not part of the sequence.
pub open spec fn tokens_from(s: Seq<char>, i: int) -> Result<Seq<TokenView>, LexError>
    decreases s.len() - i,
{
    let (res, j) = token_from(s, i);
    match res {
        Err(e) => Err(e),
        Ok(t) => {
            if t is End {
                Ok(Seq::empty())
            } else if 0 <= i && i < j && j <= s.len() {
                match tokens_from(s, j) {
                    Err(e) => Err(e),
                    Ok(rest) => Ok(seq![t] + rest),
                }
            } else {
                // Never reached: a step that yields a real token advances
                // within the buffer.
                Ok(seq![t])
            }
        },
    }
}

/// A forward-only cursor over an immutable line of characters.
pub struct Lexer {
    pub buffer: Vec<char>,
    pub offset: usize,
}

impl Lexer {
    pub fn new(input: Vec<char>) -> (r: Lexer)
        ensures
            r.buffer@ == input@,
            r.offset == 0,
    {
        Lexer { buffer: input, offset: 0 }
    }

    /// Looks `offset` characters ahead without consuming anything. Peeking
    /// past the end of the buffer is an error, distinct from a clean end.
    pub fn char_peek(&self, offset: usize) -> (r: Result<char, LexError>)
        ensures
            match r {
                Ok(c) => {
                    &&& self.offset + offset < self.buffer@.len()
                    &&& c == self.buffer@[self.offset + offset]
                },
                Err(e) => {
                    &&& self.offset + offset >= self.buffer@.len()
                    &&& e == LexError::UnexpectedEndOfInput
                },
            },
    {
        if self.offset < self.buffer.len() && offset < self.buffer.len() - self.offset {
            Ok(self.buffer[self.offset + offset])
        } else {
            Err(LexError::UnexpectedEndOfInput)
        }
    }

    /// Consumes and returns the next character; the cursor never moves
    /// backward, and does not move at all past the end of the buffer.
    pub fn char_read(&mut self) -> (r: Result<char, LexError>)
        ensures
            final(self).buffer@ == old(self).buffer@,
            match r {
                Ok(c) => {
                    &&& old(self).offset < old(self).buffer@.len()
                    &&& c == old(self).buffer@[old(self).offset as int]
                    &&& final(self).offset == old(self).offset + 1
                },
                Err(e) => {
                    &&& old(self).offset >= old(self).buffer@.len()
                    &&& final(self).offset == old(self).offset
                    &&& e == LexError::UnexpectedEndOfInput
                },
            },
    {
        let len = self.buffer.len();
        match self.char_peek(0) {
            Ok(c) => {
                proof {
                    assert(self.offset < len);
                }
                self.offset = self.offset + 1;
                Ok(c)
            },
            Err(e) => Err(e),
        }
    }

    /// One scanning step: skips whitespace, then yields the next token, the
    /// end marker at the end of the buffer, or the error the leading
    /// character forces. Matches `token_from` exactly.
    pub fn tokenize(&mut self) -> (r: Result<Token, LexError>)
        ensures
            final(self).buffer@ == old(self).buffer@,
            ({
                let (res, j) = token_from(old(self).buffer@, old(self).offset as int);
                &&& final(self).offset as int == j
                &&& match (r, res) {
                    (Ok(t), Ok(tv)) => t@ == tv,
                    (Err(e1), Err(e2)) => e1 == e2,
                    _ => false,
                }
            }),
    {
        let ghost s = self.buffer@;
        let ghost i0 = self.offset as int;

        // Skip whitespace.
        while self.offset < self.buffer.len() && ws_char(self.buffer[self.offset])
            invariant
                self.buffer@ == s,
                0 <= self.offset,
                ws_end(s, i0) == ws_end(s, self.offset as int),
            decreases s.len() - self.offset,
        {
            self.offset = self.offset + 1;
        }
        proof {
            assert(ws_end(s, self.offset as int) == self.offset as int);
        }

        if self.offset >= self.buffer.len() {
            return Ok(Token::End);
        }

        let c = self.buffer[self.offset];
        let start = self.offset;

        if digit_char(c) {
            self.offset = self.offset + 1;
            let mut seen_point = false;
            while self.offset < self.buffer.len() && (digit_char(self.buffer[self.offset])
                || (self.buffer[self.offset] == '.' && !seen_point))
                invariant
                    self.buffer@ == s,
                    start < self.offset,
                    self.offset <= s.len(),
                    num_end(s, start + 1, false) == num_end(s, self.offset as int, seen_point),
                decreases s.len() - self.offset,
            {
                if self.buffer[self.offset] == '.' {
                    seen_point = true;
                }
                self.offset = self.offset + 1;
            }
            proof {
                assert(num_end(s, self.offset as int, seen_point) == self.offset as int);
            }
            let lit = chars_range(&self.buffer, start, self.offset);
            return Ok(Token::Value(lit));
        }

        if alpha_char(c) {
            self.offset = self.offset + 1;
            while self.offset < self.buffer.len() && alpha_char(self.buffer[self.offset])
                invariant
                    self.buffer@ == s,
                    start < self.offset,
                    self.offset <= s.len(),
                    ident_end(s, start + 1) == ident_end(s, self.offset as int),
                decreases s.len() - self.offset,
            {
                self.offset = self.offset + 1;
            }
            let name = chars_range(&self.buffer, start, self.offset);
            return Ok(Token::Name(name));
        }

        self.offset = self.offset + 1;
        if c == '+' {
            Ok(Token::Add)
        } else if c == '-' {
            Ok(Token::Sub)
        } else if c == '*' {
            Ok(Token::Mul)
        } else if c == '/' {
            Ok(Token::Div)
        } else if c == '^' {
            Ok(Token::Pow)
        } else if c == '%' {
            Ok(Token::Mod)
        } else if c == '(' {
            Ok(Token::BrOpen)
        } else if c == ')' {
            Ok(Token::BrClose)
        } else {
            Err(LexError::UnexpectedCharacter(c))
        }
    }
}

/// Copies the characters of `v` between positions `a` and `b`.
pub fn chars_range(v: &Vec<char>, a: usize, b: usize) -> (r: Vec<char>)
    requires
        a <= b <= v@.len(),
    ensures
        r@ == v@.subrange(a as int, b as int),
{
    let mut out: Vec<char> = Vec::new();
    let mut i: usize = a;
    while i < b
        invariant
            a <= i <= b <= v@.len(),
            out@ == v@.subrange(a as int, i as int),
        decreases b - i,
    {
        out.push(v[i]);
        proof {
            assert(v@.subrange(a as int, i as int).push(v@[i as int]) =~= v@.subrange(
                a as int,
                i as int + 1,
            ));
        }
        i = i + 1;
    }
    out
}

} // verus!
