//! Turns characters into terminals, one token per call.
//!
//! Blanks (space, tab) are skipped; a run of ASCII digits is one number; the
//! end of the input is reported as `EndOfInput`, again on every later call.
//! Any other character that is not an operator, a parenthesis or a newline
//! is reported as unrecognized, which the engine treats as a syntax error.
use vstd::prelude::*;

use crate::symbol::Terminal;

verus! {

/// One token: its terminal (`None` for an unrecognized character) and, for
/// a number, its digits as written.
#[derive(Debug, PartialEq, Eq)]
pub struct Lexeme {
    pub terminal: Option<Terminal>,
    pub digits: Vec<u8>,
}

pub open spec fn is_blank(c: u8) -> bool {
    c == 32 || c == 9
}

pub open spec fn is_digit(c: u8) -> bool {
    48 <= c <= 57
}

/// The terminal of a character that stands alone.
pub open spec fn single(c: u8) -> Option<Terminal> {
    if c == 10 {
        Some(Terminal::Newline)
    } else if c == 43 {
        Some(Terminal::Plus)
    } else if c == 45 {
        Some(Terminal::Minus)
    } else if c == 42 {
        Some(Terminal::Times)
    } else if c == 47 {
        Some(Terminal::Divide)
    } else if c == 40 {
        Some(Terminal::OpenParen)
    } else if c == 41 {
        Some(Terminal::CloseParen)
    } else {
        None
    }
}

/// The first position at or after `i` that holds no blank.
pub open spec fn skip_blanks(s: Seq<u8>, i: int) -> int
    decreases s.len() - i,
{
    if 0 <= i < s.len() && is_blank(s[i]) {
        skip_blanks(s, i + 1)
    } else {
        i
    }
}

/// The first position at or after `i` that holds no digit.
pub open spec fn digits_end(s: Seq<u8>, i: int) -> int
    decreases s.len() - i,
{
    if 0 <= i < s.len() && is_digit(s[i]) {
        digits_end(s, i + 1)
    } else {
        i
    }
}

/// The token that starts at `pos`: its terminal, its digits, and the
/// position just after it.
pub open spec fn token_at(s: Seq<u8>, pos: int) -> (Option<Terminal>, Seq<u8>, int) {
    let i = skip_blanks(s, pos);
    if i >= s.len() {
        (Some(Terminal::EndOfInput), Seq::empty(), i)
    } else if is_digit(s[i]) {
        let j = digits_end(s, i);
        (Some(Terminal::Number), s.subrange(i, j), j)
    } else {
        (single(s[i]), Seq::empty(), i + 1)
    }
}

proof fn lemma_skip_blanks(s: Seq<u8>, i: int)
    requires
        0 <= i <= s.len(),
    ensures
        i <= skip_blanks(s, i) <= s.len(),
        skip_blanks(s, i) < s.len() ==> !is_blank(s[skip_blanks(s, i)]),
    decreases s.len() - i,
{
    if i < s.len() && is_blank(s[i]) {
        lemma_skip_blanks(s, i + 1);
    }
}

proof fn lemma_digits_end(s: Seq<u8>, i: int)
    requires
        0 <= i <= s.len(),
    ensures
        i <= digits_end(s, i) <= s.len(),
        forall|k: int| i <= k < digits_end(s, i) ==> is_digit(#[trigger] s[k]),
    decreases s.len() - i,
{
    if i < s.len() && is_digit(s[i]) {
        lemma_digits_end(s, i + 1);
    }
}

/// Reads the token that starts at `pos` and returns it with the position
/// just after it. At the end of the input the position stays where it is.
pub fn lex(input: &[u8], pos: usize) -> (r: (Lexeme, usize))
    requires
        pos <= input@.len(),
    ensures
        (r.0.terminal, r.0.digits@, r.1 as int) == token_at(input@, pos as int),
        r.1 <= input@.len(),
        r.0.terminal != Some(Terminal::EndOfInput) ==> pos < r.1,
        r.0.terminal == Some(Terminal::EndOfInput) ==> r.1 == input@.len(),
        r.0.terminal == Some(Terminal::Number) ==> r.0.digits@.len() > 0
            && forall|k: int| 0 <= k < r.0.digits@.len() ==> is_digit(#[trigger] r.0.digits@[k]),
{
    let mut i: usize = pos;
    while i < input.len() && (input[i] == 32 || input[i] == 9)
        invariant
            pos <= i <= input@.len(),
            skip_blanks(input@, pos as int) == skip_blanks(input@, i as int),
        decreases input@.len() - i,
    {
        i = i + 1;
    }
    proof {
        lemma_skip_blanks(input@, i as int);
    }
    if i >= input.len() {
        return (Lexeme { terminal: Some(Terminal::EndOfInput), digits: Vec::new() }, i);
    }
    let c = input[i];
    if 48 <= c && c <= 57 {
        let mut digits: Vec<u8> = Vec::new();
        let mut j: usize = i;
        while j < input.len() && 48 <= input[j] && input[j] <= 57
            invariant
                i <= j <= input@.len(),
                digits_end(input@, i as int) == digits_end(input@, j as int),
                digits@ == input@.subrange(i as int, j as int),
            decreases input@.len() - j,
        {
            digits.push(input[j]);
            j = j + 1;
            assert(digits@ =~= input@.subrange(i as int, j as int));
        }
        proof {
            lemma_digits_end(input@, i as int);
        }
        return (Lexeme { terminal: Some(Terminal::Number), digits }, j);
    }
    let terminal = if c == 10 {
        Some(Terminal::Newline)
    } else if c == 43 {
        Some(Terminal::Plus)
    } else if c == 45 {
        Some(Terminal::Minus)
    } else if c == 42 {
        Some(Terminal::Times)
    } else if c == 47 {
        Some(Terminal::Divide)
    } else if c == 40 {
        Some(Terminal::OpenParen)
    } else if c == 41 {
        Some(Terminal::CloseParen)
    } else {
        None
    };
    (Lexeme { terminal, digits: Vec::new() }, i + 1)
}

} // verus!
