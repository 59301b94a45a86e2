//! The grammar's alphabet: terminals, non-terminals and semantic actions.
use vstd::prelude::*;

verus! {

/// A token class. A number's value does not belong to the terminal: it
/// travels beside it, so two numbers are the same terminal.
#[derive(PartialEq, Eq, Structural, Clone, Copy, Debug)]
pub enum Terminal {
    OpenParen,
    CloseParen,
    Number,
    Plus,
    Minus,
    Times,
    Divide,
    Newline,
    EndOfInput,
}

/// A syntactic category that is still to be expanded.
#[derive(PartialEq, Eq, Structural, Clone, Copy, Debug)]
pub enum NonTerminal {
    Start,
    Expr,
    ExprTail,
    Term,
    TermTail,
    Factor,
    Line,
}

/// A unit of deferred computation on the value stack.
#[derive(PartialEq, Eq, Structural, Clone, Copy, Debug)]
pub enum Action {
    Negate,
    Add,
    Subtract,
    Multiply,
    Divide,
    PushOperand,
    PrintResult,
}

/// An entry of the parse stack.
#[derive(PartialEq, Eq, Structural, Clone, Copy, Debug)]
pub enum Symbol {
    Terminal(Terminal),
    NonTerminal(NonTerminal),
    Action(Action),
}

} // verus!
