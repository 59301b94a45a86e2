//! The calculator's LL(1) grammar, as a table from (lookahead, pending
//! non-terminal) to the right-hand side that replaces the non-terminal.
//!
//! ```text
//! Start    -> Line Start | (nothing, at end of input)
//! Line     -> Expr PrintResult NL | NL
//! Expr     -> Term ExprTail
//! ExprTail -> + Term Add ExprTail | - Term Subtract ExprTail | (nothing)
//! Term     -> Factor TermTail
//! TermTail -> * Factor Multiply TermTail | / Factor Divide TermTail | (nothing)
//! Factor   -> NUMBER PushOperand | ( Expr ) | - Factor Negate
//! ```
//!
//! Each operator's action stands between its right operand and the rest of
//! the tail, so the right-recursive tails still fold from the left.
use vstd::prelude::*;

use crate::symbol::{Action, NonTerminal, Symbol, Terminal};

verus! {

/// The grammar table: the right-hand side, leftmost symbol first, chosen for
/// non-terminal `n` when `t` is the lookahead; `None` where no production
/// applies, which is a syntax error.
pub open spec fn table(t: Terminal, n: NonTerminal) -> Option<Seq<Symbol>> {
    match (t, n) {
        (Terminal::CloseParen, NonTerminal::ExprTail) => Some(seq![]),
        (Terminal::CloseParen, NonTerminal::TermTail) => Some(seq![]),
        (Terminal::Divide, NonTerminal::TermTail) => Some(seq![
                Symbol::Terminal(Terminal::Divide),
                Symbol::NonTerminal(NonTerminal::Factor),
                Symbol::Action(Action::Divide),
                Symbol::NonTerminal(NonTerminal::TermTail),
            ]),
        (Terminal::EndOfInput, NonTerminal::Start) => Some(seq![]),
        (Terminal::Minus, NonTerminal::Expr) => Some(seq![Symbol::NonTerminal(NonTerminal::Term), Symbol::NonTerminal(NonTerminal::ExprTail)]),
        (Terminal::Minus, NonTerminal::ExprTail) => Some(seq![
                Symbol::Terminal(Terminal::Minus),
                Symbol::NonTerminal(NonTerminal::Term),
                Symbol::Action(Action::Subtract),
                Symbol::NonTerminal(NonTerminal::ExprTail),
            ]),
        (Terminal::Minus, NonTerminal::Factor) => Some(seq![
                Symbol::Terminal(Terminal::Minus),
                Symbol::NonTerminal(NonTerminal::Factor),
                Symbol::Action(Action::Negate),
            ]),
        (Terminal::Minus, NonTerminal::Line) => Some(seq![
                Symbol::NonTerminal(NonTerminal::Expr),
                Symbol::Action(Action::PrintResult),
                Symbol::Terminal(Terminal::Newline),
            ]),
        (Terminal::Minus, NonTerminal::Start) => Some(seq![Symbol::NonTerminal(NonTerminal::Line), Symbol::NonTerminal(NonTerminal::Start)]),
        (Terminal::Minus, NonTerminal::Term) => Some(seq![Symbol::NonTerminal(NonTerminal::Factor), Symbol::NonTerminal(NonTerminal::TermTail)]),
        (Terminal::Minus, NonTerminal::TermTail) => Some(seq![]),
        (Terminal::Newline, NonTerminal::ExprTail) => Some(seq![]),
        (Terminal::Newline, NonTerminal::Line) => Some(seq![Symbol::Terminal(Terminal::Newline)]),
        (Terminal::Newline, NonTerminal::Start) => Some(seq![Symbol::NonTerminal(NonTerminal::Line), Symbol::NonTerminal(NonTerminal::Start)]),
        (Terminal::Newline, NonTerminal::TermTail) => Some(seq![]),
        (Terminal::Number, NonTerminal::Expr) => Some(seq![Symbol::NonTerminal(NonTerminal::Term), Symbol::NonTerminal(NonTerminal::ExprTail)]),
        (Terminal::Number, NonTerminal::Factor) => Some(seq![Symbol::Terminal(Terminal::Number), Symbol::Action(Action::PushOperand)]),
        (Terminal::Number, NonTerminal::Line) => Some(seq![
                Symbol::NonTerminal(NonTerminal::Expr),
                Symbol::Action(Action::PrintResult),
                Symbol::Terminal(Terminal::Newline),
            ]),
        (Terminal::Number, NonTerminal::Start) => Some(seq![Symbol::NonTerminal(NonTerminal::Line), Symbol::NonTerminal(NonTerminal::Start)]),
        (Terminal::Number, NonTerminal::Term) => Some(seq![Symbol::NonTerminal(NonTerminal::Factor), Symbol::NonTerminal(NonTerminal::TermTail)]),
        (Terminal::OpenParen, NonTerminal::Expr) => Some(seq![Symbol::NonTerminal(NonTerminal::Term), Symbol::NonTerminal(NonTerminal::ExprTail)]),
        (Terminal::OpenParen, NonTerminal::Factor) => Some(seq![
                Symbol::Terminal(Terminal::OpenParen),
                Symbol::NonTerminal(NonTerminal::Expr),
                Symbol::Terminal(Terminal::CloseParen),
            ]),
        (Terminal::OpenParen, NonTerminal::Line) => Some(seq![
                Symbol::NonTerminal(NonTerminal::Expr),
                Symbol::Action(Action::PrintResult),
                Symbol::Terminal(Terminal::Newline),
            ]),
        (Terminal::OpenParen, NonTerminal::Start) => Some(seq![Symbol::NonTerminal(NonTerminal::Line), Symbol::NonTerminal(NonTerminal::Start)]),
        (Terminal::OpenParen, NonTerminal::Term) => Some(seq![Symbol::NonTerminal(NonTerminal::Factor), Symbol::NonTerminal(NonTerminal::TermTail)]),
        (Terminal::Plus, NonTerminal::ExprTail) => Some(seq![
                Symbol::Terminal(Terminal::Plus),
                Symbol::NonTerminal(NonTerminal::Term),
                Symbol::Action(Action::Add),
                Symbol::NonTerminal(NonTerminal::ExprTail),
            ]),
        (Terminal::Plus, NonTerminal::TermTail) => Some(seq![]),
        (Terminal::Times, NonTerminal::TermTail) => Some(seq![
                Symbol::Terminal(Terminal::Times),
                Symbol::NonTerminal(NonTerminal::Factor),
                Symbol::Action(Action::Multiply),
                Symbol::NonTerminal(NonTerminal::TermTail),
            ]),
        _ => None,
    }
}

/// Looks up the grammar table.
pub fn production(t: Terminal, n: NonTerminal) -> (r: Option<Vec<Symbol>>)
    ensures
        r is None <==> table(t, n) is None,
        r matches Some(v) ==> table(t, n) == Some(v@),
{
    match (t, n) {
        (Terminal::CloseParen, NonTerminal::ExprTail) => Some(vec![]),
        (Terminal::CloseParen, NonTerminal::TermTail) => Some(vec![]),
        (Terminal::Divide, NonTerminal::TermTail) => Some(vec![
                Symbol::Terminal(Terminal::Divide),
                Symbol::NonTerminal(NonTerminal::Factor),
                Symbol::Action(Action::Divide),
                Symbol::NonTerminal(NonTerminal::TermTail),
            ]),
        (Terminal::EndOfInput, NonTerminal::Start) => Some(vec![]),
        (Terminal::Minus, NonTerminal::Expr) => Some(vec![Symbol::NonTerminal(NonTerminal::Term), Symbol::NonTerminal(NonTerminal::ExprTail)]),
        (Terminal::Minus, NonTerminal::ExprTail) => Some(vec![
                Symbol::Terminal(Terminal::Minus),
                Symbol::NonTerminal(NonTerminal::Term),
                Symbol::Action(Action::Subtract),
                Symbol::NonTerminal(NonTerminal::ExprTail),
            ]),
        (Terminal::Minus, NonTerminal::Factor) => Some(vec![
                Symbol::Terminal(Terminal::Minus),
                Symbol::NonTerminal(NonTerminal::Factor),
                Symbol::Action(Action::Negate),
            ]),
        (Terminal::Minus, NonTerminal::Line) => Some(vec![
                Symbol::NonTerminal(NonTerminal::Expr),
                Symbol::Action(Action::PrintResult),
                Symbol::Terminal(Terminal::Newline),
            ]),
        (Terminal::Minus, NonTerminal::Start) => Some(vec![Symbol::NonTerminal(NonTerminal::Line), Symbol::NonTerminal(NonTerminal::Start)]),
        (Terminal::Minus, NonTerminal::Term) => Some(vec![Symbol::NonTerminal(NonTerminal::Factor), Symbol::NonTerminal(NonTerminal::TermTail)]),
        (Terminal::Minus, NonTerminal::TermTail) => Some(vec![]),
        (Terminal::Newline, NonTerminal::ExprTail) => Some(vec![]),
        (Terminal::Newline, NonTerminal::Line) => Some(vec![Symbol::Terminal(Terminal::Newline)]),
        (Terminal::Newline, NonTerminal::Start) => Some(vec![Symbol::NonTerminal(NonTerminal::Line), Symbol::NonTerminal(NonTerminal::Start)]),
        (Terminal::Newline, NonTerminal::TermTail) => Some(vec![]),
        (Terminal::Number, NonTerminal::Expr) => Some(vec![Symbol::NonTerminal(NonTerminal::Term), Symbol::NonTerminal(NonTerminal::ExprTail)]),
        (Terminal::Number, NonTerminal::Factor) => Some(vec![Symbol::Terminal(Terminal::Number), Symbol::Action(Action::PushOperand)]),
        (Terminal::Number, NonTerminal::Line) => Some(vec![
                Symbol::NonTerminal(NonTerminal::Expr),
                Symbol::Action(Action::PrintResult),
                Symbol::Terminal(Terminal::Newline),
            ]),
        (Terminal::Number, NonTerminal::Start) => Some(vec![Symbol::NonTerminal(NonTerminal::Line), Symbol::NonTerminal(NonTerminal::Start)]),
        (Terminal::Number, NonTerminal::Term) => Some(vec![Symbol::NonTerminal(NonTerminal::Factor), Symbol::NonTerminal(NonTerminal::TermTail)]),
        (Terminal::OpenParen, NonTerminal::Expr) => Some(vec![Symbol::NonTerminal(NonTerminal::Term), Symbol::NonTerminal(NonTerminal::ExprTail)]),
        (Terminal::OpenParen, NonTerminal::Factor) => Some(vec![
                Symbol::Terminal(Terminal::OpenParen),
                Symbol::NonTerminal(NonTerminal::Expr),
                Symbol::Terminal(Terminal::CloseParen),
            ]),
        (Terminal::OpenParen, NonTerminal::Line) => Some(vec![
                Symbol::NonTerminal(NonTerminal::Expr),
                Symbol::Action(Action::PrintResult),
                Symbol::Terminal(Terminal::Newline),
            ]),
        (Terminal::OpenParen, NonTerminal::Start) => Some(vec![Symbol::NonTerminal(NonTerminal::Line), Symbol::NonTerminal(NonTerminal::Start)]),
        (Terminal::OpenParen, NonTerminal::Term) => Some(vec![Symbol::NonTerminal(NonTerminal::Factor), Symbol::NonTerminal(NonTerminal::TermTail)]),
        (Terminal::Plus, NonTerminal::ExprTail) => Some(vec![
                Symbol::Terminal(Terminal::Plus),
                Symbol::NonTerminal(NonTerminal::Term),
                Symbol::Action(Action::Add),
                Symbol::NonTerminal(NonTerminal::ExprTail),
            ]),
        (Terminal::Plus, NonTerminal::TermTail) => Some(vec![]),
        (Terminal::Times, NonTerminal::TermTail) => Some(vec![
                Symbol::Terminal(Terminal::Times),
                Symbol::NonTerminal(NonTerminal::Factor),
                Symbol::Action(Action::Multiply),
                Symbol::NonTerminal(NonTerminal::TermTail),
            ]),
        _ => None,
    }
}

/// How many values an entry needs on the value stack when it comes to the
/// top of the parse stack.
pub open spec fn needs(x: Symbol) -> int {
    match x {
        Symbol::Action(Action::Negate) => 1,
        Symbol::Action(Action::PrintResult) => 1,
        Symbol::Action(Action::PushOperand) => 0,
        Symbol::Action(_) => 2,
        Symbol::NonTerminal(NonTerminal::ExprTail) => 1,
        Symbol::NonTerminal(NonTerminal::TermTail) => 1,
        _ => 0,
    }
}

/// By how much an entry changes the size of the value stack once it has
/// been worked off completely.
pub open spec fn effect(x: Symbol) -> int {
    match x {
        Symbol::Action(Action::Negate) => 0,
        Symbol::Action(Action::PushOperand) => 1,
        Symbol::Action(_) => -1,
        Symbol::NonTerminal(NonTerminal::Expr) => 1,
        Symbol::NonTerminal(NonTerminal::Term) => 1,
        Symbol::NonTerminal(NonTerminal::Factor) => 1,
        _ => 0,
    }
}

/// Whether the entries of `s`, worked off from the top (its last element)
/// down and starting from `d` values, always find the values they need.
pub open spec fn balanced(d: int, s: Seq<Symbol>) -> bool
    decreases s.len(),
{
    s.len() == 0 || (d >= needs(s.last()) && balanced(d + effect(s.last()), s.drop_last()))
}

/// The change in value-stack size once all of `s` has been worked off.
pub open spec fn total_effect(s: Seq<Symbol>) -> int
    decreases s.len(),
{
    if s.len() == 0 {
        0
    } else {
        effect(s.last()) + total_effect(s.drop_last())
    }
}

/// The same as `balanced`, for a right-hand side read leftmost first.
pub open spec fn balanced_in_order(d: int, s: Seq<Symbol>) -> bool
    decreases s.len(),
{
    s.len() == 0 || (d >= needs(s[0]) && balanced_in_order(d + effect(s[0]), s.drop_first()))
}

/// The same as `total_effect`, for a right-hand side read leftmost first.
pub open spec fn effect_in_order(s: Seq<Symbol>) -> int
    decreases s.len(),
{
    if s.len() == 0 {
        0
    } else {
        effect(s[0]) + effect_in_order(s.drop_first())
    }
}

/// A stack splits into what lies above and what lies below.
pub proof fn lemma_balanced_append(d: int, below: Seq<Symbol>, above: Seq<Symbol>)
    ensures
        balanced(d, below + above) == (balanced(d, above) && balanced(
            d + total_effect(above),
            below,
        )),
    decreases above.len(),
{
    if above.len() == 0 {
        assert(below + above =~= below);
    } else {
        assert((below + above).last() == above.last());
        assert((below + above).drop_last() =~= below + above.drop_last());
        lemma_balanced_append(d + effect(above.last()), below, above.drop_last());
    }
}

/// Pushing a right-hand side in reverse works it off leftmost first.
pub proof fn lemma_balanced_reverse(d: int, s: Seq<Symbol>)
    ensures
        balanced(d, s.reverse()) == balanced_in_order(d, s),
        total_effect(s.reverse()) == effect_in_order(s),
    decreases s.len(),
{
    if s.len() > 0 {
        assert(s.reverse().last() == s[0]);
        assert(s.reverse().drop_last() =~= s.drop_first().reverse());
        lemma_balanced_reverse(d + effect(s[0]), s.drop_first());
    }
}

/// Every production needs no more values than the non-terminal it replaces
/// and leaves the value stack changed by exactly as much.
pub proof fn lemma_production_balanced(t: Terminal, n: NonTerminal, d: int)
    requires
        table(t, n) is Some,
        d >= needs(Symbol::NonTerminal(n)),
    ensures
        balanced(d, table(t, n)->0.reverse()),
        total_effect(table(t, n)->0.reverse()) == effect(Symbol::NonTerminal(n)),
{
    let rhs = table(t, n)->0;
    lemma_balanced_reverse(d, rhs);
    reveal_with_fuel(balanced_in_order, 5);
    reveal_with_fuel(effect_in_order, 5);
}

/// How deep a non-terminal's expansions can go before a terminal is on top.
pub open spec fn rank(n: NonTerminal) -> nat {
    match n {
        NonTerminal::Start => 5,
        NonTerminal::Line => 4,
        NonTerminal::Expr => 3,
        NonTerminal::Term => 2,
        _ => 1,
    }
}

/// Whether an entry on top of the stack, with lookahead `t`, stays until
/// `t` is matched or a syntax error is found (rather than going away by
/// itself, as an action or an empty production does).
pub open spec fn waits(t: Terminal, x: Symbol) -> bool {
    match x {
        Symbol::Terminal(_) => true,
        Symbol::Action(_) => false,
        Symbol::NonTerminal(n) => match table(t, n) {
            Some(rhs) => rhs.len() > 0,
            None => true,
        },
    }
}

/// A bound on the steps an entry takes, with lookahead `t`, before it is
/// gone or the lookahead is matched or refused.
pub open spec fn weight(t: Terminal, x: Symbol) -> nat {
    match x {
        Symbol::NonTerminal(n) => match table(t, n) {
            Some(rhs) => if rhs.len() > 0 {
                1 + rank(n)
            } else {
                1
            },
            None => 1,
        },
        _ => 1,
    }
}

/// A non-empty production starts with an entry that waits for the lookahead
/// and weighs less than the non-terminal it replaces.
pub proof fn lemma_production_descends(t: Terminal, n: NonTerminal)
    requires
        table(t, n) matches Some(rhs) && rhs.len() > 0,
    ensures
        waits(t, table(t, n)->0[0]),
        weight(t, table(t, n)->0[0]) < weight(t, Symbol::NonTerminal(n)),
{
}

/// No production mentions the end of input.
pub proof fn lemma_production_without_end(t: Terminal, n: NonTerminal)
    requires
        table(t, n) is Some,
    ensures
        !table(t, n)->0.contains(Symbol::Terminal(Terminal::EndOfInput)),
{
    let rhs = table(t, n)->0;
    if rhs.contains(Symbol::Terminal(Terminal::EndOfInput)) {
        let i = choose|i: int| 0 <= i < rhs.len() && rhs[i] == Symbol::Terminal(Terminal::EndOfInput);
        assert(false);
    }
}

} // verus!
