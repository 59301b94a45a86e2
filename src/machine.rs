//! The engine as a state machine over mathematical values: its state, one
//! step of the driving loop, what a token does, and what a whole session
//! does; with the facts proved of them.
use vstd::prelude::*;

use crate::effect::{depth_after, lemma_performable_append, performable, EffectModel};
use crate::grammar::{
    balanced, effect, lemma_balanced_append, lemma_production_balanced,
    lemma_production_descends, lemma_production_without_end, needs, table, waits, weight,
};
use crate::lexer::token_at;
use crate::symbol::{Action, NonTerminal, Symbol, Terminal};

verus! {

/// The engine's state.
pub struct EngineState {
    /// The parse stack; its last element is the top.
    pub stack: Seq<Symbol>,
    /// The lookahead cell.
    pub lookahead: Option<Terminal>,
    /// The digits of the lookahead, when it is a number.
    pub pending: Seq<u8>,
    /// The digits of the number matched last, for the next `PushOperand`.
    pub operand: Seq<u8>,
    /// Whether the rest of a line with a syntax error is being dropped.
    pub skipping: bool,
    /// How many values the value stack holds.
    pub depth: int,
}

/// The state at the start of a line.
pub open spec fn fresh() -> EngineState {
    EngineState {
        stack: seq![Symbol::NonTerminal(NonTerminal::Start)],
        lookahead: None,
        pending: Seq::empty(),
        operand: Seq::empty(),
        skipping: false,
        depth: 0,
    }
}

/// The state after a syntax error found with lookahead `t`: at a newline
/// the next line starts at once; at the end of the input the engine stops;
/// otherwise the rest of the line is dropped first.
pub open spec fn recover(t: Option<Terminal>) -> EngineState {
    if t == Some(Terminal::Newline) {
        fresh()
    } else if t == Some(Terminal::EndOfInput) {
        EngineState { stack: Seq::empty(), ..fresh() }
    } else {
        EngineState { skipping: true, ..fresh() }
    }
}

/// Whether the engine can take a step without another token.
pub open spec fn runnable(s: EngineState) -> bool {
    &&& s.stack.len() > 0
    &&& !s.skipping
    &&& (s.lookahead is Some || s.stack.last() is Action)
}

/// One step of the driving loop: pop the top, then match a terminal against
/// the lookahead, expand a non-terminal by the grammar table, or hand out an
/// action.
pub open spec fn step(s: EngineState) -> (EngineState, Seq<EffectModel>) {
    let top = s.stack.last();
    let rest = s.stack.drop_last();
    match top {
        Symbol::Action(a) => (
            EngineState { stack: rest, depth: s.depth + effect(top), ..s },
            seq![
                if a == Action::PushOperand {
                    EffectModel::Operand(s.operand)
                } else {
                    EffectModel::Apply(a)
                },
            ],
        ),
        Symbol::Terminal(x) => if s.lookahead == Some(x) {
            (
                EngineState {
                    stack: rest,
                    lookahead: None,
                    operand: if x == Terminal::Number {
                        s.pending
                    } else {
                        s.operand
                    },
                    ..s
                },
                Seq::empty(),
            )
        } else {
            (recover(s.lookahead), seq![EffectModel::SyntaxError])
        },
        Symbol::NonTerminal(n) => match table(s.lookahead->0, n) {
            Some(rhs) => (EngineState { stack: rest + rhs.reverse(), ..s }, Seq::empty()),
            None => (recover(s.lookahead), seq![EffectModel::SyntaxError]),
        },
    }
}

/// The state and the effects after at most `n` steps from `s`.
pub open spec fn steps(s: EngineState, n: nat) -> (EngineState, Seq<EffectModel>)
    decreases n,
{
    if n == 0 {
        (s, Seq::empty())
    } else {
        let (c, o) = steps(s, (n - 1) as nat);
        if runnable(c) {
            (step(c).0, o + step(c).1)
        } else {
            (c, o)
        }
    }
}

/// Where the steps from `s` stop, with the effects on the way.
pub open spec fn settle(s: EngineState) -> (EngineState, Seq<EffectModel>) {
    steps(s, choose|n: nat| !runnable(#[trigger] steps(s, n).0))
}

/// What the engine does with the next token (`None`: an unrecognized
/// character; `digits`: a number's digits).
pub open spec fn accept(s: EngineState, t: Option<Terminal>, digits: Seq<u8>) -> (
    EngineState,
    Seq<EffectModel>,
) {
    if s.stack.len() == 0 {
        (s, Seq::empty())
    } else if s.skipping {
        if t == Some(Terminal::Newline) || t == Some(Terminal::EndOfInput) {
            (recover(t), Seq::empty())
        } else {
            (s, Seq::empty())
        }
    } else if t is None {
        (recover(t), seq![EffectModel::SyntaxError])
    } else {
        settle(EngineState { lookahead: t, pending: digits, ..s })
    }
}

/// The effects of the tokens of `input` from `pos` on, fed to an engine in
/// state `s`, up to the end of the input.
pub open spec fn drive(s: EngineState, input: Seq<u8>, pos: int) -> Seq<EffectModel>
    decreases input.len() - pos,
{
    if s.stack.len() == 0 {
        Seq::empty()
    } else {
        let (t, digits, next) = token_at(input, pos);
        let (s1, o1) = accept(s, t, digits);
        if t == Some(Terminal::EndOfInput) || next <= pos || next > input.len() {
            o1
        } else {
            o1 + drive(s1, input, next)
        }
    }
}

/// The effects of a whole session on `input`.
pub open spec fn session(input: Seq<u8>) -> Seq<EffectModel> {
    drive(fresh(), input, 0)
}

/// What holds of every state: the value stack suffices for the parse stack,
/// and the end of input is never on the parse stack.
pub open spec fn consistent(s: EngineState) -> bool {
    &&& s.depth >= 0
    &&& balanced(s.depth, s.stack)
    &&& !s.stack.contains(Symbol::Terminal(Terminal::EndOfInput))
}

/// What holds between two tokens.
pub open spec fn waiting(s: EngineState) -> bool {
    &&& consistent(s)
    &&& !runnable(s)
    &&& s.stack.len() > 0 ==> s.lookahead is None
    &&& s.skipping ==> s.depth == 0
}

/// Steps left before the lookahead is matched or refused, or, once it is
/// matched, before the actions on top are handed out.
pub open spec fn work(t: Terminal, s: Seq<Symbol>) -> nat
    decreases s.len(),
{
    if s.len() == 0 {
        0
    } else if waits(t, s.last()) {
        weight(t, s.last())
    } else {
        weight(t, s.last()) + work(t, s.drop_last())
    }
}

/// Whether the lookahead cell is filled, as a number.
pub open spec fn has_lookahead(s: EngineState) -> int {
    if s.lookahead is Some {
        1
    } else {
        0
    }
}

/// What decreases with every step while the lookahead cell stays as it is.
pub open spec fn work_left(s: EngineState) -> int {
    match s.lookahead {
        Some(t) => work(t, s.stack) as int,
        None => s.stack.len() as int,
    }
}

/// The state after a syntax error is consistent and waits for a token.
pub proof fn lemma_recover_consistent(t: Option<Terminal>)
    ensures
        consistent(recover(t)),
        !runnable(recover(t)),
        recover(t).lookahead is None,
{
    let r = recover(t);
    reveal_with_fuel(balanced, 2);
    if r.stack.len() > 0 {
        assert(r.stack.drop_last() =~= Seq::empty());
        assert(r.stack.contains(Symbol::Terminal(Terminal::EndOfInput)) ==> r.stack[0]
            == Symbol::Terminal(Terminal::EndOfInput));
    }
}

/// One step keeps the state consistent, hands out only what the value stack
/// can perform, makes progress, and keeps or consumes the lookahead unless it
/// reports a syntax error, after which the engine has recovered.
pub proof fn lemma_step(s: EngineState)
    requires
        consistent(s),
        runnable(s),
    ensures
        consistent(step(s).0),
        performable(s.depth, step(s).1),
        depth_after(s.depth, step(s).1) == step(s).0.depth,
        has_lookahead(step(s).0) < has_lookahead(s) || (has_lookahead(step(s).0) == has_lookahead(
            s,
        ) && 0 <= work_left(step(s).0) < work_left(s)),
        step(s).1 == seq![EffectModel::SyntaxError] ==> step(s).0 == recover(s.lookahead),
        step(s).1 != seq![EffectModel::SyntaxError] ==> {
            &&& !step(s).1.contains(EffectModel::SyntaxError)
            &&& !step(s).0.skipping
            &&& (step(s).0.lookahead == s.lookahead || step(s).0.lookahead is None)
        },
        s.lookahead == Some(Terminal::EndOfInput) ==> step(s).0.lookahead == s.lookahead
            || step(s).0.stack.len() == 0,
        s.lookahead is None ==> step(s).0.lookahead is None && step(s).1 != seq![
            EffectModel::SyntaxError,
        ],
{
    let top = s.stack.last();
    let rest = s.stack.drop_last();
    let (s1, o) = step(s);
    assert(s.stack == rest.push(top));
    assert(!rest.contains(Symbol::Terminal(Terminal::EndOfInput))) by {
        if rest.contains(Symbol::Terminal(Terminal::EndOfInput)) {
            let i = choose|i: int|
                0 <= i < rest.len() && rest[i] == Symbol::Terminal(Terminal::EndOfInput);
            assert(s.stack[i] == rest[i]);
        }
    }
    assert(s.stack.contains(top));
    assert(s.depth >= needs(top) && balanced(s.depth + effect(top), rest));
    lemma_recover_consistent(s.lookahead);
    reveal_with_fuel(performable, 2);
    reveal_with_fuel(depth_after, 2);
    if o.len() == 1 {
        assert(o.drop_last() =~= Seq::empty());
    }
    match top {
        Symbol::Action(a) => {
            if s.lookahead is Some {
                assert(!waits(s.lookahead->0, top));
            }
        },
        Symbol::Terminal(x) => {
            assert(o =~= Seq::empty() || o == seq![EffectModel::SyntaxError]);
        },
        Symbol::NonTerminal(n) => {
            let t = s.lookahead->0;
            match table(t, n) {
                Some(rhs) => {
                    lemma_production_balanced(t, n, s.depth);
                    lemma_balanced_append(s.depth, rest, rhs.reverse());
                    lemma_production_without_end(t, n);
                    let ns = rest + rhs.reverse();
                    if ns.contains(Symbol::Terminal(Terminal::EndOfInput)) {
                        let i = choose|i: int|
                            0 <= i < ns.len() && ns[i] == Symbol::Terminal(Terminal::EndOfInput);
                        if i >= rest.len() {
                            assert(rhs[rhs.len() - 1 - (i - rest.len())] == ns[i]);
                        } else {
                            assert(rest[i] == ns[i]);
                        }
                    }
                    if rhs.len() > 0 {
                        lemma_production_descends(t, n);
                        assert(ns.last() == rhs[0]);
                    } else {
                        assert(ns =~= rest);
                    }
                },
                None => {},
            }
        },
    }
}

/// Once the steps stop, more steps change nothing.
pub proof fn lemma_steps_stable(s: EngineState, n: nat, m: nat)
    requires
        n <= m,
        !runnable(steps(s, n).0),
    ensures
        steps(s, m) == steps(s, n),
    decreases m,
{
    if m > n {
        lemma_steps_stable(s, n, (m - 1) as nat);
    }
}

/// `settle` is where the steps stop, however many are counted past that.
pub proof fn lemma_settle(s: EngineState, n: nat)
    requires
        !runnable(steps(s, n).0),
    ensures
        settle(s) == steps(s, n),
        !runnable(settle(s).0),
{
    let k = choose|k: nat| !runnable(#[trigger] steps(s, k).0);
    if k <= n {
        lemma_steps_stable(s, k, n);
    } else {
        lemma_steps_stable(s, n, k);
    }
}

/// What holds along the steps that follow a token: the state stays
/// consistent, every effect can be performed, the lookahead is kept or
/// consumed, and a syntax error ends the steps in the recovered state.
pub proof fn lemma_steps(s: EngineState, n: nat)
    requires
        consistent(s),
        s.lookahead is Some,
        !s.skipping,
    ensures
        consistent(steps(s, n).0),
        performable(s.depth, steps(s, n).1),
        depth_after(s.depth, steps(s, n).1) == steps(s, n).0.depth,
        steps(s, n).1.contains(EffectModel::SyntaxError) ==> steps(s, n).0 == recover(
            s.lookahead,
        ),
        !steps(s, n).1.contains(EffectModel::SyntaxError) ==> {
            &&& !steps(s, n).0.skipping
            &&& (steps(s, n).0.lookahead == s.lookahead || steps(s, n).0.lookahead is None)
        },
        s.lookahead == Some(Terminal::EndOfInput) ==> steps(s, n).0.lookahead == s.lookahead
            || steps(s, n).0.stack.len() == 0,
    decreases n,
{
    if n > 0 {
        let (c, o) = steps(s, (n - 1) as nat);
        lemma_steps(s, (n - 1) as nat);
        if runnable(c) {
            lemma_recover_consistent(s.lookahead);
            lemma_step(c);
            let (c1, o1) = step(c);
            lemma_performable_append(s.depth, o, o1);
            if o1 == seq![EffectModel::SyntaxError] {
                assert((o + o1).last() == EffectModel::SyntaxError);
                assert((o + o1).contains(EffectModel::SyntaxError));
            } else {
                if (o + o1).contains(EffectModel::SyntaxError) {
                    let i = choose|i: int|
                        0 <= i < (o + o1).len() && (o + o1)[i] == EffectModel::SyntaxError;
                    if i < o.len() {
                        assert(o[i] == (o + o1)[i]);
                    } else {
                        assert(o1[i - o.len()] == (o + o1)[i]);
                    }
                }
            }
        }
    } else {
        reveal_with_fuel(performable, 1);
        reveal_with_fuel(depth_after, 1);
    }
}

/// Counting steps from the first one on.
pub proof fn lemma_steps_front(s: EngineState, n: nat)
    requires
        runnable(s),
    ensures
        steps(s, n + 1) == (steps(step(s).0, n).0, step(s).1 + steps(step(s).0, n).1),
    decreases n,
{
    if n == 0 {
        assert(step(s).1 + Seq::<EffectModel>::empty() =~= step(s).1);
        assert(Seq::<EffectModel>::empty() + step(s).1 =~= step(s).1);
        assert(steps(s, 0) == (s, Seq::<EffectModel>::empty()));
        assert(steps(step(s).0, 0) == (step(s).0, Seq::<EffectModel>::empty()));
        assert(steps(s, 1) == (step(s).0, Seq::<EffectModel>::empty() + step(s).1));
    } else {
        lemma_steps_front(s, (n - 1) as nat);
        let (c, o) = steps(step(s).0, (n - 1) as nat);
        assert(steps(s, n) == (c, step(s).1 + o));
        if runnable(c) {
            assert(steps(step(s).0, n) == (step(c).0, o + step(c).1));
            assert(step(s).1 + (o + step(c).1) =~= (step(s).1 + o) + step(c).1);
        } else {
            assert(steps(step(s).0, n) == (c, o));
        }
    }
}

/// From a consistent state the steps come to a stop.
pub proof fn lemma_terminates(s: EngineState)
    requires
        consistent(s),
    ensures
        exists|n: nat| !runnable(#[trigger] steps(s, n).0),
    decreases has_lookahead(s), work_left(s),
{
    if !runnable(s) {
        assert(!runnable(steps(s, 0).0));
    } else {
        lemma_step(s);
        lemma_terminates(step(s).0);
        let n = choose|n: nat| !runnable(#[trigger] steps(step(s).0, n).0);
        lemma_steps_front(s, n);
        assert(!runnable(steps(s, n + 1).0));
    }
}

/// What the engine does with a token, in the terms of the steps it takes.
/// A token keeps the engine waiting; a syntax error leaves it recovered;
/// the end of input stops it; once stopped it ignores every token.
pub proof fn lemma_accept(s: EngineState, t: Option<Terminal>, digits: Seq<u8>)
    requires
        waiting(s),
    ensures
        waiting(accept(s, t, digits).0),
        accept(s, t, digits).1.contains(EffectModel::SyntaxError) ==> accept(s, t, digits).0
            == recover(t),
        t == Some(Terminal::EndOfInput) ==> accept(s, t, digits).0.stack.len() == 0,
        s.stack.len() == 0 ==> accept(s, t, digits) == (s, Seq::<EffectModel>::empty()),
{
    lemma_recover_consistent(t);
    if s.stack.len() > 0 && !s.skipping && t is Some {
        let start = EngineState { lookahead: t, pending: digits, ..s };
        lemma_terminates(start);
        let n = choose|n: nat| !runnable(#[trigger] steps(start, n).0);
        lemma_settle(start, n);
        lemma_steps(start, n);
    } else if t is None && s.stack.len() > 0 && !s.skipping {
        assert(seq![EffectModel::SyntaxError].contains(EffectModel::SyntaxError)) by {
            assert(seq![EffectModel::SyntaxError][0] == EffectModel::SyntaxError);
        }
    }
}

/// End of input, however often it comes, never fails: the first one stops
/// the engine, and from then on every token, another end of input too, is
/// ignored without effect. Between two lines the end of input has no effect
/// at all.
pub proof fn lemma_end_of_input(
    s: EngineState,
    digits: Seq<u8>,
    t: Option<Terminal>,
    more: Seq<u8>,
)
    requires
        waiting(s),
    ensures
        accept(s, Some(Terminal::EndOfInput), digits).0.stack.len() == 0,
        accept(accept(s, Some(Terminal::EndOfInput), digits).0, t, more) == (
            accept(s, Some(Terminal::EndOfInput), digits).0,
            Seq::<EffectModel>::empty(),
        ),
        s.stack == seq![Symbol::NonTerminal(NonTerminal::Start)] ==> accept(
            s,
            Some(Terminal::EndOfInput),
            digits,
        ).1.len() == 0,
{
    let e = Some(Terminal::EndOfInput);
    lemma_accept(s, e, digits);
    lemma_accept(accept(s, e, digits).0, t, more);
    if s.stack == seq![Symbol::NonTerminal(NonTerminal::Start)] && !s.skipping {
        let start = EngineState { lookahead: e, pending: digits, ..s };
        assert(runnable(start));
        assert(table(Terminal::EndOfInput, NonTerminal::Start) == Some(Seq::<Symbol>::empty()));
        assert(start.stack.drop_last() + Seq::<Symbol>::empty().reverse() =~= Seq::<
            Symbol,
        >::empty());
        assert(step(start).0.stack.len() == 0);
        assert(steps(start, 0) == (start, Seq::<EffectModel>::empty()));
        assert(steps(start, 1) == (step(start).0, Seq::<EffectModel>::empty() + step(start).1));
        assert(step(start).1.len() == 0);
        assert(!runnable(steps(start, 1).0));
        lemma_settle(start, 1);
    }
}

/// After a syntax error the engine drops the rest of the line, up to and
/// including its newline, and then takes the next line as at the start of a
/// session.
pub proof fn lemma_resynchronizes(
    s: EngineState,
    t: Option<Terminal>,
    digits: Seq<u8>,
    u: Option<Terminal>,
    more: Seq<u8>,
)
    requires
        waiting(s),
        t != Some(Terminal::EndOfInput),
        accept(s, t, digits).1.contains(EffectModel::SyntaxError),
    ensures
        accept(s, t, digits).0 == fresh() || {
            let s1 = accept(s, t, digits).0;
            &&& u == Some(Terminal::Newline) ==> accept(s1, u, more) == (
                fresh(),
                Seq::<EffectModel>::empty(),
            )
            &&& u != Some(Terminal::Newline) && u != Some(Terminal::EndOfInput) ==> accept(
                s1,
                u,
                more,
            ) == (s1, Seq::<EffectModel>::empty())
        },
{
    lemma_accept(s, t, digits);
}

} // verus!
