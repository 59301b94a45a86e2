//! The driving loop: one parse stack of grammar symbols and actions, one
//! token of lookahead, and the grammar table.
//!
//! The engine does not hold the numbers themselves. Each action it reaches
//! is handed out as an `Effect`, in order, for the owner of the value stack
//! to perform; the engine keeps count of how many values that stack holds and
//! proves that no action ever finds it short.
//!
//! On a syntax error it reports `SyntaxError`, drops the rest of the line
//! (up to and including the next newline), resets both stacks and goes on
//! with the next line. At the end of the input it stops for good.
use vstd::prelude::*;

use crate::effect::{
    depth_after, effects_view, lemma_performable_append, performable, Effect, EffectModel,
};
use crate::grammar::{effect, production};
use crate::lexer::{lex, Lexeme};
use crate::machine::{
    accept, consistent, drive, fresh, has_lookahead, lemma_recover_consistent, lemma_settle,
    lemma_step, lemma_steps, recover, runnable, session, step, steps, waiting, work_left,
    EngineState,
};
use crate::symbol::{Action, NonTerminal, Symbol, Terminal};

verus! {

/// The calculator engine: parse stack, lookahead cell, and the count of
/// values on the value stack that its owner keeps.
pub struct Engine {
    stack: Vec<Symbol>,
    lookahead: Option<Terminal>,
    pending: Vec<u8>,
    operand: Vec<u8>,
    skipping: bool,
    depth: Ghost<int>,
}

impl View for Engine {
    type V = EngineState;

    closed spec fn view(&self) -> EngineState {
        EngineState {
            stack: self.stack@,
            lookahead: self.lookahead,
            pending: self.pending@,
            operand: self.operand@,
            skipping: self.skipping,
            depth: self.depth@,
        }
    }
}

impl Engine {
    /// An engine at the start of the first line, with an empty value stack.
    pub fn new() -> (r: Engine)
        ensures
            r@ == fresh(),
            r.wf(),
    {
        let r = Engine {
            stack: vec![Symbol::NonTerminal(NonTerminal::Start)],
            lookahead: None,
            pending: Vec::new(),
            operand: Vec::new(),
            skipping: false,
            depth: Ghost(0),
        };
        proof {
            lemma_recover_consistent(Some(Terminal::Newline));
            assert(r@.stack =~= fresh().stack);
            assert(r@.pending =~= fresh().pending);
            assert(r@.operand =~= fresh().operand);
        }
        r
    }

    /// The engine is between two tokens.
    pub open spec fn wf(&self) -> bool {
        waiting(self@)
    }

    /// Whether the engine has reached the end of the input (or of the parse),
    /// after which it ignores every token.
    pub fn is_halted(&self) -> (r: bool)
        ensures
            r == (self@.stack.len() == 0),
    {
        self.stack.len() == 0
    }

    fn reset(&mut self, t: Option<Terminal>)
        ensures
            final(self)@ == recover(t),
    {
        self.stack = Vec::new();
        match t {
            Some(Terminal::EndOfInput) => {},
            _ => self.stack.push(Symbol::NonTerminal(NonTerminal::Start)),
        }
        self.lookahead = None;
        self.pending = Vec::new();
        self.operand = Vec::new();
        self.skipping = match t {
            Some(Terminal::Newline) => false,
            Some(Terminal::EndOfInput) => false,
            _ => true,
        };
        self.depth = Ghost(0);
        proof {
            assert(self@.stack =~= recover(t).stack);
            assert(self@.pending =~= recover(t).pending);
            assert(self@.operand =~= recover(t).operand);
        }
    }

    fn can_step(&self) -> (r: bool)
        ensures
            r == runnable(self@),
    {
        let n = self.stack.len();
        if n == 0 || self.skipping {
            false
        } else {
            match self.stack[n - 1] {
                Symbol::Action(_) => true,
                _ => self.lookahead.is_some(),
            }
        }
    }

    /// One step of the driving loop.
    fn advance(&mut self) -> (r: Option<Effect>)
        requires
            runnable(old(self)@),
        ensures
            final(self)@ == step(old(self)@).0,
            step(old(self)@).1 == match r {
                Some(e) => seq![e@],
                None => Seq::empty(),
            },
    {
        let ghost s = self@;
        let top = self.stack.pop().unwrap();
        proof {
            assert(self.stack@ =~= s.stack.drop_last());
        }
        match top {
            Symbol::Action(a) => {
                self.depth = Ghost(self.depth@ + effect(top));
                if a == Action::PushOperand {
                    let digits = self.operand.clone();
                    assert(digits@ =~= self.operand@);
                    Some(Effect::Operand(digits))
                } else {
                    Some(Effect::Apply(a))
                }
            },
            Symbol::Terminal(x) => {
                let t = self.lookahead.unwrap();
                if t == x {
                    if x == Terminal::Number {
                        let digits = self.pending.clone();
                        assert(digits@ =~= self.pending@);
                        self.operand = digits;
                    }
                    self.lookahead = None;
                    None
                } else {
                    self.reset(Some(t));
                    Some(Effect::SyntaxError)
                }
            },
            Symbol::NonTerminal(n) => {
                let t = self.lookahead.unwrap();
                match production(t, n) {
                    Some(rhs) => {
                        let ghost rest = self.stack@;
                        let mut i: usize = rhs.len();
                        while i > 0
                            invariant
                                i <= rhs@.len(),
                                self.stack@ == rest + rhs@.subrange(
                                    i as int,
                                    rhs@.len() as int,
                                ).reverse(),
                                self.lookahead == s.lookahead,
                                self.pending@ == s.pending,
                                self.operand@ == s.operand,
                                self.skipping == s.skipping,
                                self.depth@ == s.depth,
                            decreases i,
                        {
                            i = i - 1;
                            self.stack.push(rhs[i]);
                            assert(rhs@.subrange(i as int, rhs@.len() as int).reverse() =~= rhs@.subrange(
                                (i + 1) as int,
                                rhs@.len() as int,
                            ).reverse().push(rhs@[i as int]));
                        }
                        assert(rhs@.subrange(0, rhs@.len() as int) =~= rhs@);
                        None
                    },
                    None => {
                        self.reset(Some(t));
                        Some(Effect::SyntaxError)
                    },
                }
            },
        }
    }
    /// Hands the engine its next token and runs it until it needs another;
    /// returns the effects to perform, in order.
    pub fn feed(&mut self, lx: Lexeme) -> (out: Vec<Effect>)
        requires
            old(self).wf(),
        ensures
            final(self).wf(),
            (final(self)@, effects_view(out@)) == accept(old(self)@, lx.terminal, lx.digits@),
            performable(old(self)@.depth, effects_view(out@)),
            depth_after(old(self)@.depth, effects_view(out@)) == final(self)@.depth,
            lx.terminal == Some(Terminal::EndOfInput) ==> final(self)@.stack.len() == 0,
            old(self)@.stack.len() == 0 ==> final(self)@ == old(self)@ && out@.len() == 0,
            effects_view(out@).contains(EffectModel::SyntaxError) ==> final(self)@ == recover(
                lx.terminal,
            ),
    {
        let ghost s0 = self@;
        let mut out: Vec<Effect> = Vec::new();
        proof {
            reveal_with_fuel(performable, 1);
            reveal_with_fuel(depth_after, 1);
            assert(effects_view(out@) =~= Seq::empty());
            lemma_recover_consistent(lx.terminal);
        }
        if self.stack.len() == 0 {
            return out;
        }
        if self.skipping {
            match lx.terminal {
                Some(Terminal::Newline) => self.reset(lx.terminal),
                Some(Terminal::EndOfInput) => self.reset(lx.terminal),
                _ => {},
            }
            return out;
        }
        if lx.terminal.is_none() {
            self.reset(None);
            out.push(Effect::SyntaxError);
            proof {
                reveal_with_fuel(performable, 2);
                reveal_with_fuel(depth_after, 2);
                assert(effects_view(out@) =~= seq![EffectModel::SyntaxError]);
                assert(effects_view(out@).drop_last() =~= Seq::empty());
            }
            return out;
        }
        self.lookahead = lx.terminal;
        self.pending = lx.digits;
        let ghost start = self@;
        let ghost mut k: nat = 0;
        assert(start == EngineState { lookahead: lx.terminal, pending: lx.digits@, ..s0 });
        while self.can_step()
            invariant
                steps(start, k) == (self@, effects_view(out@)),
                consistent(start),
                start.lookahead is Some,
                !start.skipping,
            decreases has_lookahead(self@), work_left(self@),
        {
            proof {
                lemma_steps(start, k);
                lemma_step(self@);
            }
            let ghost before = effects_view(out@);
            let e = self.advance();
            match e {
                Some(e) => {
                    out.push(e);
                },
                None => {},
            }
            proof {
                assert(effects_view(out@) =~= before + step(steps(start, k).0).1);
                k = k + 1;
            }
        }
        proof {
            lemma_steps(start, k);
            lemma_settle(start, k);
        }
        out
    }
}

/// Runs a whole session on `input`, line after line up to its end, and
/// returns the effects in order. Performed on a value stack that starts
/// empty, every action finds its operands.
pub fn evaluate(input: &[u8]) -> (out: Vec<Effect>)
    ensures
        effects_view(out@) == session(input@),
        performable(0, effects_view(out@)),
{
    let mut engine = Engine::new();
    let mut out: Vec<Effect> = Vec::new();
    let mut pos: usize = 0;
    proof {
        reveal_with_fuel(performable, 1);
        reveal_with_fuel(depth_after, 1);
        assert(effects_view(out@) =~= Seq::empty());
        assert(effects_view(out@) + session(input@) =~= session(input@));
    }
    while !engine.is_halted()
        invariant
            engine.wf(),
            pos <= input@.len(),
            effects_view(out@) + drive(engine@, input@, pos as int) == session(input@),
            performable(0, effects_view(out@)),
            depth_after(0, effects_view(out@)) == engine@.depth,
        decreases input@.len() - pos + if engine@.stack.len() == 0 {
            0int
        } else {
            1int
        },
    {
        let ghost before = effects_view(out@);
        let ghost s = engine@;
        let (lx, next) = lex(input, pos);
        let mut o = engine.feed(lx);
        let ghost o1 = effects_view(o@);
        out.append(&mut o);
        proof {
            assert(effects_view(out@) =~= before + o1);
            lemma_performable_append(0, before, o1);
            if engine@.stack.len() == 0 {
                assert(drive(engine@, input@, next as int) == Seq::<EffectModel>::empty());
                assert(o1 + Seq::<EffectModel>::empty() =~= o1);
                assert(drive(s, input@, pos as int) == o1);
                assert(effects_view(out@) + drive(engine@, input@, next as int) =~= session(
                    input@,
                ));
            } else {
                assert(drive(s, input@, pos as int) == o1 + drive(engine@, input@, next as int));
                assert(effects_view(out@) + drive(engine@, input@, next as int) =~= session(
                    input@,
                ));
            }
        }
        pos = next;
    }
    proof {
        assert(effects_view(out@) + drive(engine@, input@, pos as int) =~= effects_view(out@));
    }
    out
}

} // verus!
