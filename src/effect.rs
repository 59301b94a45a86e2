//! What the engine asks of the owner of the value stack, and the count of
//! values that those requests leave on it.
use vstd::prelude::*;

use crate::grammar::{effect, needs};
use crate::symbol::{Action, Symbol};

verus! {

/// What the owner of the value stack is asked to do.
#[derive(Debug, PartialEq, Eq)]
pub enum Effect {
    /// Push the number with these decimal digits.
    Operand(Vec<u8>),
    /// Perform this action (never `PushOperand`, which comes as `Operand`).
    Apply(Action),
    /// Report a syntax error and empty the value stack.
    SyntaxError,
}

/// The mathematical value of an `Effect`.
pub enum EffectModel {
    Operand(Seq<u8>),
    Apply(Action),
    SyntaxError,
}

impl View for Effect {
    type V = EffectModel;

    open spec fn view(&self) -> EffectModel {
        match self {
            Effect::Operand(d) => EffectModel::Operand(d@),
            Effect::Apply(a) => EffectModel::Apply(*a),
            Effect::SyntaxError => EffectModel::SyntaxError,
        }
    }
}

pub open spec fn effects_view(v: Seq<Effect>) -> Seq<EffectModel> {
    v.map_values(|e: Effect| e@)
}

/// The size of the value stack after `o`, starting from `d` values.
pub open spec fn depth_after(d: int, o: Seq<EffectModel>) -> int
    decreases o.len(),
{
    if o.len() == 0 {
        d
    } else {
        let d0 = depth_after(d, o.drop_last());
        match o.last() {
            EffectModel::Operand(_) => d0 + 1,
            EffectModel::Apply(a) => d0 + effect(Symbol::Action(a)),
            EffectModel::SyntaxError => 0,
        }
    }
}

/// Whether every action of `o`, performed in order on a value stack that
/// starts with `d` values, finds the operands it needs.
pub open spec fn performable(d: int, o: Seq<EffectModel>) -> bool
    decreases o.len(),
{
    o.len() == 0 || (performable(d, o.drop_last()) && match o.last() {
        EffectModel::Apply(a) => a != Action::PushOperand && depth_after(d, o.drop_last())
            >= needs(Symbol::Action(a)),
        _ => true,
    })
}

/// Effects performed one batch after another.
pub proof fn lemma_performable_append(d: int, a: Seq<EffectModel>, b: Seq<EffectModel>)
    ensures
        performable(d, a + b) == (performable(d, a) && performable(depth_after(d, a), b)),
        depth_after(d, a + b) == depth_after(depth_after(d, a), b),
    decreases b.len(),
{
    if b.len() == 0 {
        assert(a + b =~= a);
    } else {
        assert((a + b).drop_last() =~= a + b.drop_last());
        assert((a + b).last() == b.last());
        lemma_performable_append(d, a, b.drop_last());
    }
}

} // verus!
