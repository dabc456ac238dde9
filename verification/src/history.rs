//! What holds of whole runs of the executor: sequences of input events,
//! taken from the root on.

use vstd::prelude::*;
use crate::ast::Atom;
use crate::binding::Binding;
use crate::executor::{
    lemma_first_binding_wins,
    lemma_sequence_fires_later,
    react,
    Position,
    Verdict,
};
use crate::transition::eval;

verus! {

/// What the executor sees of one input event, after the tracker has recorded
/// it: the atoms that are down, and the atoms that the code of the event
/// realizes.
pub struct Input {
    pub down: Set<Atom>,
    pub hit: Set<Atom>,
}

/// Where an executor stands that started at the root and took `inputs`.
pub open spec fn position_after(bindings: Seq<Binding>, reset: Atom, inputs: Seq<Input>) -> Position
    decreases inputs.len(),
{
    if inputs.len() == 0 {
        Position::Root
    } else {
        react(
            bindings,
            reset,
            position_after(bindings, reset, inputs.drop_last()),
            inputs.last().down,
            inputs.last().hit,
        ).position
    }
}

/// What event `i` of `inputs` leads to.
pub open spec fn verdict_at(bindings: Seq<Binding>, reset: Atom, inputs: Seq<Input>, i: int) -> Verdict
    recommends
        0 <= i < inputs.len(),
{
    react(
        bindings,
        reset,
        position_after(bindings, reset, inputs.take(i)),
        inputs[i].down,
        inputs[i].hit,
    )
}

/// How a pending position comes about in one step: from the root by the
/// first binding that advances, and from a pending position only for the
/// same binding and while the reset atom is not down.
pub proof fn lemma_step_into_pending(
    bindings: Seq<Binding>,
    reset: Atom,
    previous: Position,
    down: Set<Atom>,
    hit: Set<Atom>,
)
    requires
        react(bindings, reset, previous, down, hit).position is Pending,
    ensures
        match previous {
            Position::Root => {
                &&& react(bindings, reset, previous, down, hit).position->binding < bindings.len()
                &&& eval(
                    bindings[react(
                        bindings,
                        reset,
                        previous,
                        down,
                        hit,
                    ).position->binding as int].key_tree,
                    down,
                ).advances()
            },
            Position::Pending { binding, .. } => {
                &&& !down.contains(reset)
                &&& react(bindings, reset, previous, down, hit).position->binding == binding
            },
        },
{
    lemma_first_binding_wins(bindings, reset, down, hit);
}

/// A pending position has an origin: an earlier event that found the
/// executor at the root and on which the expression of the pending binding
/// advanced. Since then the same binding has been pending on every event and
/// the reset atom has not been down.
pub proof fn lemma_pending_has_origin(bindings: Seq<Binding>, reset: Atom, inputs: Seq<Input>) -> (j:
    int)
    requires
        position_after(bindings, reset, inputs) is Pending,
    ensures
        0 <= j < inputs.len(),
        position_after(bindings, reset, inputs.take(j)) is Root,
        position_after(bindings, reset, inputs)->binding < bindings.len(),
        eval(
            bindings[position_after(bindings, reset, inputs)->binding as int].key_tree,
            inputs[j].down,
        ).advances(),
        forall|m: int|
            j < m < inputs.len() ==> {
                &&& !(#[trigger] inputs[m]).down.contains(reset)
                &&& position_after(bindings, reset, inputs.take(m)) is Pending
                &&& position_after(bindings, reset, inputs.take(m))->binding == position_after(
                    bindings,
                    reset,
                    inputs,
                )->binding
            },
    decreases inputs.len(),
{
    let before = inputs.drop_last();
    let last = inputs.last();
    let previous = position_after(bindings, reset, before);
    assert(inputs.take(inputs.len() - 1) == before);
    assert(position_after(bindings, reset, inputs) == react(
        bindings,
        reset,
        previous,
        last.down,
        last.hit,
    ).position);
    lemma_step_into_pending(bindings, reset, previous, last.down, last.hit);
    match previous {
        Position::Root => { inputs.len() - 1 },
        Position::Pending { .. } => {
            let j = lemma_pending_has_origin(bindings, reset, before);
            assert(inputs.take(j) == before.take(j));
            assert forall|m: int| j < m < inputs.len() implies {
                &&& !(#[trigger] inputs[m]).down.contains(reset)
                &&& position_after(bindings, reset, inputs.take(m)) is Pending
                &&& position_after(bindings, reset, inputs.take(m))->binding == position_after(
                    bindings,
                    reset,
                    inputs,
                )->binding
            } by {
                if m < inputs.len() - 1 {
                    assert(inputs.take(m) == before.take(m));
                    assert(inputs[m] == before[m]);
                }
            }
            j
        },
    }
}

/// A binding whose expression is a sequence fires only from a position in
/// which it is pending, and not while the reset atom is down.
pub proof fn lemma_sequence_fires_from_pending(
    bindings: Seq<Binding>,
    reset: Atom,
    previous: Position,
    down: Set<Atom>,
    hit: Set<Atom>,
    binding: nat,
    branch: nat,
)
    requires
        react(bindings, reset, previous, down, hit).fired == Some((binding, branch)),
        binding < bindings.len() ==> bindings[binding as int].key_tree is Sequence,
    ensures
        previous is Pending,
        previous->binding == binding,
        !down.contains(reset),
{
    lemma_sequence_fires_later(bindings, reset, previous, down, hit);
}

/// The action of a binding whose expression is a sequence runs only after
/// its first part was satisfied on a strictly earlier event: an event that
/// found the executor at the root and on which the expression advanced. On
/// no event after that one, up to the one that fires, was the reset atom
/// down.
pub proof fn lemma_sequence_needs_an_earlier_event(
    bindings: Seq<Binding>,
    reset: Atom,
    inputs: Seq<Input>,
    i: int,
    binding: nat,
    branch: nat,
) -> (j: int)
    requires
        0 <= i < inputs.len(),
        verdict_at(bindings, reset, inputs, i).fired == Some((binding, branch)),
        binding < bindings.len() ==> bindings[binding as int].key_tree is Sequence,
    ensures
        0 <= j < i,
        position_after(bindings, reset, inputs.take(j)) is Root,
        binding < bindings.len(),
        eval(bindings[binding as int].key_tree, inputs[j].down).advances(),
        forall|m: int| j < m <= i ==> !(#[trigger] inputs[m]).down.contains(reset),
{
    let before = inputs.take(i);
    let previous = position_after(bindings, reset, before);
    lemma_sequence_fires_from_pending(
        bindings,
        reset,
        previous,
        inputs[i].down,
        inputs[i].hit,
        binding,
        branch,
    );
    let j = lemma_pending_has_origin(bindings, reset, before);
    assert(before.take(j) == inputs.take(j));
    assert(before[j] == inputs[j]);
    assert forall|m: int| j < m <= i implies !(#[trigger] inputs[m]).down.contains(reset) by {
        if m < i {
            assert(inputs[m] == before[m]);
        }
    }
    j
}

} // verus!
