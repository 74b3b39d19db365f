//! Graph nodes as the backward pass sees them, and the step shared by the rules
//! of operations with one parent.
use vstd::prelude::*;
use crate::backend::{float_view, Backend};
use crate::grads::{merged, Gradients, NodeId};

verus! {

/// One forward operation as the backward pass sees it: the node it made, the
/// nodes it read, and what it recorded for its backward rule. A parent that
/// needs no gradient is `None`.
pub struct Ops<S, const N: usize> {
    pub parents: [Option<NodeId>; N],
    pub node: NodeId,
    pub state: S,
}

/// A backward rule: how one kind of operation hands the gradient of its output
/// on to its parents.
pub trait Backward<B: Backend, const N: usize>: Sized {
    /// What the forward operation records for the rule.
    type State;

    /// What the rule asks of the node and of the store before it runs.
    spec fn ready(&self, ops: &Ops<Self::State, N>, grads: &Gradients<B>) -> bool;

    /// Runs the rule for the node of `ops`, once. The checkpointer is what a
    /// rule would ask for state that was not kept; every rule is handed it.
    fn backward<C>(self, ops: Ops<Self::State, N>, grads: &mut Gradients<B>, checkpointer: &mut C)
        requires
            self.ready(&ops, old(grads)),
    ;
}

/// The backward step of an operation with one parent.
///
/// Where the parent needs no gradient, nothing happens. Otherwise the gradient
/// kept for `node` is read, `func` turns it into the parent's share, and the
/// share is accumulated under the parent.
pub fn unary<B, F>(parents: [Option<NodeId>; 1], node: NodeId, grads: &mut Gradients<B>, func: F)
    where
        B: Backend,
        F: FnOnce(&B::FloatTensorPrimitive) -> B::FloatTensorPrimitive,
    requires
        parents[0] matches Some(parent) ==> {
            &&& old(grads)@.contains_key(node)
            &&& forall|grad: B::FloatTensorPrimitive|
                float_view::<B>(&grad) == old(grads)@[node] ==> #[trigger] func.requires((&grad,))
            &&& forall|grad: B::FloatTensorPrimitive, share: B::FloatTensorPrimitive|
                float_view::<B>(&grad) == old(grads)@[node] && #[trigger] func.ensures(
                    (&grad,),
                    share,
                ) ==> old(grads).accepts(parent, float_view::<B>(&share))
        },
    ensures
        parents[0] is None ==> *final(grads) == *old(grads),
        parents[0] matches Some(parent) ==> exists|
            grad: B::FloatTensorPrimitive,
            share: B::FloatTensorPrimitive,
        |
            {
                &&& float_view::<B>(&grad) == old(grads)@[node]
                &&& #[trigger] func.ensures((&grad,), share)
                &&& final(grads)@ == old(grads)@.insert(
                    parent,
                    merged(old(grads)@, parent, float_view::<B>(&share)),
                )
            },
{
    if let Some(parent) = parents[0] {
        if let Some(grad) = grads.get(node) {
            let share = func(grad);
            grads.accumulate(parent, share);
        }
    }
}

} // verus!
