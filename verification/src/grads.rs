//! The gradients kept during a backward pass.
use vstd::prelude::*;
use std::collections::HashMap;
use crate::backend::{float_view, Backend, FloatView};
use crate::grid::plus;

verus! {

broadcast use vstd::std_specs::hash::group_hash_axioms;

/// The identity of a node of the computation graph, and the key under which
/// the gradient of its output is kept.
#[derive(Clone, Copy, Debug, PartialEq, Eq, Hash)]
pub struct NodeId {
    pub value: u64,
}

/// The gradients accumulated so far during one backward pass, by node.
pub struct Gradients<B: Backend> {
    container: HashMap<u64, B::FloatTensorPrimitive>,
}

/// The entry of `node` once `value` has been accumulated into `held`: the sum
/// of the old entry and `value` where there was an entry, else `value`.
pub open spec fn merged<D>(
    held: Map<NodeId, FloatView<D>>,
    node: NodeId,
    value: FloatView<D>,
) -> FloatView<D> {
    if held.contains_key(node) {
        FloatView { grid: plus(held[node].grid, value.grid), device: held[node].device }
    } else {
        value
    }
}

impl<B: Backend> View for Gradients<B> {
    type V = Map<NodeId, FloatView<B::Device>>;

    closed spec fn view(&self) -> Map<NodeId, FloatView<B::Device>> {
        Map::new(
            |node: NodeId| self.container@.contains_key(node.value),
            |node: NodeId| float_view::<B>(&self.container@[node.value]),
        )
    }
}

impl<B: Backend> Gradients<B> {
    /// `value` can be accumulated under `node`: an entry that is already there
    /// has the extents of `value` and lives on its device.
    pub open spec fn accepts(&self, node: NodeId, value: FloatView<B::Device>) -> bool {
        self@.contains_key(node) ==> {
            &&& self@[node].grid.shape == value.grid.shape
            &&& self@[node].device == value.device
        }
    }

    /// A store without entries.
    pub fn new() -> (grads: Self)
        ensures
            grads@ == Map::<NodeId, FloatView<B::Device>>::empty(),
    {
        let grads = Gradients { container: HashMap::new() };
        assert(grads@ =~= Map::<NodeId, FloatView<B::Device>>::empty());
        grads
    }

    /// The gradient kept for `node`, if there is one.
    pub fn get(&self, node: NodeId) -> (found: Option<&B::FloatTensorPrimitive>)
        ensures
            match found {
                Some(tensor) => self@.contains_key(node) && float_view::<B>(tensor) == self@[node],
                None => !self@.contains_key(node),
            },
    {
        self.container.get(&node.value)
    }

    /// Adds `value` to the gradient kept for `node`, or keeps `value` where
    /// there was none. No other entry changes.
    pub fn accumulate(&mut self, node: NodeId, value: B::FloatTensorPrimitive)
        requires
            old(self).accepts(node, float_view::<B>(&value)),
        ensures
            final(self)@ == old(self)@.insert(
                node,
                merged(old(self)@, node, float_view::<B>(&value)),
            ),
    {
        let ghost incoming = float_view::<B>(&value);
        let kept = match self.container.remove(&node.value) {
            Some(held) => B::float_add(held, value),
            None => value,
        };
        self.container.insert(node.value, kept);
        assert(self@ =~= old(self)@.insert(node, merged(old(self)@, node, incoming)));
    }
}

} // verus!
