//! Maximum and minimum along the last axis.
use vstd::prelude::*;
use burn_tensor::Shape;
use crate::backend::{Backend, FloatView};
use crate::grads::{merged, Gradients};
use crate::grid::{in_grid, lemma_zeros_total, plus, total, volume, zeros, Grid};
use crate::scatter::{
    addressed, lemma_scatter_elsewhere, lemma_scatter_places, lemma_scatter_total, scatter,
    scatter_fits,
};
use crate::ops::{unary, Backward, Ops};
use crate::shape::shape_dims;

verus! {

/// The backward rule of a maximum or minimum taken along the last axis.
///
/// The forward operation keeps, for every cell of its output, the coordinate
/// on the last axis of the input cell that it selected, and the extents of the
/// input.
#[derive(Debug)]
pub struct MaxMinDim;

/// The gradient of the input: zero everywhere, and then each cell of
/// `incoming` added to the input cell that its index selects on the last axis.
pub open spec fn input_gradient(indices: Grid<int>, dims: Seq<usize>, incoming: Grid<real>) -> Grid<
    real,
> {
    scatter(dims.len() - 1, zeros(dims), indices, incoming)
}

/// The recorded selection and the gradient of the output belong to an input
/// with the extents `dims`: there is a last axis, `indices` and `incoming`
/// have the same extents, which are those of the input on every other axis,
/// every index is a coordinate of the input on the last axis, and the number of
/// cells of the input is one that the machine can count.
pub open spec fn selects_from(indices: Grid<int>, dims: Seq<usize>, incoming: Grid<real>) -> bool {
    &&& scatter_fits(dims.len() - 1, zeros(dims), indices, incoming)
    &&& volume(dims) <= usize::MAX
}

/// What the rule computes for the parent of the node of `ops`: the input
/// gradient made from the gradient kept for the node, on the device of that
/// gradient.
pub open spec fn parent_share<B: Backend>(
    ops: &Ops<(B::IntTensorPrimitive, Shape), 1>,
    grads: &Gradients<B>,
) -> FloatView<B::Device> {
    FloatView {
        grid: input_gradient(
            B::int_grid(&ops.state.0),
            shape_dims(ops.state.1),
            grads@[ops.node].grid,
        ),
        device: grads@[ops.node].device,
    }
}

impl MaxMinDim {
    /// Turns the gradient of the output into the gradient of the input.
    pub fn apply<B: Backend>(
        state: (B::IntTensorPrimitive, Shape),
        incoming: &B::FloatTensorPrimitive,
    ) -> (out: B::FloatTensorPrimitive)
        requires
            selects_from(B::int_grid(&state.0), shape_dims(state.1), B::float_grid(incoming)),
        ensures
            B::float_grid(&out) == input_gradient(
                B::int_grid(&state.0),
                shape_dims(state.1),
                B::float_grid(incoming),
            ),
            B::float_grid(&out).shape == shape_dims(state.1),
            B::float_device_of(&out) == B::float_device_of(incoming),
            total(B::float_grid(&out)) == total(B::float_grid(incoming)),
            forall|at: Seq<int>|
                in_grid(shape_dims(state.1), at) && !addressed(
                    shape_dims(state.1).len() - 1,
                    B::int_grid(&state.0),
                    at,
                ) ==> #[trigger] B::float_grid(&out).cells[at] == 0real,
    {
        let (indices, shape) = state;
        let ndims: usize = shape.num_dims();
        let device = B::float_device(incoming);
        let zeros = B::float_zeros(shape, &device);
        let ghost dims = shape_dims(shape);
        let ghost target = B::float_grid(&zeros);
        let ghost selection = B::int_grid(&indices);
        let out = B::float_scatter(ndims - 1, zeros, indices, incoming);
        proof {
            lemma_scatter_total(target, selection, B::float_grid(incoming));
            lemma_zeros_total(dims);
            assert forall|at: Seq<int>|
                in_grid(dims, at) && !addressed(dims.len() - 1, selection, at) implies (
            #[trigger] B::float_grid(&out).cells[at]) == 0real by {
                lemma_scatter_elsewhere(
                    dims.len() - 1,
                    target,
                    selection,
                    B::float_grid(incoming),
                    at,
                );
            }
        }
        out
    }
}

impl<B: Backend> Backward<B, 1> for MaxMinDim {
    type State = (B::IntTensorPrimitive, Shape);

    /// Where the parent needs a gradient: the gradient of the node's output is
    /// in the store, it and the recorded selection belong to the recorded
    /// extents, and a gradient already kept for the parent has those extents
    /// and lives on the device of the node's gradient.
    open spec fn ready(&self, ops: &Ops<Self::State, 1>, grads: &Gradients<B>) -> bool {
        ops.parents[0] matches Some(parent) ==> {
            &&& grads@.contains_key(ops.node)
            &&& selects_from(
                B::int_grid(&ops.state.0),
                shape_dims(ops.state.1),
                grads@[ops.node].grid,
            )
            &&& grads@.contains_key(parent) ==> {
                &&& grads@[parent].grid.shape == shape_dims(ops.state.1)
                &&& grads@[parent].device == grads@[ops.node].device
            }
        }
    }

    /// Hands the gradient of the node's output on to the parent: the parent's
    /// entry gains the input gradient, on the device of the node's gradient.
    /// Where the parent needs no gradient the store is left as it is. The
    /// checkpointer is never touched.
    fn backward<C>(self, ops: Ops<Self::State, 1>, grads: &mut Gradients<B>, checkpointer: &mut C)
        ensures
            *final(checkpointer) == *old(checkpointer),
            ops.parents[0] is None ==> *final(grads) == *old(grads),
            ops.parents[0] matches Some(parent) ==> final(grads)@ == old(grads)@.insert(
                parent,
                merged(old(grads)@, parent, parent_share::<B>(&ops, old(grads))),
            ),
            ops.parents[0] matches Some(parent) ==> {
                &&& final(grads)@.contains_key(parent)
                &&& final(grads)@[parent].grid.shape == shape_dims(ops.state.1)
                &&& final(grads)@[parent].device == old(grads)@[ops.node].device
                &&& final(grads)@[parent].grid == if old(grads)@.contains_key(parent) {
                    plus(old(grads)@[parent].grid, parent_share::<B>(&ops, old(grads)).grid)
                } else {
                    parent_share::<B>(&ops, old(grads)).grid
                }
            },
    {
        let Ops { parents, node, state } = ops;
        let rule = |grad: &B::FloatTensorPrimitive| -> (share: B::FloatTensorPrimitive)
            requires
                selects_from(B::int_grid(&state.0), shape_dims(state.1), B::float_grid(grad)),
            ensures
                B::float_grid(&share) == input_gradient(
                    B::int_grid(&state.0),
                    shape_dims(state.1),
                    B::float_grid(grad),
                ),
                B::float_device_of(&share) == B::float_device_of(grad),
            {
                MaxMinDim::apply::<B>(state, grad)
            };
        unary::<B, _>(parents, node, grads, rule);
    }
}


/// Placement: a cell of the output's gradient whose index no other cell of its
/// row shares arrives unchanged at the input cell that the index selects. The
/// forward operation keeps one index for each row, so this holds of every cell
/// that it records.
pub proof fn lemma_input_gradient_places(
    indices: Grid<int>,
    dims: Seq<usize>,
    incoming: Grid<real>,
    from: Seq<int>,
)
    requires
        selects_from(indices, dims, incoming),
        in_grid(indices.shape, from),
        forall|i: int|
            0 <= i < indices.shape[dims.len() - 1] && i != from[dims.len() - 1]
                ==> indices.cells[#[trigger] from.update(dims.len() - 1, i)] != indices.cells[from],
    ensures
        in_grid(dims, from.update(dims.len() - 1, indices.cells[from])),
        input_gradient(indices, dims, incoming).cells[from.update(
            dims.len() - 1,
            indices.cells[from],
        )] == incoming.cells[from],
{
    lemma_scatter_places(dims.len() - 1, zeros(dims), indices, incoming, from);
}

} // verus!
