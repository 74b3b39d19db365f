//! Scatter with sum reduction, and what it keeps, places and conserves.
use vstd::prelude::*;
use crate::grid::{in_grid, leads_into, sum_along, sum_under, total, Grid};

verus! {

/// What the first `upto` source cells along `axis` send to the cell `at`: the
/// source cell `at` with its coordinate on `axis` replaced by `i` sends its
/// value when the index stored there is `at[axis]`.
pub open spec fn sent_to(
    axis: int,
    indices: Grid<int>,
    values: Grid<real>,
    at: Seq<int>,
    upto: nat,
) -> real
    decreases upto,
{
    if upto == 0 {
        0real
    } else {
        let from = at.update(axis, upto - 1);
        sent_to(axis, indices, values, at, (upto - 1) as nat) + if indices.cells[from] == at[axis] {
            values.cells[from]
        } else {
            0real
        }
    }
}

/// Scatter with sum reduction along `axis`: every cell of `target` keeps its
/// value and gains the values sent to it.
pub open spec fn scatter(axis: int, target: Grid<real>, indices: Grid<int>, values: Grid<real>) -> Grid<
    real,
> {
    Grid::new(
        target.shape,
        |at: Seq<int>| target.cells[at] + sent_to(axis, indices, values, at, indices.shape[axis] as nat),
    )
}

/// The shapes and indices under which a scatter along `axis` is defined:
/// `indices` has the extents of `target` except on `axis`, `values` has the
/// extents of `indices`, and every index is a coordinate of `target` on `axis`.
pub open spec fn scatter_fits(
    axis: int,
    target: Grid<real>,
    indices: Grid<int>,
    values: Grid<real>,
) -> bool {
    &&& 0 <= axis < target.shape.len()
    &&& indices.shape.len() == target.shape.len()
    &&& forall|k: int|
        0 <= k < target.shape.len() && k != axis ==> #[trigger] indices.shape[k] == target.shape[k]
    &&& values.shape == indices.shape
    &&& forall|from: Seq<int>|
        in_grid(indices.shape, from) ==> 0 <= #[trigger] indices.cells[from] < target.shape[axis]
}

/// Some source cell along `axis` sends its value to the cell `at`.
pub open spec fn addressed(axis: int, indices: Grid<int>, at: Seq<int>) -> bool {
    exists|i: int|
        0 <= i < indices.shape[axis] && indices.cells[#[trigger] at.update(axis, i)] == at[axis]
}

proof fn lemma_sent_nothing(
    axis: int,
    indices: Grid<int>,
    values: Grid<real>,
    at: Seq<int>,
    upto: nat,
)
    requires
        upto <= indices.shape[axis],
        !addressed(axis, indices, at),
    ensures
        sent_to(axis, indices, values, at, upto) == 0real,
    decreases upto,
{
    if upto > 0 {
        lemma_sent_nothing(axis, indices, values, at, (upto - 1) as nat);
        let from = at.update(axis, upto - 1);
        assert(indices.cells[from] != at[axis]);
    }
}

/// A cell that no source cell addresses keeps the value it had in the target.
pub proof fn lemma_scatter_elsewhere(
    axis: int,
    target: Grid<real>,
    indices: Grid<int>,
    values: Grid<real>,
    at: Seq<int>,
)
    requires
        in_grid(target.shape, at),
        !addressed(axis, indices, at),
    ensures
        scatter(axis, target, indices, values).cells[at] == target.cells[at],
{
    lemma_sent_nothing(axis, indices, values, at, indices.shape[axis] as nat);
}

proof fn lemma_sent_once(
    axis: int,
    indices: Grid<int>,
    values: Grid<real>,
    from: Seq<int>,
    upto: nat,
)
    requires
        0 <= axis < from.len(),
        forall|i: int|
            0 <= i < indices.shape[axis] && i != from[axis] ==> indices.cells[#[trigger] from.update(
                axis,
                i,
            )] != indices.cells[from],
        0 <= from[axis],
        upto <= indices.shape[axis],
    ensures
        sent_to(axis, indices, values, from.update(axis, indices.cells[from]), upto) == if from[axis]
            < upto {
            values.cells[from]
        } else {
            0real
        },
    decreases upto,
{
    if upto > 0 {
        lemma_sent_once(axis, indices, values, from, (upto - 1) as nat);
        let at = from.update(axis, indices.cells[from]);
        assert(at.update(axis, upto - 1) =~= from.update(axis, upto - 1));
        assert(at[axis] == indices.cells[from]);
        if upto - 1 == from[axis] {
            assert(from.update(axis, upto - 1) =~= from);
        } else {
            assert(indices.cells[from.update(axis, upto - 1)] != indices.cells[from]);
        }
    }
}

/// Where no other source cell of its row along `axis` holds the same index, the
/// value of the source cell `from` is all that the cell it names gains.
pub proof fn lemma_scatter_places(
    axis: int,
    target: Grid<real>,
    indices: Grid<int>,
    values: Grid<real>,
    from: Seq<int>,
)
    requires
        scatter_fits(axis, target, indices, values),
        in_grid(indices.shape, from),
        forall|i: int|
            0 <= i < indices.shape[axis] && i != from[axis] ==> indices.cells[#[trigger] from.update(
                axis,
                i,
            )] != indices.cells[from],
    ensures
        in_grid(target.shape, from.update(axis, indices.cells[from])),
        scatter(axis, target, indices, values).cells[from.update(axis, indices.cells[from])]
            == target.cells[from.update(axis, indices.cells[from])] + values.cells[from],
{
    let at = from.update(axis, indices.cells[from]);
    assert(in_grid(target.shape, at)) by {
        assert forall|k: int| 0 <= k < target.shape.len() implies 0 <= #[trigger] at[k]
            < target.shape[k] by {
            if k != axis {
                assert(at[k] == from[k]);
                assert(indices.shape[k] == target.shape[k]);
            }
        }
    }
    lemma_sent_once(axis, indices, values, from, indices.shape[axis] as nat);
}

/// What the first `upto` source cells of the row `prefix` send to the cells of
/// that row with a last coordinate below `below`.
spec fn landed(indices: Grid<int>, values: Grid<real>, prefix: Seq<int>, upto: nat, below: int) -> real
    decreases upto,
{
    if upto == 0 {
        0real
    } else {
        let from = prefix.push(upto - 1);
        landed(indices, values, prefix, (upto - 1) as nat, below) + if 0 <= indices.cells[from]
            < below {
            values.cells[from]
        } else {
            0real
        }
    }
}

proof fn lemma_landed_nowhere(indices: Grid<int>, values: Grid<real>, prefix: Seq<int>, upto: nat)
    ensures
        landed(indices, values, prefix, upto, 0) == 0real,
    decreases upto,
{
    if upto > 0 {
        lemma_landed_nowhere(indices, values, prefix, (upto - 1) as nat);
    }
}

proof fn lemma_landed_step(
    indices: Grid<int>,
    values: Grid<real>,
    prefix: Seq<int>,
    upto: nat,
    s: int,
)
    requires
        0 <= s,
    ensures
        landed(indices, values, prefix, upto, s + 1) == landed(indices, values, prefix, upto, s)
            + sent_to(prefix.len() as int, indices, values, prefix.push(s), upto),
    decreases upto,
{
    if upto > 0 {
        lemma_landed_step(indices, values, prefix, (upto - 1) as nat, s);
        let at = prefix.push(s);
        assert(at.update(prefix.len() as int, upto - 1) =~= prefix.push(upto - 1));
        assert(at[prefix.len() as int] == s);
    }
}

proof fn lemma_landed_all(
    target: Grid<real>,
    indices: Grid<int>,
    values: Grid<real>,
    prefix: Seq<int>,
    upto: nat,
)
    requires
        scatter_fits(target.shape.len() - 1, target, indices, values),
        leads_into(target.shape, prefix),
        prefix.len() == target.shape.len() - 1,
        upto <= indices.shape[prefix.len() as int],
    ensures
        landed(indices, values, prefix, upto, target.shape[prefix.len() as int] as int)
            == sum_along(values, prefix, upto),
    decreases upto,
{
    if upto > 0 {
        lemma_landed_all(target, indices, values, prefix, (upto - 1) as nat);
        let from = prefix.push(upto - 1);
        assert(in_grid(indices.shape, from));
        assert(sum_under(values, from) == values.cells[from]);
    }
}

proof fn lemma_scatter_row(
    target: Grid<real>,
    indices: Grid<int>,
    values: Grid<real>,
    prefix: Seq<int>,
    s: nat,
)
    requires
        scatter_fits(target.shape.len() - 1, target, indices, values),
        leads_into(target.shape, prefix),
        prefix.len() == target.shape.len() - 1,
        s <= target.shape[prefix.len() as int],
    ensures
        sum_along(scatter(target.shape.len() - 1, target, indices, values), prefix, s) == sum_along(
            target,
            prefix,
            s,
        ) + landed(
            indices,
            values,
            prefix,
            indices.shape[prefix.len() as int] as nat,
            s as int,
        ),
    decreases s,
{
    let axis = target.shape.len() - 1;
    let sources = indices.shape[axis] as nat;
    let out = scatter(axis, target, indices, values);
    if s == 0 {
        lemma_landed_nowhere(indices, values, prefix, sources);
    } else {
        lemma_scatter_row(target, indices, values, prefix, (s - 1) as nat);
        lemma_landed_step(indices, values, prefix, sources, s - 1);
        let at = prefix.push(s - 1);
        assert(in_grid(target.shape, at));
        assert(out.cells[at] == target.cells[at] + sent_to(axis, indices, values, at, sources));
        assert(sum_under(out, at) == out.cells[at]);
        assert(sum_under(target, at) == target.cells[at]);
    }
}

proof fn lemma_scatter_sum_under(
    target: Grid<real>,
    indices: Grid<int>,
    values: Grid<real>,
    prefix: Seq<int>,
)
    requires
        scatter_fits(target.shape.len() - 1, target, indices, values),
        leads_into(target.shape, prefix),
        prefix.len() < target.shape.len(),
    ensures
        sum_under(scatter(target.shape.len() - 1, target, indices, values), prefix) == sum_under(
            target,
            prefix,
        ) + sum_under(values, prefix),
    decreases target.shape.len() - prefix.len(), target.shape[prefix.len() as int] + 1,
{
    let extent = target.shape[prefix.len() as int] as nat;
    if prefix.len() == target.shape.len() - 1 {
        lemma_scatter_row(target, indices, values, prefix, extent);
        lemma_landed_all(
            target,
            indices,
            values,
            prefix,
            indices.shape[prefix.len() as int] as nat,
        );
    } else {
        lemma_scatter_sum_along(target, indices, values, prefix, extent);
    }
}

proof fn lemma_scatter_sum_along(
    target: Grid<real>,
    indices: Grid<int>,
    values: Grid<real>,
    prefix: Seq<int>,
    upto: nat,
)
    requires
        scatter_fits(target.shape.len() - 1, target, indices, values),
        leads_into(target.shape, prefix),
        prefix.len() < target.shape.len() - 1,
        upto <= target.shape[prefix.len() as int],
    ensures
        sum_along(scatter(target.shape.len() - 1, target, indices, values), prefix, upto)
            == sum_along(target, prefix, upto) + sum_along(values, prefix, upto),
    decreases target.shape.len() - prefix.len(), upto,
{
    if upto > 0 {
        lemma_scatter_sum_along(target, indices, values, prefix, (upto - 1) as nat);
        lemma_scatter_sum_under(target, indices, values, prefix.push(upto - 1));
    }
}

/// A scatter along the last axis adds to the sum of the target's cells the sum
/// of the scattered values: nothing is lost and nothing is made, also where
/// several values are sent to one cell.
pub proof fn lemma_scatter_total(target: Grid<real>, indices: Grid<int>, values: Grid<real>)
    requires
        scatter_fits(target.shape.len() - 1, target, indices, values),
    ensures
        total(scatter(target.shape.len() - 1, target, indices, values)) == total(target) + total(
            values,
        ),
{
    lemma_scatter_sum_under(target, indices, values, Seq::empty());
}

} // verus!
