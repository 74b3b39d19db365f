//! Tensors as mathematical objects: extents, cells and sums of cells.
use vstd::prelude::*;

verus! {

/// The mathematical content of a tensor: its extents, outermost axis first, and
/// the value of every cell. A cell is addressed by one coordinate per axis.
pub struct Grid<E> {
    pub shape: Seq<usize>,
    pub cells: Map<Seq<int>, E>,
}

/// `at` addresses a cell of a tensor with the extents `shape`.
pub open spec fn in_grid(shape: Seq<usize>, at: Seq<int>) -> bool {
    &&& at.len() == shape.len()
    &&& forall|k: int| 0 <= k < shape.len() ==> 0 <= #[trigger] at[k] < shape[k]
}

/// `prefix` fixes the coordinates of the leading axes of `shape`, each within
/// its extent.
pub open spec fn leads_into(shape: Seq<usize>, prefix: Seq<int>) -> bool {
    &&& prefix.len() <= shape.len()
    &&& forall|k: int| 0 <= k < prefix.len() ==> 0 <= #[trigger] prefix[k] < shape[k]
}

/// The number of cells of a tensor with the extents `shape`.
pub open spec fn volume(shape: Seq<usize>) -> nat
    decreases shape.len(),
{
    if shape.len() == 0 {
        1
    } else {
        volume(shape.drop_last()) * (shape.last() as nat)
    }
}

impl<E> Grid<E> {
    /// The grid with the extents `shape` whose cell at `at` holds `value(at)`.
    pub open spec fn new(shape: Seq<usize>, value: spec_fn(Seq<int>) -> E) -> Grid<E> {
        Grid { shape, cells: Map::new(|at: Seq<int>| in_grid(shape, at), value) }
    }
}

/// The grid with the extents `shape` that holds zero everywhere.
pub open spec fn zeros(shape: Seq<usize>) -> Grid<real> {
    Grid::new(shape, |at: Seq<int>| 0real)
}

/// The cell-by-cell sum of two grids with the same extents.
pub open spec fn plus(a: Grid<real>, b: Grid<real>) -> Grid<real> {
    Grid::new(a.shape, |at: Seq<int>| a.cells[at] + b.cells[at])
}

/// The sum of the cells whose leading coordinates are `prefix`.
pub open spec fn sum_under(g: Grid<real>, prefix: Seq<int>) -> real
    decreases g.shape.len() - prefix.len(), g.shape[prefix.len() as int] + 1,
{
    if prefix.len() >= g.shape.len() {
        g.cells[prefix]
    } else {
        sum_along(g, prefix, g.shape[prefix.len() as int] as nat)
    }
}

/// The sum of the cells whose leading coordinates are `prefix` followed by a
/// coordinate below `upto`.
pub open spec fn sum_along(g: Grid<real>, prefix: Seq<int>, upto: nat) -> real
    decreases g.shape.len() - prefix.len(), upto,
{
    if prefix.len() >= g.shape.len() || upto == 0 {
        0real
    } else {
        sum_along(g, prefix, (upto - 1) as nat) + sum_under(g, prefix.push(upto - 1))
    }
}

/// The sum of all cells.
pub open spec fn total(g: Grid<real>) -> real {
    sum_under(g, Seq::empty())
}

proof fn lemma_zeros_sum_under(shape: Seq<usize>, prefix: Seq<int>)
    requires
        leads_into(shape, prefix),
    ensures
        sum_under(zeros(shape), prefix) == 0real,
    decreases shape.len() - prefix.len(), shape[prefix.len() as int] + 1,
{
    if prefix.len() >= shape.len() {
        assert(in_grid(shape, prefix));
    } else {
        lemma_zeros_sum_along(shape, prefix, shape[prefix.len() as int] as nat);
    }
}

proof fn lemma_zeros_sum_along(shape: Seq<usize>, prefix: Seq<int>, upto: nat)
    requires
        leads_into(shape, prefix),
        prefix.len() < shape.len(),
        upto <= shape[prefix.len() as int],
    ensures
        sum_along(zeros(shape), prefix, upto) == 0real,
    decreases shape.len() - prefix.len(), upto,
{
    if upto > 0 {
        lemma_zeros_sum_along(shape, prefix, (upto - 1) as nat);
        lemma_zeros_sum_under(shape, prefix.push(upto - 1));
    }
}

/// The cells of a grid of zeros sum to zero.
pub proof fn lemma_zeros_total(shape: Seq<usize>)
    ensures
        total(zeros(shape)) == 0real,
{
    lemma_zeros_sum_under(shape, Seq::empty());
}

} // verus!
