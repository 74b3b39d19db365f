//! `burn_tensor::Shape` as the contracts see it.
use vstd::prelude::*;
use burn_tensor::Shape;

verus! {

/// `burn_tensor::Shape`, the shape of a tensor. Verus sees nothing inside a
/// value of it: the library carries shapes through and hands them to the
/// backend.
#[verifier::external_type_specification]
#[verifier::external_body]
pub struct ExShape(Shape);

/// The extents that a `burn_tensor::Shape` holds in its field `dims`, outermost
/// axis first.
pub uninterp spec fn shape_dims(shape: Shape) -> Seq<usize>;

/// `Shape::num_dims` returns the number of dimensions, which is the length of
/// the field `dims`. Assumed, not proved.
pub assume_specification[ Shape::num_dims ](shape: &Shape) -> (n: usize)
    ensures
        n == shape_dims(*shape).len(),
;

} // verus!
