//! The numeric backend as the backward rules see it.
use vstd::prelude::*;
use burn_tensor::Shape;
use crate::grid::{plus, volume, zeros, Grid};
use crate::scatter::{scatter, scatter_fits};
use crate::shape::shape_dims;

verus! {

/// The operations that the backward rules need from a numeric backend, each
/// with the arithmetic it stands for.
///
/// The operations have the names and the arguments of the operations of
/// `burn_tensor::backend::Backend`, so that each backend of `burn_tensor`
/// offers them; `float_scatter` alone borrows the values that it scatters. The
/// contracts follow what `burn_tensor` documents of them.
///
/// Nothing here is proved of a backend: the contracts are what this library
/// assumes of every implementation. A float tensor is described by its content,
/// with the value of each cell taken as a real number, and by the device that
/// holds it; an int tensor by its content. The arithmetic is that of the real
/// numbers, which floating-point kernels follow up to rounding. An
/// implementation written in Verus gives these three descriptions and proves
/// the contracts against them. One written in plain Rust leaves them as they
/// are here, where they say nothing.
pub trait Backend: Sized {
    /// Where a tensor lives.
    type Device;

    /// A tensor of floating-point values.
    type FloatTensorPrimitive;

    /// A tensor of integers.
    type IntTensorPrimitive;

    /// The extents of a float tensor and the value in each of its cells.
    open spec fn float_grid(tensor: &Self::FloatTensorPrimitive) -> Grid<real> {
        arbitrary()
    }

    /// The device that holds a float tensor.
    open spec fn float_device_of(tensor: &Self::FloatTensorPrimitive) -> Self::Device {
        arbitrary()
    }

    /// The extents of an int tensor and the integer in each of its cells.
    open spec fn int_grid(tensor: &Self::IntTensorPrimitive) -> Grid<int> {
        arbitrary()
    }

    /// The device that holds `tensor`.
    fn float_device(tensor: &Self::FloatTensorPrimitive) -> (device: Self::Device)
        ensures
            device == Self::float_device_of(tensor),
    ;

    /// A tensor of zeros with the extents of `shape`, on `device`.
    fn float_zeros(shape: Shape, device: &Self::Device) -> (tensor: Self::FloatTensorPrimitive)
        requires
            volume(shape_dims(shape)) <= usize::MAX,
        ensures
            Self::float_grid(&tensor) == zeros(shape_dims(shape)),
            Self::float_device_of(&tensor) == *device,
    ;

    /// The cell-by-cell sum of two tensors of the same extents on one device.
    fn float_add(lhs: Self::FloatTensorPrimitive, rhs: Self::FloatTensorPrimitive) -> (sum:
        Self::FloatTensorPrimitive)
        requires
            Self::float_grid(&lhs).shape == Self::float_grid(&rhs).shape,
            Self::float_device_of(&lhs) == Self::float_device_of(&rhs),
        ensures
            Self::float_grid(&sum) == plus(Self::float_grid(&lhs), Self::float_grid(&rhs)),
            Self::float_device_of(&sum) == Self::float_device_of(&lhs),
    ;

    /// Scatter with sum reduction: `tensor` with each cell of `value` added to
    /// the cell that `indices` names for it along the axis `dim`. With three
    /// axes and `dim` the last one, the cell `[i, j, k]` of `value` is added to
    /// the cell `[i, j, indices[i, j, k]]`.
    fn float_scatter(
        dim: usize,
        tensor: Self::FloatTensorPrimitive,
        indices: Self::IntTensorPrimitive,
        value: &Self::FloatTensorPrimitive,
    ) -> (out: Self::FloatTensorPrimitive)
        requires
            scatter_fits(
                dim as int,
                Self::float_grid(&tensor),
                Self::int_grid(&indices),
                Self::float_grid(value),
            ),
            Self::float_device_of(&tensor) == Self::float_device_of(value),
        ensures
            Self::float_grid(&out) == scatter(
                dim as int,
                Self::float_grid(&tensor),
                Self::int_grid(&indices),
                Self::float_grid(value),
            ),
            Self::float_device_of(&out) == Self::float_device_of(&tensor),
    ;
}


/// What a float tensor is to the contracts of this library: its content and
/// the device that holds it.
pub struct FloatView<D> {
    pub grid: Grid<real>,
    pub device: D,
}

/// The view of a float tensor of the backend `B`.
pub open spec fn float_view<B: Backend>(tensor: &B::FloatTensorPrimitive) -> FloatView<B::Device> {
    FloatView { grid: B::float_grid(tensor), device: B::float_device_of(tensor) }
}

} // verus!
