use autodiff_maxmin::backend::Backend;
use autodiff_maxmin::grads::{Gradients, NodeId};
use autodiff_maxmin::maxmin::MaxMinDim;
use autodiff_maxmin::ops::{unary, Backward, Ops};
use burn_tensor::Shape;
use std::cell::Cell;

/// A float tensor kept in row-major order.
#[derive(Clone, Debug, PartialEq)]
struct Floats {
    dims: Vec<usize>,
    data: Vec<f64>,
    device: u8,
}

/// An int tensor kept in row-major order.
#[derive(Clone, Debug, PartialEq)]
struct Ints {
    dims: Vec<usize>,
    data: Vec<i64>,
}

fn floats(dims: &[usize], data: &[f64], device: u8) -> Floats {
    assert_eq!(dims.iter().product::<usize>(), data.len());
    Floats { dims: dims.to_vec(), data: data.to_vec(), device }
}

fn ints(dims: &[usize], data: &[i64]) -> Ints {
    assert_eq!(dims.iter().product::<usize>(), data.len());
    Ints { dims: dims.to_vec(), data: data.to_vec() }
}

fn offset(dims: &[usize], at: &[usize]) -> usize {
    let mut flat = 0;
    for (extent, coordinate) in dims.iter().zip(at) {
        assert!(coordinate < extent);
        flat = flat * extent + coordinate;
    }
    flat
}

fn coordinates(dims: &[usize], flat: usize) -> Vec<usize> {
    let mut rest = flat;
    let mut at = vec![0; dims.len()];
    for axis in (0..dims.len()).rev() {
        at[axis] = rest % dims[axis];
        rest /= dims[axis];
    }
    at
}

/// A backend that computes on the host, with devices told apart by a number.
struct Dense;

impl Backend for Dense {
    type Device = u8;
    type FloatTensorPrimitive = Floats;
    type IntTensorPrimitive = Ints;

    fn float_device(tensor: &Floats) -> u8 {
        tensor.device
    }

    fn float_zeros(shape: Shape, device: &u8) -> Floats {
        let cells = shape.dims.iter().product();
        Floats { dims: shape.dims, data: vec![0.0; cells], device: *device }
    }

    fn float_add(lhs: Floats, rhs: Floats) -> Floats {
        assert_eq!(lhs.dims, rhs.dims);
        assert_eq!(lhs.device, rhs.device);
        let data = lhs.data.iter().zip(&rhs.data).map(|(a, b)| a + b).collect();
        Floats { dims: lhs.dims, data, device: lhs.device }
    }

    fn float_scatter(dim: usize, tensor: Floats, indices: Ints, value: &Floats) -> Floats {
        assert_eq!(indices.dims, value.dims);
        assert_eq!(tensor.device, value.device);
        let mut out = tensor;
        for flat in 0..indices.data.len() {
            let mut at = coordinates(&indices.dims, flat);
            at[dim] = indices.data[flat] as usize;
            let cell = offset(&out.dims, &at);
            out.data[cell] += value.data[flat];
        }
        out
    }
}

/// A backend on which every operation fails.
struct Unreachable;

impl Backend for Unreachable {
    type Device = u8;
    type FloatTensorPrimitive = Floats;
    type IntTensorPrimitive = Ints;

    fn float_device(_tensor: &Floats) -> u8 {
        panic!("the device was asked for")
    }

    fn float_zeros(_shape: Shape, _device: &u8) -> Floats {
        panic!("zeros were allocated")
    }

    fn float_add(_lhs: Floats, _rhs: Floats) -> Floats {
        panic!("two tensors were added")
    }

    fn float_scatter(_dim: usize, _tensor: Floats, _indices: Ints, _value: &Floats) -> Floats {
        panic!("a scatter was run")
    }
}

fn node(value: u64) -> NodeId {
    NodeId { value }
}

fn sum(tensor: &Floats) -> f64 {
    tensor.data.iter().sum()
}

#[test]
fn placement_for_two_rows_of_three() {
    let indices = ints(&[2, 1], &[2, 0]);
    let incoming = floats(&[2, 1], &[5.0, 7.0], 0);
    let out = MaxMinDim::apply::<Dense>((indices, Shape::new([2, 3])), &incoming);
    assert_eq!(out, floats(&[2, 3], &[0.0, 0.0, 5.0, 7.0, 0.0, 0.0], 0));
}

#[test]
fn result_has_the_extents_of_the_input() {
    let indices = ints(&[2, 3, 1], &[0, 1, 2, 3, 0, 1]);
    let incoming = floats(&[2, 3, 1], &[1.0, 2.0, 3.0, 4.0, 5.0, 6.0], 0);
    let out = MaxMinDim::apply::<Dense>((indices, Shape::new([2, 3, 4])), &incoming);
    assert_eq!(out.dims, vec![2, 3, 4]);
    assert_eq!(out.data.len(), 24);
}

#[test]
fn scatter_runs_along_the_last_of_three_axes() {
    let indices = ints(&[2, 2, 1], &[1, 0, 2, 1]);
    let incoming = floats(&[2, 2, 1], &[1.5, 2.5, 3.5, 4.5], 0);
    let out = MaxMinDim::apply::<Dense>((indices, Shape::new([2, 2, 3])), &incoming);
    assert_eq!(
        out.data,
        vec![0.0, 1.5, 0.0, 2.5, 0.0, 0.0, 0.0, 0.0, 3.5, 0.0, 4.5, 0.0]
    );
}

#[test]
fn input_with_one_axis() {
    let indices = ints(&[1], &[3]);
    let incoming = floats(&[1], &[-2.25], 0);
    let out = MaxMinDim::apply::<Dense>((indices, Shape::new([5])), &incoming);
    assert_eq!(out, floats(&[5], &[0.0, 0.0, 0.0, -2.25, 0.0], 0));
}

#[test]
fn input_without_rows_gives_an_empty_gradient() {
    let indices = ints(&[0, 1], &[]);
    let incoming = floats(&[0, 1], &[], 0);
    let out = MaxMinDim::apply::<Dense>((indices, Shape::new([0, 3])), &incoming);
    assert_eq!(out, floats(&[0, 3], &[], 0));
}

#[test]
fn gradient_sum_is_conserved() {
    let indices = ints(&[3, 1], &[1, 3, 0]);
    let incoming = floats(&[3, 1], &[0.5, -4.0, 8.0], 0);
    let out = MaxMinDim::apply::<Dense>((indices, Shape::new([3, 4])), &incoming);
    assert_eq!(sum(&incoming), 4.5);
    assert_eq!(sum(&out), 4.5);
}

#[test]
fn values_sent_to_one_cell_are_added() {
    let indices = ints(&[2, 3], &[1, 1, 0, 2, 2, 2]);
    let incoming = floats(&[2, 3], &[1.0, 2.0, 4.0, 8.0, 16.0, 32.0], 0);
    let out = MaxMinDim::apply::<Dense>((indices, Shape::new([2, 3])), &incoming);
    assert_eq!(out.data, vec![4.0, 3.0, 0.0, 0.0, 0.0, 56.0]);
    assert_eq!(sum(&out), sum(&incoming));
}

#[test]
fn cells_that_were_not_selected_are_zero() {
    let indices = ints(&[2, 1], &[1, 3]);
    let incoming = floats(&[2, 1], &[9.0, 11.0], 0);
    let out = MaxMinDim::apply::<Dense>((indices, Shape::new([2, 4])), &incoming);
    for row in 0..2 {
        for column in 0..4 {
            let selected = (row == 0 && column == 1) || (row == 1 && column == 3);
            if !selected {
                assert_eq!(out.data[row * 4 + column], 0.0);
            }
        }
    }
    assert_eq!(out.data[1], 9.0);
    assert_eq!(out.data[7], 11.0);
}

#[test]
fn result_lives_on_the_device_of_the_incoming_gradient() {
    let incoming = floats(&[2, 1], &[5.0, 7.0], 3);
    let out = MaxMinDim::apply::<Dense>((ints(&[2, 1], &[2, 0]), Shape::new([2, 3])), &incoming);
    assert_eq!(out.device, 3);
    let elsewhere = floats(&[2, 1], &[5.0, 7.0], 8);
    let out = MaxMinDim::apply::<Dense>((ints(&[2, 1], &[2, 0]), Shape::new([2, 3])), &elsewhere);
    assert_eq!(out.device, 8);
}

#[test]
fn a_new_store_has_no_entries() {
    let grads: Gradients<Dense> = Gradients::new();
    assert!(grads.get(node(0)).is_none());
    assert!(grads.get(node(7)).is_none());
}

#[test]
fn first_gradient_of_a_node_is_kept_as_it_is() {
    let mut grads: Gradients<Dense> = Gradients::new();
    grads.accumulate(node(4), floats(&[2], &[1.0, -1.0], 2));
    assert_eq!(grads.get(node(4)), Some(&floats(&[2], &[1.0, -1.0], 2)));
    assert!(grads.get(node(5)).is_none());
}

#[test]
fn later_gradients_of_a_node_are_added() {
    let mut grads: Gradients<Dense> = Gradients::new();
    grads.accumulate(node(4), floats(&[2], &[1.0, -1.0], 0));
    grads.accumulate(node(4), floats(&[2], &[0.5, 3.0], 0));
    grads.accumulate(node(9), floats(&[1], &[6.0], 0));
    assert_eq!(grads.get(node(4)), Some(&floats(&[2], &[1.5, 2.0], 0)));
    assert_eq!(grads.get(node(9)), Some(&floats(&[1], &[6.0], 0)));
}

#[test]
fn unary_hands_the_result_to_the_parent() {
    let mut grads: Gradients<Dense> = Gradients::new();
    grads.accumulate(node(2), floats(&[2], &[1.0, 2.0], 0));
    unary::<Dense, _>([Some(node(1))], node(2), &mut grads, |grad: &Floats| {
        floats(&[2], &[grad.data[0] * 10.0, grad.data[1] * 10.0], 0)
    });
    assert_eq!(grads.get(node(1)), Some(&floats(&[2], &[10.0, 20.0], 0)));
    assert_eq!(grads.get(node(2)), Some(&floats(&[2], &[1.0, 2.0], 0)));
}

#[test]
fn unary_adds_to_what_the_parent_already_has() {
    let mut grads: Gradients<Dense> = Gradients::new();
    grads.accumulate(node(1), floats(&[2], &[0.25, 0.5], 0));
    grads.accumulate(node(2), floats(&[2], &[1.0, 2.0], 0));
    unary::<Dense, _>([Some(node(1))], node(2), &mut grads, |grad: &Floats| grad.clone());
    assert_eq!(grads.get(node(1)), Some(&floats(&[2], &[1.25, 2.5], 0)));
}

#[test]
fn unary_does_not_call_its_function_for_a_frozen_parent() {
    let called = Cell::new(false);
    let mut grads: Gradients<Dense> = Gradients::new();
    grads.accumulate(node(2), floats(&[1], &[1.0], 0));
    unary::<Dense, _>([None], node(2), &mut grads, |grad: &Floats| {
        called.set(true);
        grad.clone()
    });
    assert!(!called.get());
    assert_eq!(grads.get(node(2)), Some(&floats(&[1], &[1.0], 0)));
    assert!(grads.get(node(1)).is_none());
}

#[test]
fn unary_with_a_frozen_parent_needs_no_gradient_of_the_node() {
    let mut grads: Gradients<Dense> = Gradients::new();
    unary::<Dense, _>([None], node(2), &mut grads, |grad: &Floats| grad.clone());
    assert!(grads.get(node(2)).is_none());
}

#[test]
fn backward_gives_the_parent_the_input_gradient() {
    let mut grads: Gradients<Dense> = Gradients::new();
    grads.accumulate(node(2), floats(&[2, 1], &[5.0, 7.0], 1));
    let ops = Ops {
        parents: [Some(node(1))],
        node: node(2),
        state: (ints(&[2, 1], &[2, 0]), Shape::new([2, 3])),
    };
    let mut checkpointer = 0u32;
    <MaxMinDim as Backward<Dense, 1>>::backward(MaxMinDim, ops, &mut grads, &mut checkpointer);
    assert_eq!(
        grads.get(node(1)),
        Some(&floats(&[2, 3], &[0.0, 0.0, 5.0, 7.0, 0.0, 0.0], 1))
    );
    assert_eq!(grads.get(node(2)), Some(&floats(&[2, 1], &[5.0, 7.0], 1)));
}

#[test]
fn backward_adds_to_the_gradient_that_the_parent_has() {
    let mut grads: Gradients<Dense> = Gradients::new();
    grads.accumulate(node(1), floats(&[2, 3], &[1.0, 2.0, 3.0, 4.0, 5.0, 6.0], 0));
    grads.accumulate(node(2), floats(&[2, 1], &[5.0, 7.0], 0));
    let ops = Ops {
        parents: [Some(node(1))],
        node: node(2),
        state: (ints(&[2, 1], &[2, 0]), Shape::new([2, 3])),
    };
    let mut checkpointer = ();
    <MaxMinDim as Backward<Dense, 1>>::backward(MaxMinDim, ops, &mut grads, &mut checkpointer);
    assert_eq!(
        grads.get(node(1)),
        Some(&floats(&[2, 3], &[1.0, 2.0, 8.0, 11.0, 5.0, 6.0], 0))
    );
}

#[test]
fn backward_leaves_other_entries_alone() {
    let mut grads: Gradients<Dense> = Gradients::new();
    grads.accumulate(node(2), floats(&[1, 1], &[4.0], 0));
    grads.accumulate(node(30), floats(&[3], &[1.0, 1.0, 1.0], 5));
    let ops = Ops {
        parents: [Some(node(1))],
        node: node(2),
        state: (ints(&[1, 1], &[1]), Shape::new([1, 2])),
    };
    let mut checkpointer = 0u8;
    <MaxMinDim as Backward<Dense, 1>>::backward(MaxMinDim, ops, &mut grads, &mut checkpointer);
    assert_eq!(grads.get(node(1)), Some(&floats(&[1, 2], &[0.0, 4.0], 0)));
    assert_eq!(grads.get(node(30)), Some(&floats(&[3], &[1.0, 1.0, 1.0], 5)));
    assert!(grads.get(node(3)).is_none());
}

#[test]
fn backward_for_a_frozen_parent_does_nothing() {
    let mut grads: Gradients<Unreachable> = Gradients::new();
    grads.accumulate(node(2), floats(&[2, 1], &[5.0, 7.0], 0));
    let ops = Ops {
        parents: [None],
        node: node(2),
        state: (ints(&[2, 1], &[2, 0]), Shape::new([2, 3])),
    };
    let mut checkpointer = 0u32;
    <MaxMinDim as Backward<Unreachable, 1>>::backward(MaxMinDim, ops, &mut grads, &mut checkpointer);
    assert_eq!(grads.get(node(2)), Some(&floats(&[2, 1], &[5.0, 7.0], 0)));
    assert!(grads.get(node(1)).is_none());
}

#[test]
fn backward_leaves_the_checkpointer_alone() {
    let mut grads: Gradients<Dense> = Gradients::new();
    grads.accumulate(node(2), floats(&[1, 1], &[1.0], 0));
    let ops = Ops {
        parents: [Some(node(1))],
        node: node(2),
        state: (ints(&[1, 1], &[0]), Shape::new([1, 1])),
    };
    let mut checkpointer = vec![3u8, 1, 4];
    <MaxMinDim as Backward<Dense, 1>>::backward(MaxMinDim, ops, &mut grads, &mut checkpointer);
    assert_eq!(checkpointer, vec![3u8, 1, 4]);
}

#[test]
fn a_node_may_be_its_own_parent_key() {
    let mut grads: Gradients<Dense> = Gradients::new();
    grads.accumulate(node(2), floats(&[1, 2], &[1.0, 2.0], 0));
    let ops = Ops {
        parents: [Some(node(2))],
        node: node(2),
        state: (ints(&[1, 2], &[1, 0]), Shape::new([1, 2])),
    };
    let mut checkpointer = ();
    <MaxMinDim as Backward<Dense, 1>>::backward(MaxMinDim, ops, &mut grads, &mut checkpointer);
    assert_eq!(grads.get(node(2)), Some(&floats(&[1, 2], &[3.0, 3.0], 0)));
}
