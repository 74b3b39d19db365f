//! The backward rule of a maximum or minimum along an axis, for a
//! reverse-mode automatic differentiation engine, with its contracts.
pub mod shape;
pub mod grid;
pub mod scatter;
pub mod backend;
pub mod grads;
pub mod ops;
pub mod maxmin;
