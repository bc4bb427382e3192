//! Loss functions for training a network.
use vstd::prelude::*;

verus! {

/// The squared error `e = (y - t)^2`, with derivative `de/dy = 2 * (y - t)`.
#[derive(Clone, Copy, Debug, PartialEq, Eq, Structural)]
pub struct SquaredError;

} // verus!
