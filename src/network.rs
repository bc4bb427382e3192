//! A network is a chain of layers; training data is a pair of flat buffers
//! cut into one example per chunk.
use vstd::prelude::*;
use crate::layers::LayerKind;

verus! {

/// Each layer's output width is the next layer's input width.
pub open spec fn chain_fits(layers: Seq<LayerKind>) -> bool {
    forall|i: int|
        0 <= i < layers.len() - 1 ==> #[trigger] layers[i].spec_output_count()
            == layers[i + 1].spec_input_count()
}

/// Whether the layers compose into a chain.
pub fn chain_compatible(layers: &[LayerKind]) -> (r: bool)
    ensures
        r == chain_fits(layers@),
{
    let n = layers.len();
    if n == 0 {
        return true;
    }
    let mut i: usize = 0;
    while i + 1 < n
        invariant
            n == layers@.len(),
            n > 0,
            i + 1 <= n,
            forall|j: int|
                0 <= j < i ==> #[trigger] layers@[j].spec_output_count()
                    == layers@[j + 1].spec_input_count(),
        decreases n - i,
    {
        if layers[i].output_count() != layers[i + 1].input_count() {
            return false;
        }
        i = i + 1;
    }
    true
}

/// The number of examples held by an input buffer of `inputs_len` values and
/// a target buffer of `targets_len` values, `in_width` and `out_width` values
/// per example: both widths must be positive, both buffers whole multiples of
/// them, and the two counts equal.
pub open spec fn spec_example_count(inputs_len: nat, targets_len: nat, in_width: nat, out_width: nat) -> Option<nat> {
    if in_width > 0 && out_width > 0 && inputs_len % in_width == 0 && targets_len % out_width == 0
        && inputs_len / in_width == targets_len / out_width {
        Some(inputs_len / in_width)
    } else {
        None
    }
}

/// Checks the shape of a training set and counts its examples; `None` where
/// the buffers do not divide into the same number of whole examples.
pub fn example_count(inputs_len: usize, targets_len: usize, in_width: usize, out_width: usize) -> (r: Option<usize>)
    ensures
        r matches Some(n) ==> spec_example_count(inputs_len as nat, targets_len as nat, in_width as nat, out_width as nat) == Some(n as nat),
        r is None ==> spec_example_count(inputs_len as nat, targets_len as nat, in_width as nat, out_width as nat) is None,
{
    if in_width == 0 || out_width == 0 {
        return None;
    }
    if inputs_len % in_width != 0 || targets_len % out_width != 0 {
        return None;
    }
    let n = inputs_len / in_width;
    if n != targets_len / out_width {
        return None;
    }
    Some(n)
}

/// The half-open range of example `k` in a buffer of `width` values per example.
pub fn example_bounds(k: usize, width: usize, len: usize) -> (r: (usize, usize))
    requires
        (k + 1) * width <= len,
    ensures
        r.0 == k * width,
        r.1 == (k + 1) * width,
        r.0 <= r.1 <= len,
{
    proof {
        assert((k + 1) * width == k * width + width) by (nonlinear_arith);
    }
    let start = k * width;
    (start, start + width)
}

} // verus!
