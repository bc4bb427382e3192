//! Layer variants: their widths, their parameter counts, and the layouts
//! that the forward and backward passes share.
use vstd::prelude::*;

verus! {

/// Which of the two backward operations a layer variant provides.
#[derive(Clone, Copy, Debug, PartialEq, Eq, Structural)]
pub enum DeltaForm {
    /// The derivative is expressed through the layer's own outputs.
    FromOutputs,
    /// The derivative is expressed through the layer's inputs.
    FromInputs,
}

/// Elementwise hyperbolic-tangent activation of a fixed width.
#[derive(Clone, Copy, Debug, PartialEq, Eq, Structural)]
pub struct HyperbolicLayer {
    pub size: usize,
}

/// Elementwise logistic (sigmoid) activation of a fixed width.
#[derive(Clone, Copy, Debug, PartialEq, Eq, Structural)]
pub struct SigmoidLayer {
    pub size: usize,
}

/// Elementwise rectified activation of a fixed width.
#[derive(Clone, Copy, Debug, PartialEq, Eq, Structural)]
pub struct RectifiedLayer {
    pub size: usize,
}

impl HyperbolicLayer {
    pub fn kind(&self) -> (r: LayerKind)
        ensures
            r == (LayerKind::Hyperbolic { size: self.size }),
    {
        LayerKind::Hyperbolic { size: self.size }
    }

    pub fn input_count(&self) -> (r: usize)
        ensures
            r == self.size,
    {
        self.size
    }

    pub fn output_count(&self) -> (r: usize)
        ensures
            r == self.size,
    {
        self.size
    }

    /// An activation has no trainable weights.
    pub fn weight_count(&self) -> (r: usize)
        ensures
            r == 0,
    {
        0
    }

    /// An activation has no neurons with a bias.
    pub fn neuron_count(&self) -> (r: usize)
        ensures
            r == 0,
    {
        0
    }
}

impl SigmoidLayer {
    pub fn kind(&self) -> (r: LayerKind)
        ensures
            r == (LayerKind::Sigmoid { size: self.size }),
    {
        LayerKind::Sigmoid { size: self.size }
    }

    pub fn input_count(&self) -> (r: usize)
        ensures
            r == self.size,
    {
        self.size
    }

    pub fn output_count(&self) -> (r: usize)
        ensures
            r == self.size,
    {
        self.size
    }

    /// An activation has no trainable weights.
    pub fn weight_count(&self) -> (r: usize)
        ensures
            r == 0,
    {
        0
    }

    /// An activation has no neurons with a bias.
    pub fn neuron_count(&self) -> (r: usize)
        ensures
            r == 0,
    {
        0
    }
}

impl RectifiedLayer {
    pub fn kind(&self) -> (r: LayerKind)
        ensures
            r == (LayerKind::Rectified { size: self.size }),
    {
        LayerKind::Rectified { size: self.size }
    }

    pub fn input_count(&self) -> (r: usize)
        ensures
            r == self.size,
    {
        self.size
    }

    pub fn output_count(&self) -> (r: usize)
        ensures
            r == self.size,
    {
        self.size
    }

    /// An activation has no trainable weights.
    pub fn weight_count(&self) -> (r: usize)
        ensures
            r == 0,
    {
        0
    }

    /// An activation has no neurons with a bias.
    pub fn neuron_count(&self) -> (r: usize)
        ensures
            r == 0,
    {
        0
    }
}

/// The shape of a layer of any variant: what the chain check, the trainer's
/// bookkeeping and the parameter buffers depend on.
#[derive(Clone, Copy, Debug, PartialEq, Eq, Structural)]
pub enum LayerKind {
    /// A weighted layer: `neurons` rows of `inputs` weights, and one bias per neuron.
    Dense { inputs: usize, neurons: usize },
    Hyperbolic { size: usize },
    Sigmoid { size: usize },
    Rectified { size: usize },
}

impl LayerKind {
    /// A weighted layer's weight buffer must be addressable.
    pub open spec fn wf(self) -> bool {
        match self {
            LayerKind::Dense { inputs, neurons } => inputs * neurons <= usize::MAX,
            _ => true,
        }
    }

    pub open spec fn spec_input_count(self) -> nat {
        match self {
            LayerKind::Dense { inputs, .. } => inputs as nat,
            LayerKind::Hyperbolic { size } => size as nat,
            LayerKind::Sigmoid { size } => size as nat,
            LayerKind::Rectified { size } => size as nat,
        }
    }

    pub open spec fn spec_output_count(self) -> nat {
        match self {
            LayerKind::Dense { neurons, .. } => neurons as nat,
            LayerKind::Hyperbolic { size } => size as nat,
            LayerKind::Sigmoid { size } => size as nat,
            LayerKind::Rectified { size } => size as nat,
        }
    }

    /// Length of the weight buffer: one row of `inputs` weights per neuron.
    pub open spec fn spec_weight_count(self) -> nat {
        match self {
            LayerKind::Dense { inputs, neurons } => (inputs * neurons) as nat,
            _ => 0,
        }
    }

    /// Length of the bias buffer: one bias per neuron.
    pub open spec fn spec_neuron_count(self) -> nat {
        match self {
            LayerKind::Dense { neurons, .. } => neurons as nat,
            _ => 0,
        }
    }

    pub open spec fn spec_delta_form(self) -> DeltaForm {
        match self {
            LayerKind::Hyperbolic { .. } => DeltaForm::FromOutputs,
            LayerKind::Sigmoid { .. } => DeltaForm::FromOutputs,
            _ => DeltaForm::FromInputs,
        }
    }

    pub fn input_count(&self) -> (r: usize)
        ensures
            r == self.spec_input_count(),
    {
        match self {
            LayerKind::Dense { inputs, .. } => *inputs,
            LayerKind::Hyperbolic { size } => *size,
            LayerKind::Sigmoid { size } => *size,
            LayerKind::Rectified { size } => *size,
        }
    }

    pub fn output_count(&self) -> (r: usize)
        ensures
            r == self.spec_output_count(),
    {
        match self {
            LayerKind::Dense { neurons, .. } => *neurons,
            LayerKind::Hyperbolic { size } => *size,
            LayerKind::Sigmoid { size } => *size,
            LayerKind::Rectified { size } => *size,
        }
    }

    pub fn weight_count(&self) -> (r: usize)
        requires
            self.wf(),
        ensures
            r == self.spec_weight_count(),
    {
        match self {
            LayerKind::Dense { inputs, neurons } => *inputs * *neurons,
            _ => 0,
        }
    }

    pub fn neuron_count(&self) -> (r: usize)
        ensures
            r == self.spec_neuron_count(),
    {
        match self {
            LayerKind::Dense { neurons, .. } => *neurons,
            _ => 0,
        }
    }

    /// The backward operation this variant provides: activations whose
    /// derivative follows from their own output use that form, the others
    /// work from their inputs.
    pub fn delta_form(&self) -> (r: DeltaForm)
        ensures
            r == self.spec_delta_form(),
    {
        match self {
            LayerKind::Hyperbolic { .. } => DeltaForm::FromOutputs,
            LayerKind::Sigmoid { .. } => DeltaForm::FromOutputs,
            _ => DeltaForm::FromInputs,
        }
    }

    /// Only a weighted layer has parameters to train.
    pub fn is_weighted(&self) -> (r: bool)
        ensures
            r == (self is Dense),
    {
        match self {
            LayerKind::Dense { .. } => true,
            _ => false,
        }
    }
}

/// A vector of `n` copies of `val`.
pub fn filled<T: Copy>(val: T, n: usize) -> (r: Vec<T>)
    ensures
        r@ == Seq::new(n as nat, |i: int| val),
{
    let mut r: Vec<T> = Vec::new();
    let mut i: usize = 0;
    while i < n
        invariant
            i <= n,
            r@ == Seq::new(i as nat, |j: int| val),
        decreases n - i,
    {
        r.push(val);
        i = i + 1;
        assert(r@ =~= Seq::new(i as nat, |j: int| val));
    }
    r
}

/// What one layer saw and produced in one forward pass.
pub struct LayerOut<T> {
    pub inputs: Vec<T>,
    pub output: Vec<T>,
}

/// Weight and bias deltas of one layer, accumulated over one epoch.
pub struct LayerUpdates<T> {
    pub ws: Vec<T>,
    pub bs: Vec<T>,
}

impl<T: Copy> LayerUpdates<T> {
    /// An accumulator of `weights` weight deltas and `neurons` bias deltas,
    /// each starting at `zero`.
    pub fn filled(zero: T, weights: usize, neurons: usize) -> (r: LayerUpdates<T>)
        ensures
            r.ws@ == Seq::new(weights as nat, |i: int| zero),
            r.bs@ == Seq::new(neurons as nat, |i: int| zero),
    {
        LayerUpdates { ws: filled(zero, weights), bs: filled(zero, neurons) }
    }
}

/// A weighted layer: `shape.1` neurons, each with a row of `shape.0` weights
/// in `weights` (row by row) and one entry of `bias`.
pub struct DenseLayer<T> {
    pub weights: Vec<T>,
    pub bias: Vec<T>,
    /// (inputs per neuron, number of neurons)
    pub shape: (usize, usize),
}

impl<T: Copy> DenseLayer<T> {
    /// The buffers have the lengths that the shape gives them.
    pub open spec fn wf(&self) -> bool {
        &&& self.weights@.len() == self.shape.0 * self.shape.1
        &&& self.bias@.len() == self.shape.1
    }

    pub open spec fn spec_kind(&self) -> LayerKind {
        LayerKind::Dense { inputs: self.shape.0, neurons: self.shape.1 }
    }

    /// A layer whose weights and biases all start at `val`.
    pub fn uniform(val: T, inputs: usize, neurons: usize) -> (r: DenseLayer<T>)
        requires
            inputs * neurons <= usize::MAX,
        ensures
            r.wf(),
            r.shape == (inputs, neurons),
            r.weights@ == Seq::new((inputs * neurons) as nat, |i: int| val),
            r.bias@ == Seq::new(neurons as nat, |i: int| val),
    {
        DenseLayer { weights: filled(val, inputs * neurons), bias: filled(val, neurons), shape: (inputs, neurons) }
    }

    pub fn input_count(&self) -> (r: usize)
        ensures
            r == self.shape.0,
    {
        self.shape.0
    }

    pub fn output_count(&self) -> (r: usize)
        ensures
            r == self.shape.1,
    {
        self.shape.1
    }

    pub fn weight_count(&self) -> (r: usize)
        ensures
            r == self.weights@.len(),
    {
        self.weights.len()
    }

    pub fn neuron_count(&self) -> (r: usize)
        ensures
            r == self.shape.1,
    {
        self.shape.1
    }

    pub fn kind(&self) -> (r: LayerKind)
        ensures
            r == self.spec_kind(),
    {
        LayerKind::Dense { inputs: self.shape.0, neurons: self.shape.1 }
    }

    /// The weights of neuron `k`: its block of `shape.0` values in the
    /// weight buffer.
    pub fn row(&self, k: usize) -> (r: &[T])
        requires
            self.wf(),
            k < self.shape.1,
        ensures
            r@ == self.weights@.subrange(k * self.shape.0, (k + 1) * self.shape.0),
    {
        let count = self.weights.len();
        proof {
            assert(count == self.shape.0 * self.shape.1);
            assert((k + 1) * self.shape.0 <= self.shape.0 * self.shape.1) by (nonlinear_arith)
                requires
                    k < self.shape.1,
            ;
            assert((k + 1) * self.shape.0 == k * self.shape.0 + self.shape.0) by (nonlinear_arith);
        }
        let start = k * self.shape.0;
        vstd::slice::slice_subrange(self.weights.as_slice(), start, start + self.shape.0)
    }

    /// Derivative of the outputs with respect to the weights: the inputs
    /// once per neuron, laid out like the weight buffer. Always present for
    /// a weighted layer.
    pub fn derivw(&self, inputs: &[T]) -> (r: Option<Vec<T>>)
        requires
            self.wf(),
            inputs@.len() == self.shape.0,
        ensures
            r matches Some(d) && d@ == weight_derivative_layout(inputs@, self.shape.1 as nat)
                && d@.len() == self.weights@.len(),
    {
        let count = self.weights.len();
        assert(inputs@.len() * self.shape.1 == count);
        Some(derivw_layout(inputs, self.shape.1))
    }
}

/// The derivative of a weighted layer's outputs with respect to its weights:
/// each neuron's weighted sum depends on its own weight `j` through input `j`,
/// so the input vector repeats once per neuron, laid out row by row like the
/// weight buffer.
pub open spec fn weight_derivative_layout<T>(inputs: Seq<T>, neurons: nat) -> Seq<T> {
    Seq::new(inputs.len() * neurons, |i: int| inputs[i % (inputs.len() as int)])
}

/// Lays the inputs out once per neuron, as the weight buffer is laid out.
pub fn derivw_layout<T: Copy>(inputs: &[T], neurons: usize) -> (r: Vec<T>)
    requires
        inputs@.len() * neurons <= usize::MAX,
    ensures
        r@ == weight_derivative_layout(inputs@, neurons as nat),
        forall|k: int, j: int|
            0 <= k < neurons && 0 <= j < inputs@.len() ==> #[trigger] r@[k * inputs@.len() + j]
                == inputs@[j],
{
    let n = inputs.len();
    let mut r: Vec<T> = Vec::new();
    let mut k: usize = 0;
    while k < neurons
        invariant
            k <= neurons,
            n == inputs@.len(),
            n * neurons <= usize::MAX,
            r@.len() == k * n,
            forall|i: int| 0 <= i < r@.len() ==> r@[i] == inputs@[i % (n as int)],
        decreases neurons - k,
    {
        let mut j: usize = 0;
        while j < n
            invariant
                k < neurons,
                j <= n,
                n == inputs@.len(),
                n * neurons <= usize::MAX,
                r@.len() == k * n + j,
                forall|i: int| 0 <= i < r@.len() ==> r@[i] == inputs@[i % (n as int)],
            decreases n - j,
        {
            proof {
                assert(k * n + j < (k + 1) * n) by (nonlinear_arith)
                    requires
                        j < n,
                ;
                assert((k + 1) * n <= neurons * n) by (nonlinear_arith)
                    requires
                        k < neurons,
                ;
                vstd::arithmetic::div_mod::lemma_fundamental_div_mod_converse(
                    (k * n + j) as int,
                    n as int,
                    k as int,
                    j as int,
                );
            }
            r.push(inputs[j]);
            j = j + 1;
        }
        proof {
            assert(k * n + n == (k + 1) * n) by (nonlinear_arith);
        }
        k = k + 1;
    }
    proof {
        assert forall|kk: int, jj: int|
            0 <= kk < neurons && 0 <= jj < n implies #[trigger] r@[kk * n + jj] == inputs@[jj] by {
            assert(kk * n + jj < (kk + 1) * n) by (nonlinear_arith)
                requires
                    jj < n,
            ;
            assert((kk + 1) * n <= neurons * n) by (nonlinear_arith)
                requires
                    kk < neurons,
            ;
            vstd::arithmetic::div_mod::lemma_fundamental_div_mod_converse(
                kk * n + jj,
                n as int,
                kk,
                jj,
            );
        }
        assert(neurons * n == n * neurons) by (nonlinear_arith);
        assert(r@ =~= weight_derivative_layout(inputs@, neurons as nat));
    }
    r
}

/// The neuron that weight `i` of a weighted layer belongs to: the weight
/// buffer holds one row of `inputs` weights per neuron.
pub fn neuron_of_weight(i: usize, inputs: usize) -> (r: usize)
    requires
        inputs > 0,
    ensures
        r == i / inputs,
        r * inputs <= i < (r + 1) * inputs,
{
    let r = i / inputs;
    proof {
        vstd::arithmetic::div_mod::lemma_fundamental_div_mod(i as int, inputs as int);
        vstd::arithmetic::div_mod::lemma_mod_bound(i as int, inputs as int);
        assert(inputs * r == r * inputs) by (nonlinear_arith);
        assert((r + 1) * inputs == r * inputs + inputs) by (nonlinear_arith);
    }
    r
}

/// The backward step of a layer: the derivative through its outputs where
/// the layer provides one, else the one through its inputs. `None` means the
/// layer provides neither and cannot take part in training.
pub fn choose_delta<T>(from_outputs: Option<T>, from_inputs: Option<T>) -> (r: Option<T>)
    ensures
        r == (if from_outputs is Some {
            from_outputs
        } else {
            from_inputs
        }),
{
    match from_outputs {
        Some(d) => Some(d),
        None => from_inputs,
    }
}

} // verus!
