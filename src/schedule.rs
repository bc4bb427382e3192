//! The order of work in full-batch gradient descent. Each epoch zeroes one
//! accumulator per layer, then for every example in dataset order runs the
//! layers forward in chain order, seeds the delta signal from the loss
//! derivative, and walks the layers backward in reverse order, accumulating
//! their gradients; at the end of the epoch the accumulated deltas are added
//! into the parameters. Only that last step changes a layer.
use vstd::prelude::*;

verus! {

/// The sizes that fix a training run.
#[derive(Clone, Copy, Debug, PartialEq, Eq, Structural)]
pub struct TrainPlan {
    pub epochs: usize,
    pub examples: usize,
    pub layers: usize,
}

/// One unit of work of a training run.
#[derive(Clone, Copy, Debug, PartialEq, Eq, Structural)]
pub enum Step {
    /// Zero one accumulator per layer.
    Reset { epoch: usize },
    /// Evaluate `layer` on its input for `example` and cache input and output.
    Forward { epoch: usize, example: usize, layer: usize },
    /// Start the delta signal from the loss derivative of the last output.
    Seed { epoch: usize, example: usize },
    /// Accumulate the gradients of `layer` and pass the delta signal through it.
    Backward { epoch: usize, example: usize, layer: usize },
    /// Add each layer's accumulated deltas into its parameters.
    Apply { epoch: usize },
    /// The run is over.
    Finished,
}

impl TrainPlan {
    /// A run needs at least one layer: the delta signal starts at the last one.
    pub open spec fn wf(self) -> bool {
        self.layers > 0
    }

    /// A step that belongs to this run.
    pub open spec fn valid(self, s: Step) -> bool {
        match s {
            Step::Reset { epoch } => epoch < self.epochs,
            Step::Forward { epoch, example, layer } => epoch < self.epochs && example
                < self.examples && layer < self.layers,
            Step::Seed { epoch, example } => epoch < self.epochs && example < self.examples,
            Step::Backward { epoch, example, layer } => epoch < self.epochs && example
                < self.examples && layer < self.layers,
            Step::Apply { epoch } => epoch < self.epochs,
            Step::Finished => true,
        }
    }

    /// The first step: nothing at all when no epoch is asked for.
    pub open spec fn spec_start(self) -> Step {
        if self.epochs > 0 {
            Step::Reset { epoch: 0 }
        } else {
            Step::Finished
        }
    }

    /// What follows the last backward step of `example`: the next example's
    /// forward pass, or the end of the epoch.
    pub open spec fn after_example(self, epoch: usize, example: usize) -> Step {
        if example + 1 < self.examples {
            Step::Forward { epoch, example: (example + 1) as usize, layer: 0 }
        } else {
            Step::Apply { epoch }
        }
    }

    /// The step that follows `s`.
    pub open spec fn successor(self, s: Step) -> Step {
        match s {
            Step::Reset { epoch } => if self.examples > 0 {
                Step::Forward { epoch, example: 0, layer: 0 }
            } else {
                Step::Apply { epoch }
            },
            Step::Forward { epoch, example, layer } => if layer + 1 < self.layers {
                Step::Forward { epoch, example, layer: (layer + 1) as usize }
            } else {
                Step::Seed { epoch, example }
            },
            Step::Seed { epoch, example } => Step::Backward {
                epoch,
                example,
                layer: (self.layers - 1) as usize,
            },
            Step::Backward { epoch, example, layer } => if layer > 0 {
                Step::Backward { epoch, example, layer: (layer - 1) as usize }
            } else {
                self.after_example(epoch, example)
            },
            Step::Apply { epoch } => if epoch + 1 < self.epochs {
                Step::Reset { epoch: (epoch + 1) as usize }
            } else {
                Step::Finished
            },
            Step::Finished => Step::Finished,
        }
    }

    /// The step reached after `n` steps of the run.
    pub open spec fn run(self, n: nat) -> Step
        decreases n,
    {
        if n == 0 {
            self.spec_start()
        } else {
            self.successor(self.run((n - 1) as nat))
        }
    }

    pub fn start(&self) -> (r: Step)
        ensures
            r == self.spec_start(),
            self.valid(r),
    {
        if self.epochs > 0 {
            Step::Reset { epoch: 0 }
        } else {
            Step::Finished
        }
    }

    /// The step after `s`.
    pub fn next(&self, s: Step) -> (r: Step)
        requires
            self.wf(),
            self.valid(s),
        ensures
            r == self.successor(s),
            self.valid(r),
    {
        match s {
            Step::Reset { epoch } => if self.examples > 0 {
                Step::Forward { epoch, example: 0, layer: 0 }
            } else {
                Step::Apply { epoch }
            },
            Step::Forward { epoch, example, layer } => if layer + 1 < self.layers {
                Step::Forward { epoch, example, layer: layer + 1 }
            } else {
                Step::Seed { epoch, example }
            },
            Step::Seed { epoch, example } => Step::Backward {
                epoch,
                example,
                layer: self.layers - 1,
            },
            Step::Backward { epoch, example, layer } => if layer > 0 {
                Step::Backward { epoch, example, layer: layer - 1 }
            } else if example + 1 < self.examples {
                Step::Forward { epoch, example: example + 1, layer: 0 }
            } else {
                Step::Apply { epoch }
            },
            Step::Apply { epoch } => if epoch + 1 < self.epochs {
                Step::Reset { epoch: epoch + 1 }
            } else {
                Step::Finished
            },
            Step::Finished => Step::Finished,
        }
    }
}

/// Number of steps in one example's share of an epoch: a forward and a
/// backward step per layer, and the seeding of the delta signal.
pub open spec fn example_len(plan: TrainPlan) -> nat {
    (2 * plan.layers + 1) as nat
}

/// Number of steps in one epoch: the reset, every example's share, the apply.
pub open spec fn epoch_len(plan: TrainPlan) -> nat {
    (2 + plan.examples * example_len(plan)) as nat
}

/// Number of steps of a whole run before it is finished.
pub open spec fn run_len(plan: TrainPlan) -> nat {
    (plan.epochs * epoch_len(plan)) as nat
}

/// Where a step stands in the run, counted from the first step.
pub open spec fn position(plan: TrainPlan, s: Step) -> int {
    let el = epoch_len(plan) as int;
    let xl = example_len(plan) as int;
    let nl = plan.layers as int;
    match s {
        Step::Reset { epoch } => epoch * el,
        Step::Forward { epoch, example, layer } => epoch * el + 1 + example * xl + layer,
        Step::Seed { epoch, example } => epoch * el + 1 + example * xl + nl,
        Step::Backward { epoch, example, layer } => epoch * el + 1 + example * xl + 2 * nl - layer,
        Step::Apply { epoch } => epoch * el + 1 + plan.examples * xl,
        Step::Finished => run_len(plan) as int,
    }
}

proof fn lemma_position_below_end(plan: TrainPlan, s: Step)
    requires
        plan.wf(),
        plan.valid(s),
        !(s is Finished),
    ensures
        0 <= position(plan, s) < run_len(plan),
{
    let el = epoch_len(plan) as int;
    let xl = example_len(plan) as int;
    let nx = plan.examples as int;
    let e: int = match s {
        Step::Reset { epoch } => epoch as int,
        Step::Forward { epoch, .. } => epoch as int,
        Step::Seed { epoch, .. } => epoch as int,
        Step::Backward { epoch, .. } => epoch as int,
        Step::Apply { epoch } => epoch as int,
        Step::Finished => 0,
    };
    assert(0 <= e < plan.epochs);
    assert((e + 1) * el <= plan.epochs * el) by (nonlinear_arith)
        requires
            e + 1 <= plan.epochs,
            el >= 0,
    ;
    assert((e + 1) * el == e * el + el) by (nonlinear_arith);
    assert(e * el >= 0) by (nonlinear_arith)
        requires
            e >= 0,
            el >= 0,
    ;
    match s {
        Step::Forward { example, .. } | Step::Backward { example, .. } | Step::Seed { example, .. } => {
            let x = example as int;
            assert(x * xl + xl <= nx * xl) by (nonlinear_arith)
                requires
                    x + 1 <= nx,
                    xl >= 0,
            ;
            assert(x * xl >= 0) by (nonlinear_arith)
                requires
                    x >= 0,
                    xl >= 0,
            ;
        },
        _ => {
            assert(nx * xl >= 0) by (nonlinear_arith)
                requires
                    nx >= 0,
                    xl >= 0,
            ;
        },
    }
}

proof fn lemma_successor_position(plan: TrainPlan, s: Step)
    requires
        plan.wf(),
        plan.valid(s),
        !(s is Finished),
    ensures
        position(plan, plan.successor(s)) == position(plan, s) + 1,
{
    let el = epoch_len(plan) as int;
    let xl = example_len(plan) as int;
    match s {
        Step::Reset { .. } => {
            assert(0 * xl == 0);
            if plan.examples == 0 {
                assert(plan.examples * xl == 0);
            }
        },
        Step::Backward { example, layer, .. } => {
            if layer == 0 {
                assert((example + 1) * xl == example * xl + xl) by (nonlinear_arith);
            }
        },
        Step::Apply { epoch } => {
            assert((epoch + 1) * el == epoch * el + el) by (nonlinear_arith);
        },
        _ => {},
    }
}

proof fn lemma_run_position(plan: TrainPlan, n: nat)
    requires
        plan.wf(),
        n <= run_len(plan),
    ensures
        position(plan, plan.run(n)) == n,
        plan.valid(plan.run(n)),
    decreases n,
{
    if n == 0 {
        let el = epoch_len(plan) as int;
        assert(0 * el == 0);
        if plan.epochs == 0 {
            assert(plan.epochs * el == 0);
        }
    } else {
        lemma_run_position(plan, (n - 1) as nat);
        let prev = plan.run((n - 1) as nat);
        if prev is Finished {
            assert(position(plan, prev) == run_len(plan));
        }
        lemma_successor_position(plan, prev);
    }
}

/// Every run ends, after exactly `run_len` steps: each epoch is one reset,
/// then for each example a forward and a backward step per layer and the
/// seeding of the delta signal, then one apply.
pub proof fn lemma_run_length(plan: TrainPlan)
    requires
        plan.wf(),
    ensures
        plan.run(run_len(plan)) is Finished,
        forall|n: nat| n < run_len(plan) ==> !(#[trigger] plan.run(n) is Finished),
{
    lemma_run_position(plan, run_len(plan));
    let last = plan.run(run_len(plan));
    if !(last is Finished) {
        lemma_position_below_end(plan, last);
    }
    assert forall|n: nat| n < run_len(plan) implies !(#[trigger] plan.run(n) is Finished) by {
        lemma_run_position(plan, n);
    }
}

/// The step at position `p` of a run, read off the position: which epoch,
/// where in the epoch, and for an example's share, which example and where
/// in its share.
pub open spec fn step_at(plan: TrainPlan, p: nat) -> Step {
    let el = epoch_len(plan);
    let xl = example_len(plan);
    let nl = plan.layers as nat;
    if p >= run_len(plan) {
        Step::Finished
    } else {
        let epoch = (p / el) as usize;
        let r = p % el;
        if r == 0 {
            Step::Reset { epoch }
        } else if r + 1 == el {
            Step::Apply { epoch }
        } else {
            let q = (r - 1) as nat;
            let example = (q / xl) as usize;
            let o = q % xl;
            if o < nl {
                Step::Forward { epoch, example, layer: o as usize }
            } else if o == nl {
                Step::Seed { epoch, example }
            } else {
                Step::Backward { epoch, example, layer: (2 * nl - o) as usize }
            }
        }
    }
}

proof fn lemma_step_at_position(plan: TrainPlan, s: Step)
    requires
        plan.wf(),
        plan.valid(s),
        !(s is Finished),
    ensures
        step_at(plan, position(plan, s) as nat) == s,
{
    lemma_position_below_end(plan, s);
    let el = epoch_len(plan) as int;
    let xl = example_len(plan) as int;
    let nx = plan.examples as int;
    let nl = plan.layers as int;
    let p = position(plan, s);
    let e: int = match s {
        Step::Reset { epoch } => epoch as int,
        Step::Forward { epoch, .. } => epoch as int,
        Step::Seed { epoch, .. } => epoch as int,
        Step::Backward { epoch, .. } => epoch as int,
        Step::Apply { epoch } => epoch as int,
        Step::Finished => 0,
    };
    let r = p - e * el;
    assert(nx * xl >= 0) by (nonlinear_arith)
        requires
            nx >= 0,
            xl >= 0,
    ;
    match s {
        Step::Forward { example, layer, .. } => {
            let x = example as int;
            assert(x * xl + xl <= nx * xl) by (nonlinear_arith)
                requires
                    x + 1 <= nx,
                    xl >= 0,
            ;
            assert(x * xl >= 0) by (nonlinear_arith)
                requires
                    x >= 0,
                    xl >= 0,
            ;
            vstd::arithmetic::div_mod::lemma_fundamental_div_mod_converse(r - 1, xl, x, layer as int);
        },
        Step::Seed { example, .. } => {
            let x = example as int;
            assert(x * xl + xl <= nx * xl) by (nonlinear_arith)
                requires
                    x + 1 <= nx,
                    xl >= 0,
            ;
            assert(x * xl >= 0) by (nonlinear_arith)
                requires
                    x >= 0,
                    xl >= 0,
            ;
            vstd::arithmetic::div_mod::lemma_fundamental_div_mod_converse(r - 1, xl, x, nl);
        },
        Step::Backward { example, layer, .. } => {
            let x = example as int;
            assert(x * xl + xl <= nx * xl) by (nonlinear_arith)
                requires
                    x + 1 <= nx,
                    xl >= 0,
            ;
            assert(x * xl >= 0) by (nonlinear_arith)
                requires
                    x >= 0,
                    xl >= 0,
            ;
            vstd::arithmetic::div_mod::lemma_fundamental_div_mod_converse(
                r - 1,
                xl,
                x,
                2 * nl - layer,
            );
        },
        _ => {},
    }
    assert(0 <= r < el);
    vstd::arithmetic::div_mod::lemma_fundamental_div_mod_converse(p, el, e, r);
}

/// The whole run in closed form: step `n` is the one at position `n`. In
/// particular the parameters change only at the last step of each epoch,
/// after every example of that epoch has been through both passes.
pub proof fn lemma_run_closed_form(plan: TrainPlan, n: nat)
    requires
        plan.wf(),
    ensures
        plan.run(n) == step_at(plan, n),
    decreases n,
{
    if n <= run_len(plan) {
        lemma_run_position(plan, n);
        let s = plan.run(n);
        if !(s is Finished) {
            lemma_step_at_position(plan, s);
        }
    } else {
        lemma_run_closed_form(plan, (n - 1) as nat);
        lemma_run_length(plan);
    }
}

/// Gradients are applied once per epoch, at its last step, and at no other
/// step of the run.
pub proof fn lemma_apply_once_per_epoch(plan: TrainPlan, n: nat)
    requires
        plan.wf(),
    ensures
        (plan.run(n) is Apply) <==> (n < run_len(plan) && n % epoch_len(plan) + 1
            == epoch_len(plan)),
        plan.run(n) is Apply ==> plan.run(n)->Apply_epoch == n / epoch_len(plan),
{
    lemma_run_closed_form(plan, n);
    if n < run_len(plan) {
        let el = epoch_len(plan) as int;
        let q = n as int / el;
        vstd::arithmetic::div_mod::lemma_fundamental_div_mod(n as int, el);
        vstd::arithmetic::div_mod::lemma_mod_bound(n as int, el);
        assert(q < plan.epochs) by (nonlinear_arith)
            requires
                n == el * q + n as int % el,
                0 <= n as int % el,
                n < plan.epochs * el,
                el > 0,
        ;
    }
}

/// Every step of a run belongs to it.
pub proof fn lemma_run_valid(plan: TrainPlan, n: nat)
    requires
        plan.wf(),
    ensures
        plan.valid(plan.run(n)),
    decreases n,
{
    if n > 0 {
        lemma_run_valid(plan, (n - 1) as nat);
    }
}

/// Training for zero epochs leaves every layer as it was: the run is over
/// before its first step, so no step ever adds deltas into the parameters.
pub proof fn lemma_zero_epochs_apply_nothing(plan: TrainPlan, n: nat)
    requires
        plan.epochs == 0,
    ensures
        plan.run(n) == Step::Finished,
        !(plan.run(n) is Apply),
    decreases n,
{
    if n > 0 {
        lemma_zero_epochs_apply_nothing(plan, (n - 1) as nat);
    }
}

} // verus!
