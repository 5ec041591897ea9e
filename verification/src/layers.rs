//! The mathematics of a layered network: the values of a forward pass, the
//! error signals of the backward pass, and the parameters after training.
//!
//! Transitions are counted from zero: transition `t` leads from layer `t` to
//! layer `t + 1`, with weights `weights[t]` and biases `biases[t]`.

use vstd::prelude::*;
use crate::model::{Grid, vec_difference, vec_mapped, vec_scaled, vec_sum};
use crate::scalar::{Scalar, difference, product, sum, two, zero};

verus! {

/// The value that `f` returns for `x`.
pub open spec fn applied<T, F: Fn(T) -> T>(f: F, x: T) -> T {
    choose|y: T| call_ensures(f, (x,), y)
}

/// `f` as a mathematical function.
pub open spec fn as_function<T, F: Fn(T) -> T>(f: F) -> spec_fn(T) -> T {
    |x: T| applied(f, x)
}

/// `f` accepts every argument, and what it returns is a function of the
/// argument.
pub open spec fn is_pure<T, F: Fn(T) -> T>(f: F) -> bool {
    &&& forall|x: T| call_requires(f, (x,))
    &&& forall|x: T, y: T| call_ensures(f, (x,), y) ==> y == applied(f, x)
}

/// The sum of the squared differences of the first `n` entries of `output`
/// and `expected`, added from the left starting at zero.
pub open spec fn squared_error<T: Scalar>(output: Seq<T>, expected: Seq<T>, n: nat) -> T
    decreases n,
{
    if n == 0 {
        zero::<T>()
    } else {
        let d = difference(output[n - 1], expected[n - 1]);
        sum(squared_error(output, expected, (n - 1) as nat), product(d, d))
    }
}

/// The weights and biases of a network, one of each per transition.
pub struct Parameters<T> {
    pub weights: Seq<Grid<T>>,
    pub biases: Seq<Seq<T>>,
}

impl<T: Scalar> Parameters<T> {
    /// The parameters have the shapes that the layer sizes `layout` ask for:
    /// for every transition a weight grid of `layout[t + 1]` rows and
    /// `layout[t]` columns, and `layout[t + 1]` biases.
    pub open spec fn fits(self, layout: Seq<usize>) -> bool {
        &&& layout.len() >= 2
        &&& self.weights.len() == layout.len() - 1
        &&& self.biases.len() == layout.len() - 1
        &&& forall|t: int|
            0 <= t < layout.len() - 1 ==> {
                &&& (#[trigger] self.weights[t]).wf()
                &&& self.weights[t].rows == layout[t + 1]
                &&& self.weights[t].cols == layout[t]
            }
        &&& forall|t: int|
            0 <= t < layout.len() - 1 ==> (#[trigger] self.biases[t]).len() == layout[t + 1]
    }

    /// The output of layer `l` for `input`: the input itself for layer zero,
    /// and beyond it the activation `f` of the weighted and biased output of
    /// the layer before.
    pub open spec fn activated(self, f: spec_fn(T) -> T, input: Seq<T>, l: nat) -> Seq<T>
        decreases l,
    {
        if l == 0 {
            input
        } else {
            let before = self.activated(f, input, (l - 1) as nat);
            vec_mapped(f, vec_sum(self.weights[l - 1].apply(before), self.biases[l - 1]))
        }
    }

    /// What transition `t` makes of the output of layer `t` by its weights.
    pub open spec fn weighted(self, f: spec_fn(T) -> T, input: Seq<T>, t: nat) -> Seq<T> {
        self.weights[t as int].apply(self.activated(f, input, t))
    }

    /// The weighted output of transition `t` with its biases added: what
    /// goes into the activation of layer `t + 1`.
    pub open spec fn biased(self, f: spec_fn(T) -> T, input: Seq<T>, t: nat) -> Seq<T> {
        vec_sum(self.weighted(f, input, t), self.biases[t as int])
    }

    /// The output of the last layer for `input`.
    pub open spec fn output(self, f: spec_fn(T) -> T, input: Seq<T>) -> Seq<T> {
        self.activated(f, input, self.weights.len())
    }

    /// The slopes `df` of the activation at what goes into layer `t + 1`, on
    /// the diagonal of a square grid.
    pub open spec fn slope(self, f: spec_fn(T) -> T, df: spec_fn(T) -> T, input: Seq<T>, t: nat) -> Grid<T> {
        Grid::diagonal(vec_mapped(df, self.biased(f, input, t)))
    }

    /// The error signal of transition `t`, as a grid of a single row: the
    /// derivative of the squared error with respect to what goes into the
    /// activation of layer `t + 1`.
    ///
    /// For the last transition it is twice the difference of output and
    /// `expected`, as a row, times the slopes. For an earlier one it is the
    /// signal of the next transition times the product of the next weights
    /// with the slopes.
    pub open spec fn signal(
        self,
        f: spec_fn(T) -> T,
        df: spec_fn(T) -> T,
        input: Seq<T>,
        expected: Seq<T>,
        t: nat,
    ) -> Grid<T>
        decreases self.weights.len() - t,
    {
        if t + 1 >= self.weights.len() {
            Grid::column(
                vec_scaled(two::<T>(), vec_difference(self.activated(f, input, t + 1), expected)),
            ).transposed().times(self.slope(f, df, input, t))
        } else {
            self.signal(f, df, input, expected, t + 1).times(
                self.weights[t as int + 1].times(self.slope(f, df, input, t)),
            )
        }
    }

    /// The derivative of the squared error with respect to the weights of
    /// transition `t`: the outer product of its error signal with the output
    /// of layer `t`.
    pub open spec fn weight_gradient(
        self,
        f: spec_fn(T) -> T,
        df: spec_fn(T) -> T,
        input: Seq<T>,
        expected: Seq<T>,
        t: nat,
    ) -> Grid<T> {
        Grid::outer(self.signal(f, df, input, expected, t).cells, self.activated(f, input, t))
    }

    /// The parameters after one step of gradient descent on one sample:
    /// every weight grid less `weights_lr` times its gradient, every bias
    /// vector less `biases_lr` times its error signal, all gradients taken at
    /// `self`.
    pub open spec fn stepped(
        self,
        f: spec_fn(T) -> T,
        df: spec_fn(T) -> T,
        weights_lr: T,
        biases_lr: T,
        input: Seq<T>,
        expected: Seq<T>,
    ) -> Parameters<T> {
        Parameters {
            weights: Seq::new(
                self.weights.len(),
                |t: int|
                    self.weights[t].minus(
                        self.weight_gradient(f, df, input, expected, t as nat).scaled(weights_lr),
                    ),
            ),
            biases: Seq::new(
                self.biases.len(),
                |t: int|
                    vec_difference(
                        self.biases[t],
                        vec_scaled(biases_lr, self.signal(f, df, input, expected, t as nat).cells),
                    ),
            ),
        }
    }

    /// The parameters after a step on each of the first `n` samples, taken
    /// in order, each step starting from what the one before left.
    pub open spec fn trained(
        self,
        f: spec_fn(T) -> T,
        df: spec_fn(T) -> T,
        weights_lr: T,
        biases_lr: T,
        inputs: Seq<Seq<T>>,
        expected: Seq<Seq<T>>,
        n: nat,
    ) -> Parameters<T>
        decreases n,
    {
        if n == 0 {
            self
        } else {
            self.trained(f, df, weights_lr, biases_lr, inputs, expected, (n - 1) as nat).stepped(
                f,
                df,
                weights_lr,
                biases_lr,
                inputs[n - 1],
                expected[n - 1],
            )
        }
    }
}

/// A grid applied to a vector gives one entry per row.
pub proof fn lemma_apply_len<T: Scalar>(w: Grid<T>, a: Seq<T>)
    ensures
        w.apply(a).len() == w.rows,
{
    assert(w.rows * 1 == w.rows) by (nonlinear_arith);
}

impl<T: Scalar> Parameters<T> {
    /// Parameters that fit `layout` give layer `l` an output of `layout[l]`
    /// entries.
    pub proof fn lemma_activated_len(self, layout: Seq<usize>, f: spec_fn(T) -> T, input: Seq<T>, l: nat)
        requires
            self.fits(layout),
            input.len() == layout[0],
            l <= self.weights.len(),
        ensures
            self.activated(f, input, l).len() == layout[l as int],
        decreases l,
    {
        if l > 0 {
            self.lemma_activated_len(layout, f, input, (l - 1) as nat);
            lemma_apply_len(self.weights[l - 1], self.activated(f, input, (l - 1) as nat));
        }
    }
}

impl<T: Scalar> Parameters<T> {
    /// What goes into the activation of layer `t + 1` has `layout[t + 1]`
    /// entries.
    pub proof fn lemma_biased_len(self, layout: Seq<usize>, f: spec_fn(T) -> T, input: Seq<T>, t: nat)
        requires
            self.fits(layout),
            input.len() == layout[0],
            t < self.weights.len(),
        ensures
            self.biased(f, input, t).len() == layout[t as int + 1],
    {
        lemma_apply_len(self.weights[t as int], self.activated(f, input, t));
    }

    /// The error signal of transition `t` is a well-formed grid of one row
    /// with an entry for every neuron of layer `t + 1`.
    pub proof fn lemma_signal_shape(
        self,
        layout: Seq<usize>,
        f: spec_fn(T) -> T,
        df: spec_fn(T) -> T,
        input: Seq<T>,
        expected: Seq<T>,
        t: nat,
    )
        requires
            self.fits(layout),
            input.len() == layout[0],
            t < self.weights.len(),
        ensures
            self.signal(f, df, input, expected, t).wf(),
            self.signal(f, df, input, expected, t).rows == 1,
            self.signal(f, df, input, expected, t).cols == layout[t as int + 1],
        decreases self.weights.len() - t,
    {
        self.lemma_biased_len(layout, f, input, t);
        if t + 1 < self.weights.len() {
            self.lemma_signal_shape(layout, f, df, input, expected, t + 1);
        }
    }

    /// A step of gradient descent keeps the shapes of the parameters.
    pub proof fn lemma_stepped_fits(
        self,
        layout: Seq<usize>,
        f: spec_fn(T) -> T,
        df: spec_fn(T) -> T,
        weights_lr: T,
        biases_lr: T,
        input: Seq<T>,
        expected: Seq<T>,
    )
        requires
            self.fits(layout),
        ensures
            self.stepped(f, df, weights_lr, biases_lr, input, expected).fits(layout),
    {
        let after = self.stepped(f, df, weights_lr, biases_lr, input, expected);
        assert forall|t: int| 0 <= t < layout.len() - 1 implies {
            &&& (#[trigger] after.weights[t]).wf()
            &&& after.weights[t].rows == layout[t + 1]
            &&& after.weights[t].cols == layout[t]
        } by {
            assert(self.weights[t].wf());
        }
        assert forall|t: int| 0 <= t < layout.len() - 1 implies (#[trigger] after.biases[t]).len()
            == layout[t + 1] by {
            assert(self.biases[t].len() == layout[t + 1]);
        }
    }
}

} // verus!
