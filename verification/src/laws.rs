//! Laws of the algebra and of training, each stated for the numbers on whose
//! arithmetic it rests.

use vstd::prelude::*;
use crate::layers::{Parameters, squared_error};
use crate::model::{
    Grid, lemma_cell_offset, lemma_offset_position, lemma_tabulate_at, vec_difference, vec_scaled,
    vec_sum,
};
use crate::scalar::{Scalar, difference, product, sum, two, zero};

verus! {

/// Adding zero, from either side, changes nothing.
pub open spec fn zero_is_neutral<T: Scalar>() -> bool {
    &&& forall|x: T| #[trigger] sum(zero::<T>(), x) == x
    &&& forall|x: T| #[trigger] sum(x, zero::<T>()) == x
}

/// Zero times anything is zero.
pub open spec fn zero_times_is_zero<T: Scalar>() -> bool {
    forall|x: T| #[trigger] product(zero::<T>(), x) == zero::<T>()
}

/// Anything times zero is zero.
pub open spec fn times_zero_is_zero<T: Scalar>() -> bool {
    forall|x: T| #[trigger] product(x, zero::<T>()) == zero::<T>()
}

/// The order of the factors of a product does not matter.
pub open spec fn product_commutes<T: Scalar>() -> bool {
    forall|x: T, y: T| #[trigger] product(x, y) == product(y, x)
}

/// For vectors `u` and `v` of equal length, `(u + v) - v` is `u`, wherever
/// taking an entry of `v` away from its sum with the entry of `u` gives that
/// entry of `u` back.
pub proof fn lemma_add_then_sub<T: Scalar>(u: Seq<T>, v: Seq<T>)
    requires
        u.len() == v.len(),
        forall|i: int| 0 <= i < u.len() ==> difference(sum(#[trigger] u[i], v[i]), v[i]) == u[i],
    ensures
        vec_difference(vec_sum(u, v), v) == u,
{
    assert(vec_difference(vec_sum(u, v), v) =~= u);
}

/// The partial inner products of `a` with `b` are those of the transpose of
/// `b` with the transpose of `a`, where products commute.
proof fn lemma_inner_transposed<T: Scalar>(a: Grid<T>, b: Grid<T>, i: int, j: int, n: nat)
    requires
        product_commutes::<T>(),
        a.cols == b.rows,
        0 <= i < a.rows,
        0 <= j < b.cols,
        n <= a.cols,
    ensures
        a.inner(b, i, j, n) == b.transposed().inner(a.transposed(), j, i, n),
    decreases n,
{
    if n > 0 {
        lemma_inner_transposed(a, b, i, j, (n - 1) as nat);
        lemma_tabulate_at(b.cols, b.rows, |r: int, c: int| b.at(c, r), j, n - 1);
        lemma_tabulate_at(a.cols, a.rows, |r: int, c: int| a.at(c, r), n - 1, i);
    }
}

/// For `a` of `m` by `n` and `b` of `n` by `p`, the transpose of `a * b` is
/// the transpose of `b` times the transpose of `a`, where products commute.
pub proof fn lemma_transpose_of_product<T: Scalar>(a: Grid<T>, b: Grid<T>)
    requires
        product_commutes::<T>(),
        a.cols == b.rows,
    ensures
        a.times(b).transposed() == b.transposed().times(a.transposed()),
{
    let left = a.times(b).transposed();
    let right = b.transposed().times(a.transposed());
    assert(left.rows == right.rows);
    assert(left.cols == right.cols);
    assert forall|k: int| 0 <= k < left.cells.len() implies left.cells[k] == right.cells[k] by {
        lemma_offset_position(b.cols, a.rows, k);
        let j = k / (a.rows as int);
        let i = k % (a.rows as int);
        lemma_tabulate_at(a.rows, b.cols, |r: int, c: int| a.inner(b, r, c, a.cols), i, j);
        lemma_inner_transposed(a, b, i, j, a.cols);
    }
    assert(left.cells =~= right.cells);
}

/// An inner product of which every term but the one at `only` is zero is
/// zero before that term and the term itself after it, where adding zero
/// changes nothing.
proof fn lemma_inner_single_term<T: Scalar>(a: Grid<T>, b: Grid<T>, i: int, j: int, only: int, n: nat)
    requires
        zero_is_neutral::<T>(),
        0 <= only,
        forall|k: int|
            0 <= k < n && k != only ==> #[trigger] product(a.at(i, k), b.at(k, j)) == zero::<T>(),
    ensures
        a.inner(b, i, j, n) == (if n <= only {
            zero::<T>()
        } else {
            product(a.at(i, only), b.at(only, j))
        }),
    decreases n,
{
    if n > 0 {
        lemma_inner_single_term(a, b, i, j, only, (n - 1) as nat);
        if n - 1 != only {
            assert(product(a.at(i, n - 1), b.at(n - 1, j)) == zero::<T>());
        }
    }
}

/// The diagonal matrix of `v` times `u` is the vector of the products of the
/// entries of `v` and `u` at the same place, where adding zero changes
/// nothing and zero times anything is zero.
pub proof fn lemma_diagonal_apply<T: Scalar>(v: Seq<T>, u: Seq<T>)
    requires
        zero_is_neutral::<T>(),
        zero_times_is_zero::<T>(),
        v.len() == u.len(),
    ensures
        Grid::diagonal(v).apply(u) == Seq::new(v.len(), |i: int| product(v[i], u[i])),
{
    let d = Grid::diagonal(v);
    let c = Grid::column(u);
    let n = v.len();
    assert(n * 1 == n) by (nonlinear_arith);
    assert forall|i: int| 0 <= i < n implies d.apply(u)[i] == product(v[i], u[i]) by {
        lemma_offset_position(n, 1, i);
        assert forall|k: int| 0 <= k < n implies c.at(k, 0) == u[k] && d.at(i, k) == (if i == k {
            v[i]
        } else {
            zero::<T>()
        }) by {
            lemma_tabulate_at(
                n,
                n,
                |r: int, c: int|
                    if r == c {
                        v[r]
                    } else {
                        zero::<T>()
                    },
                i,
                k,
            );
            assert(k * 1 + 0 == k) by (nonlinear_arith);
        }
        lemma_inner_single_term(d, c, i, 0, i, n);
    }
    assert(d.apply(u) =~= Seq::new(n, |i: int| product(v[i], u[i])));
}

/// The cost of an output against itself is zero, where an entry less itself
/// is zero, zero times zero is zero, and zero plus zero is zero.
pub proof fn lemma_cost_of_equal_is_zero<T: Scalar>(output: Seq<T>, n: nat)
    requires
        n <= output.len(),
        forall|i: int| 0 <= i < n ==> difference(#[trigger] output[i], output[i]) == zero::<T>(),
        product(zero::<T>(), zero::<T>()) == zero::<T>(),
        sum(zero::<T>(), zero::<T>()) == zero::<T>(),
    ensures
        squared_error(output, output, n) == zero::<T>(),
    decreases n,
{
    if n > 0 {
        lemma_cost_of_equal_is_zero(output, (n - 1) as nat);
        assert(difference(output[n - 1], output[n - 1]) == zero::<T>());
    }
}

/// A matrix times the diagonal matrix of `v` has every column `j` of the
/// matrix multiplied by `v[j]`, where adding zero changes nothing and
/// anything times zero is zero.
pub proof fn lemma_times_diagonal<T: Scalar>(w: Grid<T>, v: Seq<T>, i: int, j: int)
    requires
        zero_is_neutral::<T>(),
        times_zero_is_zero::<T>(),
        w.cols == v.len(),
        0 <= i < w.rows,
        0 <= j < v.len(),
    ensures
        w.times(Grid::diagonal(v)).at(i, j) == product(w.at(i, j), v[j]),
{
    let d = Grid::diagonal(v);
    let n = v.len();
    lemma_tabulate_at(w.rows, n, |r: int, c: int| w.inner(d, r, c, w.cols), i, j);
    assert forall|k: int| 0 <= k < n implies #[trigger] d.at(k, j) == (if k == j {
        v[k]
    } else {
        zero::<T>()
    }) by {
        lemma_tabulate_at(
            n,
            n,
            |r: int, c: int|
                if r == c {
                    v[r]
                } else {
                    zero::<T>()
                },
            k,
            j,
        );
    }
    assert forall|k: int| 0 <= k < n && k != j implies #[trigger] product(w.at(i, k), d.at(k, j))
        == zero::<T>() by {
        assert(d.at(k, j) == zero::<T>());
    }
    lemma_inner_single_term(w, d, i, j, j, n);
}

/// One step of training moves the weight of transition `t` between neuron
/// `j` of layer `t` and neuron `i` of layer `t + 1` by the learning rate
/// times the error signal of `i` times the output of `j`, and the bias of
/// `i` by the learning rate times the error signal of `i`.
pub proof fn lemma_step_moves_each_parameter<T: Scalar>(
    p: Parameters<T>,
    layout: Seq<usize>,
    f: spec_fn(T) -> T,
    df: spec_fn(T) -> T,
    weights_lr: T,
    biases_lr: T,
    input: Seq<T>,
    expected: Seq<T>,
    t: nat,
    i: int,
    j: int,
)
    requires
        p.fits(layout),
        input.len() == layout[0],
        t < p.weights.len(),
        0 <= i < layout[t as int + 1],
        0 <= j < layout[t as int],
    ensures
        p.stepped(f, df, weights_lr, biases_lr, input, expected).weights[t as int].at(i, j)
            == difference(
            p.weights[t as int].at(i, j),
            product(
                weights_lr,
                product(
                    p.signal(f, df, input, expected, t).cells[i],
                    p.activated(f, input, t)[j],
                ),
            ),
        ),
        p.stepped(f, df, weights_lr, biases_lr, input, expected).biases[t as int][i] == difference(
            p.biases[t as int][i],
            product(biases_lr, p.signal(f, df, input, expected, t).cells[i]),
        ),
{
    let signal = p.signal(f, df, input, expected, t);
    let before = p.activated(f, input, t);
    p.lemma_signal_shape(layout, f, df, input, expected, t);
    p.lemma_activated_len(layout, f, input, t);
    assert(1 * signal.cols == signal.cols) by (nonlinear_arith);
    lemma_tabulate_at(
        signal.cells.len(),
        before.len(),
        |r: int, c: int| product(signal.cells[r], before[c]),
        i,
        j,
    );
    lemma_cell_offset(layout[t as int + 1] as nat, layout[t as int] as nat, i, j);
    assert(p.weights[t as int].wf());
    assert(p.biases[t as int].len() == layout[t as int + 1]);
}

/// The error signal of the only transition of a network of two layers: its
/// entry for output neuron `i` is twice the difference of output and
/// expected value there, times the slope of the activation there, where
/// adding zero changes nothing and anything times zero is zero.
pub proof fn lemma_single_transition_signal<T: Scalar>(
    p: Parameters<T>,
    layout: Seq<usize>,
    f: spec_fn(T) -> T,
    df: spec_fn(T) -> T,
    input: Seq<T>,
    expected: Seq<T>,
    i: int,
)
    requires
        zero_is_neutral::<T>(),
        times_zero_is_zero::<T>(),
        layout.len() == 2,
        p.fits(layout),
        input.len() == layout[0],
        expected.len() == layout[1],
        0 <= i < layout[1],
    ensures
        p.signal(f, df, input, expected, 0).cells[i] == product(
            product(two::<T>(), difference(p.activated(f, input, 1)[i], expected[i])),
            df(p.biased(f, input, 0)[i]),
        ),
{
    let n = layout[1] as nat;
    let output = p.activated(f, input, 1);
    let z = p.biased(f, input, 0);
    p.lemma_biased_len(layout, f, input, 0);
    p.lemma_activated_len(layout, f, input, 1);
    let x = vec_scaled(two::<T>(), vec_difference(output, expected));
    let row = Grid::column(x).transposed();
    let slopes = Seq::new(z.len(), |m: int| df(z[m]));
    assert(p.signal(f, df, input, expected, 0) == row.times(Grid::diagonal(slopes)));
    lemma_times_diagonal(row, slopes, 0, i);
    lemma_tabulate_at(1, n, |r: int, c: int| Grid::column(x).at(c, r), 0, i);
    assert(i * 1 + 0 == i) by (nonlinear_arith);
    assert(0 * n + i == i) by (nonlinear_arith);
}

/// One step of training a network of two layers moves the weight between
/// input neuron `j` and output neuron `i` by exactly the learning rate times
/// the error signal of `i` times the input at `j`, where the signal is twice
/// the difference of output and expected value at `i` times the slope of the
/// activation there. This holds where adding zero changes nothing and
/// anything times zero is zero.
pub proof fn lemma_single_transition_step<T: Scalar>(
    p: Parameters<T>,
    layout: Seq<usize>,
    f: spec_fn(T) -> T,
    df: spec_fn(T) -> T,
    weights_lr: T,
    biases_lr: T,
    input: Seq<T>,
    expected: Seq<T>,
    i: int,
    j: int,
)
    requires
        zero_is_neutral::<T>(),
        times_zero_is_zero::<T>(),
        layout.len() == 2,
        p.fits(layout),
        input.len() == layout[0],
        expected.len() == layout[1],
        0 <= i < layout[1],
        0 <= j < layout[0],
    ensures
        p.stepped(f, df, weights_lr, biases_lr, input, expected).weights[0].at(i, j) == difference(
            p.weights[0].at(i, j),
            product(
                weights_lr,
                product(
                    product(
                        product(two::<T>(), difference(p.activated(f, input, 1)[i], expected[i])),
                        df(p.biased(f, input, 0)[i]),
                    ),
                    input[j],
                ),
            ),
        ),
        p.stepped(f, df, weights_lr, biases_lr, input, expected).biases[0][i] == difference(
            p.biases[0][i],
            product(
                biases_lr,
                product(
                    product(two::<T>(), difference(p.activated(f, input, 1)[i], expected[i])),
                    df(p.biased(f, input, 0)[i]),
                ),
            ),
        ),
{
    lemma_step_moves_each_parameter(p, layout, f, df, weights_lr, biases_lr, input, expected, 0, i, j);
    lemma_single_transition_signal(p, layout, f, df, input, expected, i);
}

} // verus!
