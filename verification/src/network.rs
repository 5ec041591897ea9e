//! The network: its construction, the forward pass, the cost, and training
//! by backpropagation.

use vstd::prelude::*;
use std::collections::VecDeque;
use crate::algebra::{Matrix, Vector, copy_of};
use crate::data::DataSet;
use crate::layers::{Parameters, as_function, is_pure, lemma_apply_len, squared_error};
use crate::model::{Grid, vec_mapped};
use crate::scalar::{Scalar, is_exact, two_of};

verus! {

/// Why an operation on a network could not be carried out.
#[derive(Clone, Copy, Debug, PartialEq, Eq, Structural)]
pub enum NetworkError {
    /// A network needs an input layer and an output layer at least.
    TooFewLayers,
    /// The weights between two layers are more than can be counted.
    TooLarge,
    /// Two data sets that belong together hold different numbers of samples.
    QuantityMismatch,
    /// A sample to feed in has not as many entries as the first layer has
    /// neurons.
    InputWidthMismatch,
    /// A sample to compare the output with has not as many entries as the
    /// last layer has neurons.
    OutputWidthMismatch,
    /// A layer is so wide that the square grid of its slopes has more
    /// entries than can be counted.
    LayerTooWide,
}

impl NetworkError {
    /// A sentence that describes the failure.
    pub fn message(&self) -> (r: String)
        ensures
            r@ == (match *self {
                NetworkError::TooFewLayers =>
                    "Attempt to create a neural network with fewer than two layers."@,
                NetworkError::TooLarge =>
                    "Attempt to create a neural network with more weights than can be addressed."@,
                NetworkError::QuantityMismatch =>
                    "Attempt to use a neural network with data sets of different numbers of samples."@,
                NetworkError::InputWidthMismatch =>
                    "Attempt to use a neural network with inputs of the inappropriate size given the number of neurons in the first layer."@,
                NetworkError::OutputWidthMismatch =>
                    "Attempt to use a neural network with data sets of length not matching the number of output neurons in the network."@,
                NetworkError::LayerTooWide =>
                    "Attempt to train a neural network with a layer too wide for its slopes to be addressed."@,
            }),
    {
        match self {
            NetworkError::TooFewLayers =>
                "Attempt to create a neural network with fewer than two layers.".to_string(),
            NetworkError::TooLarge =>
                "Attempt to create a neural network with more weights than can be addressed.".to_string(),
            NetworkError::QuantityMismatch =>
                "Attempt to use a neural network with data sets of different numbers of samples.".to_string(),
            NetworkError::InputWidthMismatch =>
                "Attempt to use a neural network with inputs of the inappropriate size given the number of neurons in the first layer.".to_string(),
            NetworkError::OutputWidthMismatch =>
                "Attempt to use a neural network with data sets of length not matching the number of output neurons in the network.".to_string(),
            NetworkError::LayerTooWide =>
                "Attempt to train a neural network with a layer too wide for its slopes to be addressed.".to_string(),
        }
    }
}

/// The weights of transition `t` of `layout` can be counted.
pub open spec fn transition_fits(layout: Seq<usize>, t: int) -> bool {
    layout[t + 1] * layout[t] <= usize::MAX
}

/// The weights between every two neighbouring layers of `layout` can be
/// counted.
pub open spec fn weights_fit(layout: Seq<usize>) -> bool {
    forall|t: int| 0 <= t < layout.len() - 1 ==> #[trigger] transition_fits(layout, t)
}

/// The square grid of slopes of layer `l` of `layout` can be counted.
pub open spec fn square_fits(layout: Seq<usize>, l: int) -> bool {
    layout[l] * layout[l] <= usize::MAX
}

/// The square grid of slopes of every layer of `layout` but the first can be
/// counted.
pub open spec fn slopes_fit(layout: Seq<usize>) -> bool {
    forall|l: int| 1 <= l < layout.len() ==> #[trigger] square_fits(layout, l)
}

/// Whether the weights between every two neighbouring layers of `structure`
/// can be counted.
pub fn weights_countable(structure: &Vec<usize>) -> (r: bool)
    ensures
        r == weights_fit(structure@),
{
    let mut t: usize = 1;
    while t < structure.len()
        invariant
            1 <= t,
            forall|s: int| 0 <= s < t - 1 ==> #[trigger] transition_fits(structure@, s),
        decreases structure@.len() - t,
    {
        if structure[t].checked_mul(structure[t - 1]).is_none() {
            assert(!transition_fits(structure@, t - 1));
            return false;
        }
        assert(transition_fits(structure@, t - 1));
        t += 1;
    }
    true
}

/// Whether the square grid of slopes of every layer of `structure` but the
/// first can be counted.
pub fn slopes_countable(structure: &Vec<usize>) -> (r: bool)
    ensures
        r == slopes_fit(structure@),
{
    let mut l: usize = 1;
    while l < structure.len()
        invariant
            1 <= l,
            forall|k: int| 1 <= k < l ==> #[trigger] square_fits(structure@, k),
        decreases structure@.len() - l,
    {
        let width = structure[l];
        if width.checked_mul(width).is_none() {
            assert(!square_fits(structure@, l as int));
            return false;
        }
        assert(square_fits(structure@, l as int));
        l += 1;
    }
    true
}

/// What one transition made of one input, step by step.
#[derive(Debug)]
pub struct FeedForwardResult<T> {
    /// The output of the layer before, multiplied by the weights.
    pub after_weights: Vector<T>,
    /// `after_weights` with the biases added.
    pub after_biases: Vector<T>,
    /// The activation of `after_biases`: the output of the layer.
    pub after_activ: Vector<T>,
}

/// A feedforward network: layers of fixed sizes, with weights and biases
/// between them that training changes, and one activation for all neurons.
pub struct Network<T, F, D> {
    structure: Vec<usize>,
    weights: Vec<Matrix<T>>,
    biases: Vec<Vector<T>>,
    activ: F,
    activ_diff: D,
}

impl<T: Scalar, F: Fn(T) -> T, D: Fn(T) -> T> Network<T, F, D> {
    /// The sizes of the layers, from the input layer to the output layer.
    pub closed spec fn layout(&self) -> Seq<usize> {
        self.structure@
    }

    /// The weights and biases, as values.
    pub closed spec fn parameters(&self) -> Parameters<T> {
        Parameters {
            weights: Seq::new(self.weights@.len(), |t: int| self.weights@[t]@),
            biases: Seq::new(self.biases@.len(), |t: int| self.biases@[t]@),
        }
    }

    /// The activation that every neuron applies.
    pub closed spec fn activation(&self) -> F {
        self.activ
    }

    /// The derivative of the activation.
    pub closed spec fn activation_derivative(&self) -> D {
        self.activ_diff
    }

    /// The network is well formed: its parameters have the shapes that its
    /// layer sizes ask for, no more weights than can be counted, and its two
    /// activation functions are functions.
    pub open spec fn wf(&self) -> bool {
        &&& self.parameters().fits(self.layout())
        &&& weights_fit(self.layout())
        &&& is_pure(self.activation())
        &&& is_pure(self.activation_derivative())
    }

    /// The number of transitions: one less than the number of layers.
    pub open spec fn depth(&self) -> nat {
        (self.layout().len() - 1) as nat
    }

    /// `layers` holds what the forward pass on `input` computes at every
    /// transition.
    pub open spec fn records(&self, input: Seq<T>, layers: Seq<FeedForwardResult<T>>) -> bool {
        let f = as_function(self.activation());
        &&& layers.len() == self.depth()
        &&& forall|t: int|
            0 <= t < layers.len() ==> {
                &&& (#[trigger] layers[t]).after_weights@ == self.parameters().weighted(
                    f,
                    input,
                    t as nat,
                )
                &&& layers[t].after_biases@ == self.parameters().biased(f, input, t as nat)
                &&& layers[t].after_activ@ == self.parameters().activated(f, input, (t + 1) as nat)
            }
    }

    /// A network of the given layer sizes. Every bias of the transition into
    /// a layer of `n` neurons is what `biases_init` returns for `n`; every
    /// weight between a layer of `m` neurons and the next of `n` neurons is
    /// what `weights_init` returns for `m` and `n`. The initializers are
    /// called once per parameter: first for the biases, then for the
    /// weights, transition by transition.
    pub fn new<W: Fn(usize, usize) -> T, B: Fn(usize) -> T>(
        structure: Vec<usize>,
        weights_init: W,
        biases_init: B,
        activ: F,
        activ_diff: D,
    ) -> (r: Result<Network<T, F, D>, NetworkError>)
        requires
            forall|fan_in: usize, fan_out: usize| call_requires(weights_init, (fan_in, fan_out)),
            forall|fan_out: usize| call_requires(biases_init, (fan_out,)),
            is_pure(activ),
            is_pure(activ_diff),
        ensures
            structure@.len() < 2 <==> r == Err::<Network<T, F, D>, NetworkError>(
                NetworkError::TooFewLayers,
            ),
            structure@.len() >= 2 && !weights_fit(structure@) <==> r == Err::<
                Network<T, F, D>,
                NetworkError,
            >(NetworkError::TooLarge),
            structure@.len() >= 2 && weights_fit(structure@) <==> r is Ok,
            r matches Ok(net) ==> {
                &&& net.wf()
                &&& net.layout() == structure@
                &&& net.activation() == activ
                &&& net.activation_derivative() == activ_diff
                &&& forall|t: int, k: int|
                    0 <= t < structure@.len() - 1 && 0 <= k < structure@[t + 1] ==> call_ensures(
                        biases_init,
                        (structure@[t + 1],),
                        #[trigger] net.parameters().biases[t][k],
                    )
                &&& forall|t: int, k: int|
                    0 <= t < structure@.len() - 1 && 0 <= k < structure@[t + 1] * structure@[t]
                        ==> call_ensures(
                        weights_init,
                        (structure@[t], structure@[t + 1]),
                        #[trigger] net.parameters().weights[t].cells[k],
                    )
            },
    {
        if structure.len() < 2 {
            return Err(NetworkError::TooFewLayers);
        }
        if !weights_countable(&structure) {
            return Err(NetworkError::TooLarge);
        }
        let transitions = structure.len() - 1;

        let mut biases: Vec<Vector<T>> = Vec::with_capacity(transitions);
        let mut t: usize = 0;
        while t < transitions
            invariant
                transitions == structure@.len() - 1,
                t <= transitions,
                biases.len() == t,
                forall|fan_out: usize| call_requires(biases_init, (fan_out,)),
                forall|s: int| 0 <= s < t ==> (#[trigger] biases@[s])@.len() == structure@[s + 1],
                forall|s: int, k: int|
                    0 <= s < t && 0 <= k < structure@[s + 1] ==> call_ensures(
                        biases_init,
                        (structure@[s + 1],),
                        #[trigger] biases@[s]@[k],
                    ),
            decreases transitions - t,
        {
            let layer_size = structure[t + 1];
            let mut layer: Vec<T> = Vec::with_capacity(layer_size);
            let mut neuron_no: usize = 0;
            while neuron_no < layer_size
                invariant
                    neuron_no <= layer_size,
                    layer.len() == neuron_no,
                    forall|fan_out: usize| call_requires(biases_init, (fan_out,)),
                    forall|k: int|
                        0 <= k < neuron_no ==> call_ensures(
                            biases_init,
                            (layer_size,),
                            #[trigger] layer@[k],
                        ),
                decreases layer_size - neuron_no,
            {
                layer.push(biases_init(layer_size));
                neuron_no += 1;
            }
            biases.push(Vector::new(layer));
            t += 1;
        }

        let mut weights: Vec<Matrix<T>> = Vec::with_capacity(transitions);
        let mut t: usize = 0;
        while t < transitions
            invariant
                transitions == structure@.len() - 1,
                t <= transitions,
                weights.len() == t,
                forall|fan_in: usize, fan_out: usize| call_requires(weights_init, (fan_in, fan_out)),
                weights_fit(structure@),
                forall|s: int|
                    0 <= s < t ==> {
                        &&& (#[trigger] weights@[s]).wf()
                        &&& weights@[s]@.rows == structure@[s + 1]
                        &&& weights@[s]@.cols == structure@[s]
                    },
                forall|s: int, k: int|
                    0 <= s < t && 0 <= k < structure@[s + 1] * structure@[s] ==> call_ensures(
                        weights_init,
                        (structure@[s], structure@[s + 1]),
                        #[trigger] weights@[s]@.cells[k],
                    ),
            decreases transitions - t,
        {
            let fan_in = structure[t];
            let fan_out = structure[t + 1];
            assert(transition_fits(structure@, t as int));
            let count = fan_out * fan_in;
            let mut weights_set: Vec<T> = Vec::with_capacity(count);
            let mut weight_no: usize = 0;
            while weight_no < count
                invariant
                    weight_no <= count,
                    weights_set.len() == weight_no,
                    forall|fan_in: usize, fan_out: usize|
                        call_requires(weights_init, (fan_in, fan_out)),
                    forall|k: int|
                        0 <= k < weight_no ==> call_ensures(
                            weights_init,
                            (fan_in, fan_out),
                            #[trigger] weights_set@[k],
                        ),
                decreases count - weight_no,
            {
                weights_set.push(weights_init(fan_in, fan_out));
                weight_no += 1;
            }
            weights.push(Matrix::new(fan_out, fan_in, weights_set).unwrap());
            t += 1;
        }

        let net = Network { structure, weights, biases, activ, activ_diff };
        proof {
            let layout = net.structure@;
            let held = net.parameters();
            assert forall|t: int| 0 <= t < layout.len() - 1 implies {
                &&& (#[trigger] held.weights[t]).wf()
                &&& held.weights[t].rows == layout[t + 1]
                &&& held.weights[t].cols == layout[t]
            } by {
                assert(held.weights[t] == net.weights@[t]@);
            }
            assert forall|t: int| 0 <= t < layout.len() - 1 implies (#[trigger] held.biases[t]).len()
                == layout[t + 1] by {
                assert(held.biases[t] == net.biases@[t]@);
            }
            assert(held.fits(layout));
            assert forall|t: int, k: int|
                0 <= t < layout.len() - 1 && 0 <= k < layout[t + 1] implies call_ensures(
                biases_init,
                (layout[t + 1],),
                #[trigger] held.biases[t][k],
            ) by {
                assert(held.biases[t] == net.biases@[t]@);
                assert(call_ensures(biases_init, (layout[t + 1],), net.biases@[t]@[k]));
            }
            assert forall|t: int, k: int|
                0 <= t < layout.len() - 1 && 0 <= k < layout[t + 1] * layout[t] implies call_ensures(
                weights_init,
                (layout[t], layout[t + 1]),
                #[trigger] held.weights[t].cells[k],
            ) by {
                assert(held.weights[t] == net.weights@[t]@);
                assert(call_ensures(
                    weights_init,
                    (layout[t], layout[t + 1]),
                    net.weights@[t]@.cells[k],
                ));
            }
        }
        Ok(net)
    }

    /// The number of layers, the input layer included.
    pub fn num_layers(&self) -> (r: usize)
        ensures
            r == self.layout().len(),
    {
        self.structure.len()
    }

    /// The sizes of the layers, from the input layer to the output layer.
    pub fn structure(&self) -> (r: &Vec<usize>)
        ensures
            r@ == self.layout(),
    {
        &self.structure
    }

    /// The weight matrices, one per transition.
    pub fn weights(&self) -> (r: &Vec<Matrix<T>>)
        ensures
            r@.len() == self.parameters().weights.len(),
            forall|t: int| 0 <= t < r@.len() ==> (#[trigger] r@[t])@ == self.parameters().weights[t],
    {
        &self.weights
    }

    /// The bias vectors, one per transition.
    pub fn biases(&self) -> (r: &Vec<Vector<T>>)
        ensures
            r@.len() == self.parameters().biases.len(),
            forall|t: int| 0 <= t < r@.len() ==> (#[trigger] r@[t])@ == self.parameters().biases[t],
    {
        &self.biases
    }
}

impl<T: Scalar, F: Fn(T) -> T, D: Fn(T) -> T> Network<T, F, D> {
    /// The forward pass on one input: for every transition in turn, the
    /// output of the layer before times the weights, the biases added, and
    /// the activation of that. Returns the input together with what every
    /// transition computed.
    pub fn feed_forward(&self, input: &Vector<T>) -> (r: Result<
        (Vector<T>, Vec<FeedForwardResult<T>>),
        NetworkError,
    >)
        requires
            is_exact::<T>(),
            self.wf(),
        ensures
            input@.len() != self.layout()[0] <==> r == Err::<
                (Vector<T>, Vec<FeedForwardResult<T>>),
                NetworkError,
            >(NetworkError::InputWidthMismatch),
            input@.len() == self.layout()[0] <==> r is Ok,
            r matches Ok(pass) ==> pass.0@ == input@ && self.records(input@, pass.1@),
    {
        if input.len() != self.structure[0] {
            return Err(NetworkError::InputWidthMismatch);
        }
        let ghost f = as_function(self.activation());
        let ghost held = self.parameters();
        let mut result: Vec<FeedForwardResult<T>> = Vec::with_capacity(self.num_layers());
        let mut output_layer_no: usize = 1;
        while output_layer_no < self.num_layers()
            invariant
                is_exact::<T>(),
                self.wf(),
                f == as_function(self.activation()),
                held == self.parameters(),
                input@.len() == self.layout()[0],
                1 <= output_layer_no <= self.structure.len(),
                result.len() == output_layer_no - 1,
                forall|t: int|
                    0 <= t < result.len() ==> {
                        &&& (#[trigger] result@[t]).after_weights@ == held.weighted(
                            f,
                            input@,
                            t as nat,
                        )
                        &&& result@[t].after_biases@ == held.biased(f, input@, t as nat)
                        &&& result@[t].after_activ@ == held.activated(f, input@, (t + 1) as nat)
                    },
            decreases self.structure.len() - output_layer_no,
        {
            let t = output_layer_no - 1;
            proof {
                held.lemma_activated_len(self.layout(), f, input@, t as nat);
                lemma_apply_len(held.weights[t as int], held.activated(f, input@, t as nat));
                assert(held.weights[t as int] == self.weights@[t as int]@);
                assert(held.biases[t as int] == self.biases@[t as int]@);
                assert(transition_fits(self.layout(), t as int));
            }
            let after_weights = if output_layer_no == 1 {
                self.weights[t].multiply_vector(input)
            } else {
                self.weights[t].multiply_vector(&result[t - 1].after_activ)
            }.unwrap();
            let after_biases = after_weights.add(&self.biases[t]).unwrap();
            let after_activ = after_biases.map(&self.activ);
            proof {
                assert(after_activ@ =~= vec_mapped(f, after_biases@));
            }
            result.push(FeedForwardResult { after_weights, after_biases, after_activ });
            output_layer_no += 1;
        }
        Ok((input.clone(), result))
    }
}

/// The sum of the squared differences of the entries of `output` and
/// `expected`.
fn cost_singular<T: Scalar>(output: &Vector<T>, expected: &Vector<T>) -> (r: T)
    requires
        is_exact::<T>(),
        output@.len() == expected@.len(),
    ensures
        r == squared_error(output@, expected@, output@.len()),
{
    let mut total = T::zero();
    let mut i: usize = 0;
    while i < output.len()
        invariant
            is_exact::<T>(),
            output@.len() == expected@.len(),
            i <= output@.len(),
            total == squared_error(output@, expected@, i as nat),
        decreases output@.len() - i,
    {
        let d = output.index(i).minus(expected.index(i));
        total = total.plus(d.times(d));
        i += 1;
    }
    total
}

impl<T: Scalar, F: Fn(T) -> T, D: Fn(T) -> T> Network<T, F, D> {
    /// The number of neurons of the first layer.
    pub open spec fn input_width(&self) -> usize {
        self.layout()[0]
    }

    /// The number of neurons of the last layer.
    pub open spec fn output_width(&self) -> usize {
        self.layout()[self.layout().len() - 1]
    }

    /// The output of the network for every sample of `input`, in order. The
    /// network is left as it is.
    pub fn test(&self, input: &DataSet<T>) -> (r: Result<DataSet<T>, NetworkError>)
        requires
            is_exact::<T>(),
            self.wf(),
            input.wf(),
        ensures
            input@.len() > 0 && input.width() != self.input_width() <==> r == Err::<
                DataSet<T>,
                NetworkError,
            >(NetworkError::InputWidthMismatch),
            input@.len() == 0 || input.width() == self.input_width() <==> r is Ok,
            r matches Ok(outputs) ==> {
                &&& outputs.wf()
                &&& outputs@.len() == input@.len()
                &&& forall|i: int|
                    0 <= i < input@.len() ==> #[trigger] outputs@[i] == self.parameters().output(
                        as_function(self.activation()),
                        input@[i],
                    )
            },
    {
        let ghost f = as_function(self.activation());
        let ghost held = self.parameters();
        let mut result: Vec<Vector<T>> = Vec::with_capacity(input.quantity());
        let mut i: usize = 0;
        while i < input.quantity()
            invariant
                is_exact::<T>(),
                self.wf(),
                input.wf(),
                f == as_function(self.activation()),
                held == self.parameters(),
                i <= input@.len(),
                result.len() == i,
                i > 0 ==> input.width() == self.input_width(),
                forall|k: int| 0 <= k < i ==> (#[trigger] result@[k])@ == held.output(f, input@[k]),
            decreases input@.len() - i,
        {
            let pass = match self.feed_forward(input.internal_get(i)) {
                Ok(pass) => pass,
                Err(error) => {
                    return Err(error);
                },
            };
            let layers = pass.1;
            result.push(layers[layers.len() - 1].after_activ.clone());
            i += 1;
        }
        proof {
            let rows = Seq::new(result@.len(), |k: int| result@[k]@);
            assert forall|k: int| 0 <= k < rows.len() implies (#[trigger] rows[k]).len()
                == rows[0].len() by {
                held.lemma_activated_len(self.layout(), f, input@[k], held.weights.len());
                held.lemma_activated_len(self.layout(), f, input@[0], held.weights.len());
            }
        }
        Ok(DataSet::new(result).unwrap())
    }

    /// For every sample of `output`, the sum of the squared differences
    /// between its entries and those of the sample of `expected` at the same
    /// place.
    pub fn cost(&self, output: &DataSet<T>, expected: &DataSet<T>) -> (r: Result<Vec<T>, NetworkError>)
        requires
            is_exact::<T>(),
            self.wf(),
            output.wf(),
            expected.wf(),
        ensures
            output@.len() != expected@.len() <==> r == Err::<Vec<T>, NetworkError>(
                NetworkError::QuantityMismatch,
            ),
            output@.len() == expected@.len() && output@.len() > 0 && (output.width()
                != self.output_width() || expected.width() != self.output_width()) <==> r == Err::<
                Vec<T>,
                NetworkError,
            >(NetworkError::OutputWidthMismatch),
            output@.len() == expected@.len() && (output@.len() == 0 || (output.width()
                == self.output_width() && expected.width() == self.output_width())) <==> r is Ok,
            r matches Ok(costs) ==> {
                &&& costs@.len() == output@.len()
                &&& forall|i: int|
                    0 <= i < output@.len() ==> #[trigger] costs@[i] == squared_error(
                        output@[i],
                        expected@[i],
                        self.output_width() as nat,
                    )
            },
    {
        if output.quantity() != expected.quantity() {
            return Err(NetworkError::QuantityMismatch);
        }
        let width = self.structure[self.structure.len() - 1];
        if output.quantity() > 0 && (output.entries_per_set() != width || expected.entries_per_set()
            != width) {
            return Err(NetworkError::OutputWidthMismatch);
        }
        let mut costs: Vec<T> = Vec::with_capacity(output.quantity());
        let mut i: usize = 0;
        while i < output.quantity()
            invariant
                is_exact::<T>(),
                output.wf(),
                expected.wf(),
                output@.len() == expected@.len(),
                output@.len() > 0 ==> output.width() == width && expected.width() == width,
                i <= output@.len(),
                costs.len() == i,
                forall|k: int|
                    0 <= k < i ==> #[trigger] costs@[k] == squared_error(
                        output@[k],
                        expected@[k],
                        width as nat,
                    ),
            decreases output@.len() - i,
        {
            costs.push(cost_singular(output.internal_get(i), expected.internal_get(i)));
            i += 1;
        }
        Ok(costs)
    }
}

impl<T: Scalar, F: Fn(T) -> T, D: Fn(T) -> T> Network<T, F, D> {
    /// The error signals of the transitions into the layers from `layer_no`
    /// to the last one, in that order, each a matrix of a single row, for the
    /// forward pass recorded in `feed_forward_results`. Called with
    /// `layer_no` one, it gives a signal for every transition.
    fn activation_input_diff(
        &self,
        feed_forward_results: &(Vector<T>, Vec<FeedForwardResult<T>>),
        expected: &Vector<T>,
        layer_no: usize,
    ) -> (r: VecDeque<Matrix<T>>)
        requires
            is_exact::<T>(),
            self.wf(),
            slopes_fit(self.layout()),
            feed_forward_results.0@.len() == self.input_width(),
            self.records(feed_forward_results.0@, feed_forward_results.1@),
            expected@.len() == self.output_width(),
            1 <= layer_no <= self.depth(),
        ensures
            r@.len() == self.depth() - layer_no + 1,
            forall|k: int|
                0 <= k < r@.len() ==> {
                    &&& (#[trigger] r@[k]).wf()
                    &&& r@[k]@ == self.parameters().signal(
                        as_function(self.activation()),
                        as_function(self.activation_derivative()),
                        feed_forward_results.0@,
                        expected@,
                        (layer_no - 1 + k) as nat,
                    )
                },
        decreases self.depth() - layer_no,
    {
        let ghost f = as_function(self.activation());
        let ghost df = as_function(self.activation_derivative());
        let ghost held = self.parameters();
        let ghost input = feed_forward_results.0@;
        let ghost t = (layer_no - 1) as nat;
        let layer = &feed_forward_results.1[layer_no - 1];
        proof {
            held.lemma_biased_len(self.layout(), f, input, t);
            held.lemma_activated_len(self.layout(), f, input, t + 1);
            assert(square_fits(self.layout(), layer_no as int));
        }
        let slopes = layer.after_biases.map(&self.activ_diff);
        assert(slopes@ =~= vec_mapped(df, held.biased(f, input, t)));
        let activation_derivative = Matrix::diagonal(&slopes).unwrap();
        assert(activation_derivative@ == held.slope(f, df, input, t));
        assert(activation_derivative@.rows == self.layout()[layer_no as int]);
        assert(activation_derivative@.cols == self.layout()[layer_no as int]);

        // Last layer in the network.
        if layer_no == self.num_layers() - 1 {
            let cost_diff = layer.after_activ.sub(expected).unwrap().scale(
                two_of::<T>(),
            ).into_matrix().transpose();
            assert(1 * activation_derivative@.cols == activation_derivative@.cols)
                by (nonlinear_arith);
            let activation_input_diff = Matrix::multiply(&cost_diff, &activation_derivative).unwrap();
            let mut diffs: VecDeque<Matrix<T>> = VecDeque::with_capacity(self.num_layers() - 1);
            diffs.push_front(activation_input_diff);
            diffs
        } else {
            let mut proceeding_layers = self.activation_input_diff(
                feed_forward_results,
                expected,
                layer_no + 1,
            );
            proof {
                held.lemma_signal_shape(self.layout(), f, df, input, expected@, t + 1);
                assert(held.weights[layer_no as int] == self.weights@[layer_no as int]@);
                assert(transition_fits(self.layout(), layer_no as int));
                assert(proceeding_layers@[0]@ == held.signal(f, df, input, expected@, t + 1));
                assert(1 * activation_derivative@.cols == activation_derivative@.cols)
                    by (nonlinear_arith);
            }
            let through = Matrix::multiply(&self.weights[layer_no], &activation_derivative).unwrap();
            let diff = Matrix::multiply(&proceeding_layers[0], &through).unwrap();
            let ghost later = proceeding_layers@;
            proceeding_layers.push_front(diff);
            proof {
                assert forall|k: int| 0 <= k < proceeding_layers@.len() implies {
                    &&& (#[trigger] proceeding_layers@[k]).wf()
                    &&& proceeding_layers@[k]@ == held.signal(
                        f,
                        df,
                        input,
                        expected@,
                        (layer_no - 1 + k) as nat,
                    )
                } by {
                    if k > 0 {
                        assert(proceeding_layers@[k] == later[k - 1]);
                    }
                }
            }
            proceeding_layers
        }
    }

    /// The derivative of the cost with respect to the weights of every
    /// transition: the outer product of the error signal of the transition
    /// with the output of the layer it starts from.
    fn weight_diff(
        &self,
        activation_input_diff: &VecDeque<Matrix<T>>,
        feed_forward_results: &(Vector<T>, Vec<FeedForwardResult<T>>),
    ) -> (r: Vec<Matrix<T>>)
        requires
            is_exact::<T>(),
            self.wf(),
            feed_forward_results.0@.len() == self.input_width(),
            self.records(feed_forward_results.0@, feed_forward_results.1@),
            activation_input_diff@.len() == self.depth(),
            forall|t: int|
                0 <= t < self.depth() ==> {
                    &&& (#[trigger] activation_input_diff@[t]).wf()
                    &&& activation_input_diff@[t]@.rows == 1
                    &&& activation_input_diff@[t]@.cols == self.layout()[t + 1]
                },
        ensures
            r@.len() == self.depth(),
            forall|t: int|
                0 <= t < self.depth() ==> {
                    &&& (#[trigger] r@[t]).wf()
                    &&& r@[t]@ == Grid::outer(
                        activation_input_diff@[t]@.cells,
                        self.parameters().activated(
                            as_function(self.activation()),
                            feed_forward_results.0@,
                            t as nat,
                        ),
                    )
                },
    {
        let ghost f = as_function(self.activation());
        let ghost held = self.parameters();
        let ghost input = feed_forward_results.0@;
        let mut diffs: Vec<Matrix<T>> = Vec::with_capacity(self.num_layers() - 1);
        let mut weight_set: usize = 0;
        while weight_set < self.num_layers() - 1
            invariant
                is_exact::<T>(),
                self.wf(),
                f == as_function(self.activation()),
                held == self.parameters(),
                input == feed_forward_results.0@,
                input.len() == self.input_width(),
                self.records(input, feed_forward_results.1@),
                activation_input_diff@.len() == self.depth(),
                forall|t: int|
                    0 <= t < self.depth() ==> {
                        &&& (#[trigger] activation_input_diff@[t]).wf()
                        &&& activation_input_diff@[t]@.rows == 1
                        &&& activation_input_diff@[t]@.cols == self.layout()[t + 1]
                    },
                weight_set <= self.depth(),
                diffs.len() == weight_set,
                forall|t: int|
                    0 <= t < weight_set ==> {
                        &&& (#[trigger] diffs@[t]).wf()
                        &&& diffs@[t]@ == Grid::outer(
                            activation_input_diff@[t]@.cells,
                            held.activated(f, input, t as nat),
                        )
                    },
            decreases self.depth() - weight_set,
        {
            proof {
                held.lemma_activated_len(self.layout(), f, input, weight_set as nat);
                assert(transition_fits(self.layout(), weight_set as int));
                assert(activation_input_diff@[weight_set as int].wf());
                assert(1 * self.layout()[weight_set + 1] == self.layout()[weight_set + 1])
                    by (nonlinear_arith);
            }
            let signal = activation_input_diff[weight_set].clone().into_vector().unwrap();
            let gradient = if weight_set == 0 {
                Vector::outer_product(&signal, &feed_forward_results.0)
            } else {
                Vector::outer_product(&signal, &feed_forward_results.1[weight_set - 1].after_activ)
            }.unwrap();
            diffs.push(gradient);
            weight_set += 1;
        }
        diffs
    }
}

impl<T: Scalar, F: Fn(T) -> T, D: Fn(T) -> T> Network<T, F, D> {
    /// One step of gradient descent on one sample: a forward pass, the error
    /// signal of every transition, and then, for every transition, the
    /// weights less `weights_lr` times their gradient and the biases less
    /// `biases_lr` times their error signal. All gradients are taken before
    /// any parameter changes.
    pub fn train_singular(
        &mut self,
        weights_lr: T,
        biases_lr: T,
        input: &Vector<T>,
        expected: &Vector<T>,
    ) -> (r: Result<(), NetworkError>)
        requires
            is_exact::<T>(),
            old(self).wf(),
        ensures
            final(self).wf(),
            final(self).layout() == old(self).layout(),
            final(self).activation() == old(self).activation(),
            final(self).activation_derivative() == old(self).activation_derivative(),
            input@.len() != old(self).input_width() <==> r == Err::<(), NetworkError>(
                NetworkError::InputWidthMismatch,
            ),
            input@.len() == old(self).input_width() && expected@.len() != old(self).output_width()
                <==> r == Err::<(), NetworkError>(NetworkError::OutputWidthMismatch),
            input@.len() == old(self).input_width() && expected@.len() == old(self).output_width()
                && !slopes_fit(old(self).layout()) <==> r == Err::<(), NetworkError>(
                NetworkError::LayerTooWide,
            ),
            input@.len() == old(self).input_width() && expected@.len() == old(self).output_width()
                && slopes_fit(old(self).layout()) <==> r is Ok,
            r is Err ==> final(self).parameters() == old(self).parameters(),
            r is Ok ==> final(self).parameters() == old(self).parameters().stepped(
                as_function(old(self).activation()),
                as_function(old(self).activation_derivative()),
                weights_lr,
                biases_lr,
                input@,
                expected@,
            ),
    {
        if input.len() != self.structure[0] {
            return Err(NetworkError::InputWidthMismatch);
        }
        if expected.len() != self.structure[self.structure.len() - 1] {
            return Err(NetworkError::OutputWidthMismatch);
        }
        if !slopes_countable(&self.structure) {
            return Err(NetworkError::LayerTooWide);
        }
        let ghost f = as_function(self.activation());
        let ghost df = as_function(self.activation_derivative());
        let ghost layout = self.layout();
        let ghost before = self.parameters();
        let ghost after = before.stepped(f, df, weights_lr, biases_lr, input@, expected@);

        let feed_forward_results = self.feed_forward(input).unwrap();

        // Calculate the difference to the weights and biases for all layers.
        let activation_input_diff = self.activation_input_diff(&feed_forward_results, expected, 1);
        proof {
            assert forall|t: int| 0 <= t < self.depth() implies {
                &&& (#[trigger] activation_input_diff@[t]).wf()
                &&& activation_input_diff@[t]@.rows == 1
                &&& activation_input_diff@[t]@.cols == layout[t + 1]
            } by {
                before.lemma_signal_shape(layout, f, df, input@, expected@, t as nat);
            }
        }
        let weights_diff = self.weight_diff(&activation_input_diff, &feed_forward_results);
        proof {
            before.lemma_stepped_fits(layout, f, df, weights_lr, biases_lr, input@, expected@);
            assert forall|t: int| 0 <= t < self.depth() implies {
                &&& (#[trigger] self.weights@[t]).wf()
                &&& self.weights@[t]@ == before.weights[t]
            } by {
                assert(before.weights[t].wf());
                assert(transition_fits(layout, t));
            }
            assert forall|t: int| 0 <= t < self.depth() implies (#[trigger] self.biases@[t])@
                == before.biases[t] by {}
        }

        let transitions = self.num_layers() - 1;
        let mut param_set: usize = 0;
        while param_set < transitions
            invariant
                is_exact::<T>(),
                before.fits(layout),
                after.fits(layout),
                weights_fit(layout),
                after == before.stepped(f, df, weights_lr, biases_lr, input@, expected@),
                self.structure@ == layout,
                input@.len() == layout[0],
                self.activ == old(self).activ,
                self.activ_diff == old(self).activ_diff,
                transitions == layout.len() - 1,
                self.weights@.len() == transitions,
                self.biases@.len() == transitions,
                weights_diff@.len() == transitions,
                activation_input_diff@.len() == transitions,
                param_set <= transitions,
                forall|t: int|
                    0 <= t < transitions ==> {
                        &&& (#[trigger] activation_input_diff@[t]).wf()
                        &&& activation_input_diff@[t]@ == before.signal(
                            f,
                            df,
                            input@,
                            expected@,
                            t as nat,
                        )
                    },
                forall|t: int|
                    0 <= t < transitions ==> {
                        &&& (#[trigger] weights_diff@[t]).wf()
                        &&& weights_diff@[t]@ == before.weight_gradient(
                            f,
                            df,
                            input@,
                            expected@,
                            t as nat,
                        )
                    },
                forall|t: int|
                    0 <= t < transitions ==> {
                        &&& (#[trigger] self.weights@[t]).wf()
                        &&& self.weights@[t]@ == (if t < param_set {
                            after.weights[t]
                        } else {
                            before.weights[t]
                        })
                    },
                forall|t: int|
                    0 <= t < transitions ==> (#[trigger] self.biases@[t])@ == (if t < param_set {
                        after.biases[t]
                    } else {
                        before.biases[t]
                    }),
            decreases transitions - param_set,
        {
            proof {
                before.lemma_signal_shape(layout, f, df, input@, expected@, param_set as nat);
                before.lemma_activated_len(layout, f, input@, param_set as nat);
                assert(before.weights[param_set as int].wf());
                assert(after.weights[param_set as int].wf());
                assert(before.biases[param_set as int].len() == layout[param_set + 1]);
                assert(transition_fits(layout, param_set as int));
                assert(1 * layout[param_set + 1] == layout[param_set + 1]) by (nonlinear_arith);
            }
            let weights_change = weights_diff[param_set].scale(weights_lr);
            let new_weights = self.weights[param_set].sub(&weights_change).unwrap();
            self.weights.set(param_set, new_weights);
            let signal = activation_input_diff[param_set].clone().into_vector().unwrap();
            let new_biases = self.biases[param_set].sub(&signal.scale(biases_lr)).unwrap();
            self.biases.set(param_set, new_biases);
            param_set += 1;
        }
        proof {
            assert(self.parameters().weights =~= after.weights);
            assert(self.parameters().biases =~= after.biases);
        }
        Ok(())
    }

    /// Trains on every sample of `input` in order, one step of gradient
    /// descent each, every step starting from the parameters that the one
    /// before left. Nothing is averaged over the batch.
    pub fn train_batch(
        &mut self,
        weights_lr: T,
        biases_lr: T,
        input: &DataSet<T>,
        expected: &DataSet<T>,
    ) -> (r: Result<(), NetworkError>)
        requires
            is_exact::<T>(),
            old(self).wf(),
            input.wf(),
            expected.wf(),
        ensures
            final(self).wf(),
            final(self).layout() == old(self).layout(),
            final(self).activation() == old(self).activation(),
            final(self).activation_derivative() == old(self).activation_derivative(),
            input@.len() != expected@.len() <==> r == Err::<(), NetworkError>(
                NetworkError::QuantityMismatch,
            ),
            input@.len() == expected@.len() && input@.len() > 0 && input.width() != old(
                self,
            ).input_width() <==> r == Err::<(), NetworkError>(NetworkError::InputWidthMismatch),
            input@.len() == expected@.len() && input@.len() > 0 && input.width() == old(
                self,
            ).input_width() && expected.width() != old(self).output_width() <==> r == Err::<
                (),
                NetworkError,
            >(NetworkError::OutputWidthMismatch),
            input@.len() == expected@.len() && input@.len() > 0 && input.width() == old(
                self,
            ).input_width() && expected.width() == old(self).output_width() && !slopes_fit(
                old(self).layout(),
            ) <==> r == Err::<(), NetworkError>(NetworkError::LayerTooWide),
            input@.len() == expected@.len() && (input@.len() == 0 || (input.width() == old(
                self,
            ).input_width() && expected.width() == old(self).output_width() && slopes_fit(
                old(self).layout(),
            ))) <==> r is Ok,
            r is Err ==> final(self).parameters() == old(self).parameters(),
            r is Ok ==> final(self).parameters() == old(self).parameters().trained(
                as_function(old(self).activation()),
                as_function(old(self).activation_derivative()),
                weights_lr,
                biases_lr,
                input@,
                expected@,
                input@.len(),
            ),
            input@.len() == 0 && expected@.len() == 0 ==> final(self).parameters() == old(
                self,
            ).parameters(),
    {
        if input.quantity() != expected.quantity() {
            return Err(NetworkError::QuantityMismatch);
        }
        if input.quantity() == 0 {
            return Ok(());
        }
        if input.entries_per_set() != self.structure[0] {
            return Err(NetworkError::InputWidthMismatch);
        }
        if expected.entries_per_set() != self.structure[self.structure.len() - 1] {
            return Err(NetworkError::OutputWidthMismatch);
        }
        if !slopes_countable(&self.structure) {
            return Err(NetworkError::LayerTooWide);
        }
        let ghost f = as_function(self.activation());
        let ghost df = as_function(self.activation_derivative());
        let ghost before = self.parameters();
        let mut i: usize = 0;
        while i < input.quantity()
            invariant
                is_exact::<T>(),
                self.wf(),
                input.wf(),
                expected.wf(),
                self.layout() == old(self).layout(),
                self.activation() == old(self).activation(),
                self.activation_derivative() == old(self).activation_derivative(),
                f == as_function(self.activation()),
                df == as_function(self.activation_derivative()),
                input@.len() == expected@.len(),
                input@.len() > 0,
                input.width() == self.input_width(),
                expected.width() == self.output_width(),
                slopes_fit(self.layout()),
                i <= input@.len(),
                self.parameters() == before.trained(
                    f,
                    df,
                    weights_lr,
                    biases_lr,
                    input@,
                    expected@,
                    i as nat,
                ),
            decreases input@.len() - i,
        {
            let step = self.train_singular(
                weights_lr,
                biases_lr,
                input.internal_get(i),
                expected.internal_get(i),
            );
            assert(step is Ok);
            i += 1;
        }
        Ok(())
    }
}

impl<T: Scalar, F: Fn(T) -> T + Copy, D: Fn(T) -> T + Copy> Clone for Network<T, F, D> {
    fn clone(&self) -> (r: Self)
        ensures
            r.layout() == self.layout(),
            r.parameters() == self.parameters(),
            r.activation() == self.activation(),
            r.activation_derivative() == self.activation_derivative(),
    {
        let mut weights: Vec<Matrix<T>> = Vec::with_capacity(self.weights.len());
        let mut t: usize = 0;
        while t < self.weights.len()
            invariant
                t <= self.weights@.len(),
                weights.len() == t,
                forall|s: int| 0 <= s < t ==> (#[trigger] weights@[s])@ == self.weights@[s]@,
            decreases self.weights@.len() - t,
        {
            weights.push(self.weights[t].clone());
            t += 1;
        }
        let mut biases: Vec<Vector<T>> = Vec::with_capacity(self.biases.len());
        let mut t: usize = 0;
        while t < self.biases.len()
            invariant
                t <= self.biases@.len(),
                biases.len() == t,
                forall|s: int| 0 <= s < t ==> (#[trigger] biases@[s])@ == self.biases@[s]@,
            decreases self.biases@.len() - t,
        {
            biases.push(self.biases[t].clone());
            t += 1;
        }
        let copy = Network {
            structure: copy_of(&self.structure),
            weights,
            biases,
            activ: self.activ,
            activ_diff: self.activ_diff,
        };
        proof {
            assert(copy.parameters().weights =~= self.parameters().weights);
            assert(copy.parameters().biases =~= self.parameters().biases);
        }
        copy
    }
}

} // verus!
