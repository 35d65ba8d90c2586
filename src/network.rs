//! A feed-forward network of fully connected layers, generic over its number type.
use vstd::prelude::*;

verus! {

/// The arithmetic a network computes with. Its laws are those of the number type;
/// the network relies on none of them.
pub trait Real: Copy + Sized {
    fn zero() -> Self;

    fn one() -> Self;

    fn negated(self) -> Self;

    fn plus(self, other: Self) -> Self;

    fn times(self, other: Self) -> Self;

    fn divided_by(self, other: Self) -> Self;

    /// `e` to the power of `self`.
    fn exp(self) -> Self;

    fn sqrt(self) -> Self;

    /// The number `n`.
    fn from_count(n: u64) -> Self;

    /// An integer key that orders values as they compare: `a` is less than `b`
    /// exactly when `a.rank() < b.rank()`.
    fn rank(self) -> i64;
}

/// Sets every negative value to zero.
#[derive(Clone, Copy, Debug, PartialEq, Eq)]
pub struct ReLU;

/// Replaces each value `x` by `exp(x)` over the sum of the exponentials of all values.
#[derive(Clone, Copy, Debug, PartialEq, Eq)]
pub struct Softmax;

/// The rank of each value (see [`Real::rank`]).
pub fn ranks<W: Real>(values: &Vec<W>) -> (r: Vec<i64>)
    ensures
        r@.len() == values@.len(),
{
    let n = values.len();
    let mut out: Vec<i64> = Vec::with_capacity(n);
    let mut i: usize = 0;
    while i < n
        invariant
            n == values@.len(),
            i <= n,
            out@.len() == i,
        decreases n - i,
    {
        out.push(values[i].rank());
        i = i + 1;
    }
    out
}

/// `values` after each one whose key lies below `floor` is replaced by `zero`.
pub open spec fn cleared_below<W>(values: Seq<W>, keys: Seq<i64>, floor: i64, zero: W) -> Seq<W> {
    Seq::new(values.len(), |k: int| if keys[k] < floor { zero } else { values[k] })
}

/// Replaces by `zero` each value whose key `keys[k]` lies below `floor`; the others
/// stay as they are.
pub fn clear_below<W: Copy>(values: &mut Vec<W>, keys: &Vec<i64>, floor: i64, zero: W)
    requires
        keys@.len() == old(values)@.len(),
    ensures
        final(values)@ == cleared_below(old(values)@, keys@, floor, zero),
{
    let n = values.len();
    let ghost start = values@;
    let mut i: usize = 0;
    while i < n
        invariant
            n == values@.len(),
            n == keys@.len(),
            n == start.len(),
            i <= n,
            forall|k: int| 0 <= k < i ==> values@[k] == (if keys@[k] < floor { zero } else { start[k] }),
            forall|k: int| i <= k < n ==> values@[k] == start[k],
        decreases n - i,
    {
        if keys[i] < floor {
            values.set(i, zero);
        }
        i = i + 1;
    }
    assert(values@ =~= cleared_below(start, keys@, floor, zero));
}

impl ReLU {
    /// Sets to zero every value that ranks below zero.
    pub fn apply<W: Real>(&self, input: &mut Vec<W>)
        ensures
            exists|keys: Seq<i64>, floor: i64, zero: W|
                keys.len() == old(input)@.len() && final(input)@ == #[trigger] cleared_below(
                    old(input)@,
                    keys,
                    floor,
                    zero,
                ),
            final(input)@.len() == old(input)@.len(),
    {
        let zero = W::zero();
        let keys = ranks(input);
        clear_below(input, &keys, zero.rank(), zero);
    }
}

impl Softmax {
    pub fn apply<W: Real>(&self, input: &mut Vec<W>)
        ensures
            final(input)@.len() == old(input)@.len(),
    {
        let n = input.len();
        let mut exps: Vec<W> = Vec::with_capacity(n);
        let mut sum = W::zero();
        let mut i: usize = 0;
        while i < n
            invariant
                n == input@.len(),
                i <= n,
                exps@.len() == i,
            decreases n - i,
        {
            let e = input[i].exp();
            exps.push(e);
            sum = sum.plus(e);
            i = i + 1;
        }
        let mut j: usize = 0;
        while j < n
            invariant
                n == input@.len(),
                n == exps@.len(),
                j <= n,
            decreases n - j,
        {
            input.set(j, exps[j].divided_by(sum));
            j = j + 1;
        }
    }
}

/// The activation that a layer applies to its outputs.
#[derive(Clone, Copy, Debug, PartialEq, Eq, Structural)]
pub enum Activation {
    ReLU,
    Softmax,
}

impl Activation {
    pub fn apply<W: Real>(&self, input: &mut Vec<W>)
        ensures
            final(input)@.len() == old(input)@.len(),
    {
        match self {
            Activation::ReLU => ReLU.apply(input),
            Activation::Softmax => Softmax.apply(input),
        }
    }
}

/// Why a network could not be built or run.
#[derive(Clone, Copy, Debug, PartialEq, Eq, Structural)]
pub enum NetworkError {
    /// There must be one activation fewer than layers, and at least one layer.
    ShapeMismatch { layers: usize, activations: usize },
    /// The weights do not number the sum of the products of neighbouring layer sizes.
    WeightCountMismatch { weights: usize },
    /// The input's length is not the first layer's size.
    InputSizeMismatch { expected: usize, actual: usize },
}

/// The layer sizes and activations of a network.
#[derive(Clone, Debug, PartialEq, Eq)]
pub struct NeuralNetworkOptions {
    pub layers_sizes_vec: Vec<u16>,
    pub layers_functions: Vec<Activation>,
}

impl NeuralNetworkOptions {
    pub fn new(layers_sizes_vec: Vec<u16>, layers_functions: Vec<Activation>) -> (r: NeuralNetworkOptions)
        ensures
            r.layers_sizes_vec@ == layers_sizes_vec@,
            r.layers_functions@ == layers_functions@,
    {
        NeuralNetworkOptions { layers_sizes_vec, layers_functions }
    }
}

/// Each layer after the first has one activation.
pub open spec fn shape_ok(sizes: Seq<u16>, n_functions: int) -> bool {
    sizes.len() >= 1 && n_functions == sizes.len() - 1
}

/// Number of weights: the sum of the products of neighbouring layer sizes.
pub open spec fn weight_count(sizes: Seq<u16>) -> int
    decreases sizes.len(),
{
    if sizes.len() < 2 {
        0
    } else {
        weight_count(sizes.drop_last()) + sizes[sizes.len() - 2] * sizes[sizes.len() - 1]
    }
}

/// Where the weights of layer `l` (between sizes `l` and `l + 1`) start.
pub open spec fn layer_offset(sizes: Seq<u16>, l: int) -> int {
    weight_count(sizes.take(l + 1))
}

proof fn lemma_weight_count_step(sizes: Seq<u16>, l: int)
    requires
        0 <= l,
        l + 1 < sizes.len(),
    ensures
        layer_offset(sizes, l + 1) == layer_offset(sizes, l) + sizes[l] * sizes[l + 1],
        sizes[l] * sizes[l + 1] >= 0,
{
    assert(sizes.take(l + 2).drop_last() =~= sizes.take(l + 1));
    assert(sizes[l] * sizes[l + 1] >= 0) by (nonlinear_arith);
}

proof fn lemma_weight_count_prefix(sizes: Seq<u16>, k: int)
    requires
        0 <= k <= sizes.len(),
    ensures
        0 <= weight_count(sizes.take(k)) <= weight_count(sizes),
    decreases sizes.len() - k,
{
    if k == sizes.len() {
        assert(sizes.take(k) =~= sizes);
        lemma_weight_count_nonneg(sizes);
    } else {
        lemma_weight_count_prefix(sizes, k + 1);
        lemma_weight_count_nonneg(sizes.take(k));
        if k >= 1 {
            lemma_weight_count_step(sizes, k - 1);
        } else {
            assert(weight_count(sizes.take(0)) == 0);
        }
    }
}

proof fn lemma_weight_count_nonneg(sizes: Seq<u16>)
    ensures
        weight_count(sizes) >= 0,
    decreases sizes.len(),
{
    if sizes.len() >= 2 {
        lemma_weight_count_nonneg(sizes.drop_last());
        let a = sizes[sizes.len() - 2];
        let b = sizes[sizes.len() - 1];
        assert(a * b >= 0) by (nonlinear_arith);
    }
}

/// The number of weights for `sizes`, or `None` when it exceeds `usize`.
pub fn count_weights(sizes: &Vec<u16>) -> (r: Option<usize>)
    ensures
        r matches Some(c) ==> c == weight_count(sizes@),
        r is None ==> weight_count(sizes@) > usize::MAX,
{
    let n = sizes.len();
    if n < 2 {
        return Some(0);
    }
    let mut total: usize = 0;
    let mut l: usize = 0;
    while l + 1 < n
        invariant
            n == sizes@.len(),
            n >= 2,
            l + 1 <= n,
            total == layer_offset(sizes@, l as int),
        decreases n - l,
    {
        proof {
            lemma_weight_count_step(sizes@, l as int);
            lemma_weight_count_prefix(sizes@, l as int + 2);
        }
        let a = sizes[l] as usize;
        let b = sizes[l + 1] as usize;
        assert(a * b <= 65535 * 65535) by (nonlinear_arith)
            requires
                a <= 65535,
                b <= 65535,
        ;
        let p = a * b;
        if total > usize::MAX - p {
            return None;
        }
        total = total + p;
        l = l + 1;
    }
    proof {
        assert(sizes@.take(n as int) =~= sizes@);
    }
    Some(total)
}

/// A network as a mathematical value.
pub struct NetworkView<W> {
    pub weights: Seq<W>,
    pub functions: Seq<Activation>,
    pub sizes: Seq<u16>,
}

/// A network: a flat weight buffer read as one row-major block per layer, one row of
/// `sizes[l]` weights for each of the `sizes[l + 1]` neurons of the next layer.
pub struct NeuralNetwork<W> {
    layers_weights: Vec<W>,
    layers_functions: Vec<Activation>,
    layers_sizes_vec: Vec<u16>,
}

impl<W> View for NeuralNetwork<W> {
    type V = NetworkView<W>;

    closed spec fn view(&self) -> NetworkView<W> {
        NetworkView {
            weights: self.layers_weights@,
            functions: self.layers_functions@,
            sizes: self.layers_sizes_vec@,
        }
    }
}

/// The outcome of building a network from `sizes`, `functions` and `weights`.
pub open spec fn build_result<W>(
    sizes: Seq<u16>,
    functions: Seq<Activation>,
    weights: Seq<W>,
    r: Result<NeuralNetwork<W>, NetworkError>,
) -> bool {
    if !shape_ok(sizes, functions.len() as int) {
        r == Err::<NeuralNetwork<W>, NetworkError>(
            NetworkError::ShapeMismatch { layers: sizes.len() as usize, activations: functions.len() as usize },
        )
    } else if weights.len() != weight_count(sizes) {
        r == Err::<NeuralNetwork<W>, NetworkError>(
            NetworkError::WeightCountMismatch { weights: weights.len() as usize },
        )
    } else {
        r matches Ok(n) && n@ == (NetworkView { weights, functions, sizes })
    }
}

impl<W> NeuralNetwork<W> {
    #[verifier::type_invariant]
    spec fn inv(self) -> bool {
        &&& shape_ok(self.layers_sizes_vec@, self.layers_functions@.len() as int)
        &&& self.layers_weights@.len() == weight_count(self.layers_sizes_vec@)
    }
}

impl<W: Real> NeuralNetwork<W> {
    /// A network whose weights are `weights`.
    pub fn new_with_weights(layers_weights: Vec<W>, options: NeuralNetworkOptions) -> (r: Result<
        NeuralNetwork<W>,
        NetworkError,
    >)
        ensures
            build_result(options.layers_sizes_vec@, options.layers_functions@, layers_weights@, r),
    {
        let layers_sizes_vec = options.layers_sizes_vec;
        let layers_functions = options.layers_functions;
        if layers_sizes_vec.len() == 0 || layers_functions.len() != layers_sizes_vec.len() - 1 {
            return Err(
                NetworkError::ShapeMismatch {
                    layers: layers_sizes_vec.len(),
                    activations: layers_functions.len(),
                },
            );
        }
        match count_weights(&layers_sizes_vec) {
            Some(c) => {
                if c != layers_weights.len() {
                    return Err(NetworkError::WeightCountMismatch { weights: layers_weights.len() });
                }
            },
            None => {
                return Err(NetworkError::WeightCountMismatch { weights: layers_weights.len() });
            },
        }
        Ok(NeuralNetwork { layers_weights, layers_functions, layers_sizes_vec })
    }

    /// A network whose weights are drawn one by one from `draw`. When their number does
    /// not fit in `usize` none is drawn, and the empty buffer is reported as not fitting.
    pub fn new<F: Fn() -> W>(options: NeuralNetworkOptions, draw: F) -> (r: Result<
        NeuralNetwork<W>,
        NetworkError,
    >)
        requires
            draw.requires(()),
        ensures
            !shape_ok(options.layers_sizes_vec@, options.layers_functions@.len() as int) ==> r == Err::<
                NeuralNetwork<W>,
                NetworkError,
            >(
                NetworkError::ShapeMismatch {
                    layers: options.layers_sizes_vec@.len() as usize,
                    activations: options.layers_functions@.len() as usize,
                },
            ),
            shape_ok(options.layers_sizes_vec@, options.layers_functions@.len() as int) && weight_count(
                options.layers_sizes_vec@,
            ) > usize::MAX ==> r == Err::<NeuralNetwork<W>, NetworkError>(
                NetworkError::WeightCountMismatch { weights: 0 },
            ),
            shape_ok(options.layers_sizes_vec@, options.layers_functions@.len() as int) && weight_count(
                options.layers_sizes_vec@,
            ) <= usize::MAX ==> (r matches Ok(
                n,
            ) && n@.sizes == options.layers_sizes_vec@ && n@.functions == options.layers_functions@
                && n@.weights.len() == weight_count(options.layers_sizes_vec@)),
    {
        let count = match count_weights(&options.layers_sizes_vec) {
            Some(c) => c,
            None => 0,
        };
        let mut weights: Vec<W> = Vec::with_capacity(count);
        let mut i: usize = 0;
        while i < count
            invariant
                i <= count,
                weights@.len() == i,
                draw.requires(()),
            decreases count - i,
        {
            weights.push(draw());
            i = i + 1;
        }
        Self::new_with_weights(weights, options)
    }

    pub fn layer_sizes(&self) -> (r: &Vec<u16>)
        ensures
            r@ == self@.sizes,
    {
        &self.layers_sizes_vec
    }

    pub fn weights(&self) -> (r: &Vec<W>)
        ensures
            r@ == self@.weights,
    {
        &self.layers_weights
    }

    /// Replaces the weights by `new_weights` when they are as many; otherwise leaves
    /// the network as it is.
    pub fn update_weights(&mut self, new_weights: Vec<W>) -> (r: Result<(), NetworkError>)
        ensures
            new_weights@.len() == old(self)@.weights.len() ==> r is Ok && final(self)@ == (NetworkView {
                weights: new_weights@,
                ..old(self)@
            }),
            new_weights@.len() != old(self)@.weights.len() ==> r == Err::<(), NetworkError>(
                NetworkError::WeightCountMismatch { weights: new_weights@.len() as usize },
            ) && final(self)@ == old(self)@,
    {
        proof {
            use_type_invariant(&*self);
        }
        if new_weights.len() != self.layers_weights.len() {
            return Err(NetworkError::WeightCountMismatch { weights: new_weights.len() });
        }
        self.layers_weights = new_weights;
        Ok(())
    }

    /// The network's output for `input`: each layer's outputs are the dot products of
    /// the previous layer's outputs with the layer's weight rows, passed through the
    /// layer's activation.
    pub fn get_output(&self, input: Vec<W>) -> (r: Result<Vec<W>, NetworkError>)
        ensures
            self@.sizes.len() >= 1,
            input@.len() != self@.sizes[0] ==> r == Err::<Vec<W>, NetworkError>(
                NetworkError::InputSizeMismatch { expected: self@.sizes[0] as usize, actual: input@.len() as usize },
            ),
            input@.len() == self@.sizes[0] ==> (r matches Ok(out) && out@.len() == self@.sizes.last()),
    {
        proof {
            use_type_invariant(self);
        }
        let sizes = &self.layers_sizes_vec;
        if input.len() != sizes[0] as usize {
            return Err(NetworkError::InputSizeMismatch { expected: sizes[0] as usize, actual: input.len() });
        }
        let n = sizes.len();
        let total = self.layers_weights.len();
        let mut output = input;
        let mut start: usize = 0;
        let mut l: usize = 0;
        while l + 1 < n
            invariant
                n == sizes@.len(),
                n >= 1,
                l + 1 <= n,
                sizes@ == self@.sizes,
                self.layers_functions@.len() + 1 == n,
                self.layers_weights@.len() == weight_count(sizes@),
                total == self.layers_weights@.len(),
                start == layer_offset(sizes@, l as int),
                output@.len() == sizes@[l as int],
            decreases n - l,
        {
            proof {
                lemma_weight_count_step(sizes@, l as int);
                lemma_weight_count_prefix(sizes@, l as int + 2);
            }
            let cols = sizes[l] as usize;
            let rows = sizes[l + 1] as usize;
            assert(rows * cols == sizes@[l as int] * sizes@[l as int + 1]) by (nonlinear_arith)
                requires
                    rows == sizes@[l as int + 1],
                    cols == sizes@[l as int],
            ;
            output = calculate_output_from_layer(
                &output,
                &self.layers_weights,
                start,
                rows,
                &self.layers_functions[l],
            );
            start = start + rows * cols;
            l = l + 1;
        }
        Ok(output)
    }
}

/// One layer: `rows` dot products of `input` with the consecutive weight rows that
/// start at `start`, then the activation.
fn calculate_output_from_layer<W: Real>(
    input: &Vec<W>,
    weights: &Vec<W>,
    start: usize,
    rows: usize,
    function: &Activation,
) -> (r: Vec<W>)
    requires
        start + rows * input@.len() <= weights@.len(),
    ensures
        r@.len() == rows,
{
    let cols = input.len();
    let total = weights.len();
    let mut output: Vec<W> = Vec::with_capacity(rows);
    let mut row_start: usize = start;
    let mut i: usize = 0;
    while i < rows
        invariant
            cols == input@.len(),
            total == weights@.len(),
            start + rows * cols <= weights@.len(),
            i <= rows,
            row_start == start + i * cols,
            output@.len() == i,
        decreases rows - i,
    {
        assert((i + 1) * cols <= rows * cols) by (nonlinear_arith)
            requires
                i < rows,
        ;
        assert((i + 1) * cols == i * cols + cols) by (nonlinear_arith);
        let mut acc = W::zero();
        let mut j: usize = 0;
        while j < cols
            invariant
                cols == input@.len(),
                total == weights@.len(),
                row_start + cols <= weights@.len(),
                row_start + cols == start + (i + 1) * cols,
                start + rows * cols <= weights@.len(),
                i < rows,
                j <= cols,
            decreases cols - j,
        {
            acc = acc.plus(input[j].times(weights[row_start + j]));
            j = j + 1;
        }
        output.push(acc);
        row_start = row_start + cols;
        i = i + 1;
    }
    function.apply(&mut output);
    output
}

} // verus!
