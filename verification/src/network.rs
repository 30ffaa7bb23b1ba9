use vstd::prelude::*;

use crate::functions::ActivationFn;

verus! {

/// One unit of a computation layer: a weight per unit of the previous layer,
/// a bias, gradient accumulators of the same shapes, and the transient
/// per-pass state (the last activation and this unit's row of the layer's
/// Jacobian).  Scalar values are opaque 64-bit words; see `ActivationFn`.
pub struct Node {
    pub weights: Vec<u64>,
    pub bias: u64,
    pub d_weights: Vec<u64>,
    pub d_bias: u64,
    pub activation: u64,
    pub as_respect_z: Vec<u64>,
}

/// One computation layer: its units and the activation tag fixed at
/// construction.
pub struct HiddenLayer {
    pub nodes: Vec<Node>,
    pub activation_fn: ActivationFn,
}

/// A feedforward network: the input width and the chain of computation
/// layers, input side first.
pub struct Network {
    pub input_width: usize,
    pub layers: Vec<HiddenLayer>,
}

/// Everything needed to rebuild an equivalent network: the layer widths
/// (input width first), one activation tag per computation layer, and each
/// unit's weights and bias, indexed `[layer][unit]`.
pub struct NetworkParts {
    pub widths: Vec<usize>,
    pub activation_fns: Vec<ActivationFn>,
    pub weights: Vec<Vec<Vec<u64>>>,
    pub biases: Vec<Vec<u64>>,
}

/// Why a description of a network is rejected.
#[derive(Clone, Copy, Debug, PartialEq, Eq, Structural)]
pub enum ConfigError {
    /// Fewer than two layer widths were given.
    EmptyArchitecture,
    /// The number of activation tags is not the number of widths minus one.
    TagCountMismatch,
    /// Some layer width is zero.
    ZeroWidth,
}

/// Why persisted state is rejected instead of building a partially
/// initialized network.
#[derive(Clone, Copy, Debug, PartialEq, Eq, Structural)]
pub enum DeserializationError {
    /// The widths and tags do not describe a network at all.
    BadArchitecture,
    /// The weight or bias tables do not have the shapes the widths declare.
    ShapeMismatch,
}

/// A valid architecture description: at least an input and an output layer,
/// no zero-width layer, one activation tag per computation layer.
pub open spec fn valid_architecture(dims: Seq<usize>, fns: Seq<ActivationFn>) -> bool {
    &&& dims.len() >= 2
    &&& fns.len() == dims.len() - 1
    &&& forall|i: int| 0 <= i < dims.len() ==> #[trigger] dims[i] > 0
}

impl Node {
    /// Shape invariant: one weight and one accumulator per input.
    pub open spec fn wf(&self, fan_in: int) -> bool {
        &&& self.weights@.len() == fan_in
        &&& self.d_weights@.len() == fan_in
    }

    /// Accumulators and transient per-pass state are all zero, as after
    /// construction or a parameter update.
    pub open spec fn transients_zeroed(&self) -> bool {
        &&& forall|i: int| 0 <= i < self.d_weights@.len() ==> #[trigger] self.d_weights@[i]
            == 0u64
        &&& self.d_bias == 0u64
        &&& self.activation == 0u64
        &&& self.as_respect_z@.len() == 0
    }

    /// The parameters themselves are zero as well.
    pub open spec fn is_zeroed(&self) -> bool {
        &&& self.transients_zeroed()
        &&& forall|i: int| 0 <= i < self.weights@.len() ==> #[trigger] self.weights@[i] == 0u64
        &&& self.bias == 0u64
    }

    /// A fresh unit with `fan_in` inputs and every word zero.
    pub fn new(fan_in: usize) -> (r: Node)
        ensures
            r.wf(fan_in as int),
            r.is_zeroed(),
    {
        Node {
            weights: zero_words(fan_in),
            bias: 0,
            d_weights: zero_words(fan_in),
            d_bias: 0,
            activation: 0,
            as_respect_z: Vec::new(),
        }
    }
}

fn zero_words(n: usize) -> (r: Vec<u64>)
    ensures
        r@.len() == n,
        forall|i: int| 0 <= i < n ==> #[trigger] r@[i] == 0u64,
{
    let mut r: Vec<u64> = Vec::new();
    let mut i: usize = 0;
    while i < n
        invariant
            i <= n,
            r@.len() == i,
            forall|j: int| 0 <= j < i ==> #[trigger] r@[j] == 0u64,
        decreases n - i,
    {
        r.push(0);
        i = i + 1;
    }
    r
}

impl HiddenLayer {
    /// Shape invariant: a nonempty row of units, each wired to every unit of
    /// the previous layer.
    pub open spec fn wf(&self, fan_in: int) -> bool {
        &&& self.nodes@.len() >= 1
        &&& forall|u: int| 0 <= u < self.nodes@.len() ==> (#[trigger] self.nodes@[u]).wf(fan_in)
    }

    /// Every unit of the layer is all zero, as freshly constructed.
    pub open spec fn all_zeroed(&self) -> bool {
        forall|u: int| 0 <= u < self.nodes@.len() ==> (#[trigger] self.nodes@[u]).is_zeroed()
    }

    /// A fresh layer of `width` zeroed units with `fan_in` inputs each.
    pub fn new(fan_in: usize, width: usize, activation_fn: ActivationFn) -> (r: HiddenLayer)
        requires
            width >= 1,
        ensures
            r.wf(fan_in as int),
            r.all_zeroed(),
            r.nodes@.len() == width,
            r.activation_fn == activation_fn,
    {
        let mut nodes: Vec<Node> = Vec::new();
        let mut u: usize = 0;
        while u < width
            invariant
                u <= width,
                nodes@.len() == u,
                forall|k: int| 0 <= k < u ==> (#[trigger] nodes@[k]).wf(fan_in as int),
                forall|k: int| 0 <= k < u ==> (#[trigger] nodes@[k]).is_zeroed(),
            decreases width - u,
        {
            nodes.push(Node::new(fan_in));
            u = u + 1;
        }
        HiddenLayer { nodes, activation_fn }
    }
}

impl Network {
    /// The width of position `l` of the chain: the input layer for `l == 0`,
    /// computation layer `l - 1` otherwise.
    pub open spec fn width_of(&self, l: int) -> int {
        if l == 0 {
            self.input_width as int
        } else {
            self.layers@[l - 1].nodes@.len() as int
        }
    }

    /// The fan-in of computation layer `l`: the width of the layer before it.
    pub open spec fn fan_in_of(&self, l: int) -> int {
        self.width_of(l)
    }

    /// Shape invariant of the whole chain.
    pub open spec fn wf(&self) -> bool {
        &&& self.input_width >= 1
        &&& self.layers@.len() >= 1
        &&& forall|l: int| 0 <= l < self.layers@.len() ==> (#[trigger] self.layers@[l]).wf(
            self.fan_in_of(l),
        )
    }

    /// The layer widths, input width first.
    pub open spec fn widths_spec(&self) -> Seq<int> {
        Seq::new(self.layers@.len() + 1, |l: int| self.width_of(l))
    }

    /// The network matches an architecture description.
    pub open spec fn matches_architecture(
        &self,
        dims: Seq<usize>,
        fns: Seq<ActivationFn>,
    ) -> bool {
        &&& self.widths_spec() == dims.map_values(|w: usize| w as int)
        &&& self.layers@.len() == fns.len()
        &&& forall|l: int| 0 <= l < self.layers@.len() ==> (#[trigger] self.layers@[l]).activation_fn
            == fns[l]
    }

    /// Every unit of every layer is all zero, as freshly constructed.
    pub open spec fn all_zeroed(&self) -> bool {
        forall|l: int| 0 <= l < self.layers@.len() ==> (#[trigger] self.layers@[l]).all_zeroed()
    }

    /// Builds the chain left to right, one zeroed computation layer per width
    /// after the first, each wired to the width before it.  Rejects an
    /// architecture with fewer than two widths, a tag count that is not the
    /// layer count, or a zero width, in that order of checks.
    pub fn new(dims: &Vec<usize>, activation_fns: &Vec<ActivationFn>) -> (r: Result<
        Network,
        ConfigError,
    >)
        ensures
            r is Ok <==> valid_architecture(dims@, activation_fns@),
            dims@.len() < 2 ==> r == Err::<Network, ConfigError>(ConfigError::EmptyArchitecture),
            dims@.len() >= 2 && activation_fns@.len() != dims@.len() - 1 ==> r == Err::<
                Network,
                ConfigError,
            >(ConfigError::TagCountMismatch),
            dims@.len() >= 2 && activation_fns@.len() == dims@.len() - 1 && (exists|i: int|
                0 <= i < dims@.len() && #[trigger] dims@[i] == 0) ==> r == Err::<
                Network,
                ConfigError,
            >(ConfigError::ZeroWidth),
            r is Ok ==> {
                &&& r->Ok_0.wf()
                &&& r->Ok_0.matches_architecture(dims@, activation_fns@)
                &&& r->Ok_0.all_zeroed()
            },
    {
        if dims.len() < 2 {
            return Err(ConfigError::EmptyArchitecture);
        }
        if activation_fns.len() != dims.len() - 1 {
            return Err(ConfigError::TagCountMismatch);
        }
        let mut i: usize = 0;
        while i < dims.len()
            invariant
                i <= dims@.len(),
                dims@.len() >= 2,
                activation_fns@.len() == dims@.len() - 1,
                forall|j: int| 0 <= j < i ==> #[trigger] dims@[j] > 0,
            decreases dims@.len() - i,
        {
            if dims[i] == 0 {
                return Err(ConfigError::ZeroWidth);
            }
            i = i + 1;
        }
        let mut layers: Vec<HiddenLayer> = Vec::new();
        let mut l: usize = 1;
        while l < dims.len()
            invariant
                1 <= l <= dims@.len(),
                dims@.len() >= 2,
                activation_fns@.len() == dims@.len() - 1,
                forall|j: int| 0 <= j < dims@.len() ==> #[trigger] dims@[j] > 0,
                layers@.len() == l - 1,
                forall|k: int| 0 <= k < l - 1 ==> (#[trigger] layers@[k]).nodes@.len() == dims@[k
                    + 1],
                forall|k: int| 0 <= k < l - 1 ==> (#[trigger] layers@[k]).activation_fn
                    == activation_fns@[k],
                forall|k: int| 0 <= k < l - 1 ==> (#[trigger] layers@[k]).wf(dims@[k] as int),
                forall|k: int| 0 <= k < l - 1 ==> (#[trigger] layers@[k]).all_zeroed(),
            decreases dims@.len() - l,
        {
            layers.push(HiddenLayer::new(dims[l - 1], dims[l], activation_fns[l - 1]));
            l = l + 1;
        }
        let n = Network { input_width: dims[0], layers };
        proof {
            assert forall|k: int| 0 <= k < n.layers@.len() implies (#[trigger] n.layers@[k]).wf(
                n.fan_in_of(k),
            ) by {
                assert(n.fan_in_of(k) == dims@[k] as int);
            }
            assert(n.widths_spec() =~= dims@.map_values(|w: usize| w as int));
        }
        Ok(n)
    }

    /// Every example fits the network: inputs as wide as the input layer and
    /// one-hot targets as wide as the output layer.
    pub open spec fn examples_fit(&self, data: Seq<(Vec<u64>, Vec<u64>)>) -> bool {
        forall|k: int|
            0 <= k < data.len() ==> (#[trigger] data[k]).0@.len() == self.width_of(0) && data[
                k].1@.len() == self.width_of(self.layers@.len() as int)
    }

    /// Whether every `(input, target)` example has the widths the network's
    /// first and last layers ask for.
    pub fn fits_examples(&self, data: &Vec<(Vec<u64>, Vec<u64>)>) -> (r: bool)
        requires
            self.wf(),
        ensures
            r == self.examples_fit(data@),
    {
        let input_width = self.input_width;
        let output_width = self.layers[self.layers.len() - 1].nodes.len();
        let mut k: usize = 0;
        while k < data.len()
            invariant
                k <= data@.len(),
                self.wf(),
                input_width as int == self.width_of(0),
                output_width as int == self.width_of(self.layers@.len() as int),
                forall|j: int|
                    0 <= j < k ==> (#[trigger] data@[j]).0@.len() == self.width_of(0) && data@[
                        j].1@.len() == self.width_of(self.layers@.len() as int),
            decreases data@.len() - k,
        {
            let example = &data[k];
            if example.0.len() != input_width || example.1.len() != output_width {
                return false;
            }
            k = k + 1;
        }
        true
    }

    /// Accumulators and transient per-pass state are zero in every unit, as
    /// after construction, a load, or a parameter update.
    pub open spec fn all_transients_zeroed(&self) -> bool {
        forall|l: int, u: int|
            0 <= l < self.layers@.len() && 0 <= u < self.layers@[l].nodes@.len() ==> (
            #[trigger] self.layers@[l].nodes@[u]).transients_zeroed()
    }

    /// The layer widths, input width first.
    pub fn widths(&self) -> (r: Vec<usize>)
        ensures
            r@.map_values(|w: usize| w as int) == self.widths_spec(),
    {
        let mut r: Vec<usize> = Vec::new();
        r.push(self.input_width);
        let mut l: usize = 0;
        while l < self.layers.len()
            invariant
                l <= self.layers@.len(),
                r@.len() == l + 1,
                forall|k: int| 0 <= k <= l ==> #[trigger] r@[k] as int == self.width_of(k),
            decreases self.layers@.len() - l,
        {
            r.push(self.layers[l].nodes.len());
            l = l + 1;
        }
        proof {
            assert(r@.map_values(|w: usize| w as int) =~= self.widths_spec());
        }
        r
    }
}

/// The parts table describes the same widths, tags, weights and biases that
/// the network holds.
pub open spec fn parts_match(p: &NetworkParts, n: &Network) -> bool {
    &&& p.widths@.map_values(|w: usize| w as int) == n.widths_spec()
    &&& p.activation_fns@.len() == n.layers@.len()
    &&& forall|l: int|
        0 <= l < n.layers@.len() ==> #[trigger] p.activation_fns@[l] == n.layers@[l].activation_fn
    &&& p.weights@.len() == n.layers@.len()
    &&& p.biases@.len() == n.layers@.len()
    &&& forall|l: int|
        0 <= l < n.layers@.len() ==> (#[trigger] p.weights@[l])@.len() == n.layers@[l].nodes@.len()
    &&& forall|l: int|
        0 <= l < n.layers@.len() ==> (#[trigger] p.biases@[l])@.len() == n.layers@[l].nodes@.len()
    &&& forall|l: int, u: int|
        0 <= l < n.layers@.len() && 0 <= u < n.layers@[l].nodes@.len() ==> (
        #[trigger] p.weights@[l]@[u])@ == n.layers@[l].nodes@[u].weights@
    &&& forall|l: int, u: int|
        0 <= l < n.layers@.len() && 0 <= u < n.layers@[l].nodes@.len()
            ==> #[trigger] p.biases@[l]@[u] == n.layers@[l].nodes@[u].bias
}

/// The parts table is shape-consistent: a valid architecture, one weight row
/// and one bias row per computation layer, of the declared widths, and each
/// weight vector as long as the layer before it is wide.
pub open spec fn parts_wf(p: &NetworkParts) -> bool {
    &&& valid_architecture(p.widths@, p.activation_fns@)
    &&& p.weights@.len() == p.widths@.len() - 1
    &&& p.biases@.len() == p.widths@.len() - 1
    &&& forall|l: int|
        0 <= l < p.weights@.len() ==> (#[trigger] p.weights@[l])@.len() == p.widths@[l + 1] as int
    &&& forall|l: int|
        0 <= l < p.biases@.len() ==> (#[trigger] p.biases@[l])@.len() == p.widths@[l + 1] as int
    &&& forall|l: int, u: int|
        0 <= l < p.weights@.len() && 0 <= u < p.weights@[l]@.len() ==> (
        #[trigger] p.weights@[l]@[u])@.len() == p.widths@[l] as int
}

/// The two networks carry the same widths, activation tags, weights and
/// biases, so a run of one is a run of the other.
pub open spec fn same_parameters(a: &Network, b: &Network) -> bool {
    &&& a.widths_spec() == b.widths_spec()
    &&& a.layers@.len() == b.layers@.len()
    &&& forall|l: int|
        0 <= l < a.layers@.len() ==> (#[trigger] a.layers@[l]).activation_fn
            == b.layers@[l].activation_fn
    &&& forall|l: int, u: int|
        0 <= l < a.layers@.len() && 0 <= u < a.layers@[l].nodes@.len() ==> (
        #[trigger] a.layers@[l].nodes@[u]).weights@ == b.layers@[l].nodes@[u].weights@
    &&& forall|l: int, u: int|
        0 <= l < a.layers@.len() && 0 <= u < a.layers@[l].nodes@.len() ==> (
        #[trigger] a.layers@[l].nodes@[u]).bias == b.layers@[l].nodes@[u].bias
}

/// Persistence round trip: the parts read off a well-formed network are
/// themselves well-formed (so rebuilding cannot be refused), and any network
/// that matches the same parts carries the same parameters as the original.
pub proof fn lemma_parts_round_trip(p: &NetworkParts, n: &Network, m: &Network)
    requires
        n.wf(),
        parts_match(p, n),
        parts_match(p, m),
    ensures
        parts_wf(p),
        same_parameters(n, m),
{
    let dims = p.widths@.map_values(|w: usize| w as int);
    assert(p.widths@.len() == n.layers@.len() + 1) by {
        assert(dims.len() == n.widths_spec().len());
    }
    assert forall|i: int| 0 <= i < p.widths@.len() implies #[trigger] p.widths@[i] > 0 by {
        assert(dims[i] == n.widths_spec()[i]);
        assert(p.widths@[i] as int == n.width_of(i));
        if i > 0 {
            assert(n.layers@[i - 1].wf(n.fan_in_of(i - 1)));
        }
    }
    assert forall|l: int| 0 <= l < p.weights@.len() implies (#[trigger] p.weights@[l])@.len()
        == p.widths@[l + 1] as int by {
        assert(dims[l + 1] == n.widths_spec()[l + 1]);
        assert(p.widths@[l + 1] as int == n.width_of(l + 1));
    }
    assert forall|l: int| 0 <= l < p.biases@.len() implies (#[trigger] p.biases@[l])@.len()
        == p.widths@[l + 1] as int by {
        assert(dims[l + 1] == n.widths_spec()[l + 1]);
        assert(p.widths@[l + 1] as int == n.width_of(l + 1));
    }
    assert forall|l: int, u: int|
        0 <= l < p.weights@.len() && 0 <= u < p.weights@[l]@.len() implies (
    #[trigger] p.weights@[l]@[u])@.len() == p.widths@[l] as int by {
        assert(dims[l] == n.widths_spec()[l]);
        assert(p.widths@[l] as int == n.width_of(l));
        assert(p.weights@[l]@.len() == n.layers@[l].nodes@.len());
        assert(p.weights@[l]@[u]@ == n.layers@[l].nodes@[u].weights@);
        assert(n.layers@[l].wf(n.fan_in_of(l)));
        assert(n.layers@[l].nodes@[u].wf(n.fan_in_of(l)));
    }
    assert(n.widths_spec() =~= m.widths_spec());
    assert(n.layers@.len() == m.layers@.len());
    assert forall|l: int| 0 <= l < n.layers@.len() implies (
    #[trigger] n.layers@[l]).activation_fn == m.layers@[l].activation_fn by {
        assert(p.activation_fns@[l] == n.layers@[l].activation_fn);
        assert(p.activation_fns@[l] == m.layers@[l].activation_fn);
    }
    assert forall|l: int, u: int|
        0 <= l < n.layers@.len() && 0 <= u < n.layers@[l].nodes@.len() implies (
    #[trigger] n.layers@[l].nodes@[u]).weights@ == m.layers@[l].nodes@[u].weights@ by {
        assert(n.layers@[l].nodes@.len() == p.weights@[l]@.len());
        assert(m.layers@[l].nodes@.len() == p.weights@[l]@.len());
        assert(p.weights@[l]@[u]@ == n.layers@[l].nodes@[u].weights@);
        assert(p.weights@[l]@[u]@ == m.layers@[l].nodes@[u].weights@);
    }
    assert forall|l: int, u: int|
        0 <= l < n.layers@.len() && 0 <= u < n.layers@[l].nodes@.len() implies (
    #[trigger] n.layers@[l].nodes@[u]).bias == m.layers@[l].nodes@[u].bias by {
        assert(m.layers@[l].nodes@.len() == p.biases@[l]@.len());
        assert(p.biases@[l]@[u] == n.layers@[l].nodes@[u].bias);
        assert(p.biases@[l]@[u] == m.layers@[l].nodes@[u].bias);
    }
}

fn copy_words(src: &Vec<u64>) -> (r: Vec<u64>)
    ensures
        r@ == src@,
{
    let mut r: Vec<u64> = Vec::new();
    let mut i: usize = 0;
    while i < src.len()
        invariant
            i <= src@.len(),
            r@ == src@.subrange(0, i as int),
        decreases src@.len() - i,
    {
        r.push(src[i]);
        proof {
            assert(r@ =~= src@.subrange(0, i + 1));
        }
        i = i + 1;
    }
    proof {
        assert(r@ =~= src@);
    }
    r
}

impl Network {
    /// Reads off everything needed to rebuild an equivalent network: widths,
    /// activation tags, and every unit's weights and bias.
    pub fn to_parts(&self) -> (p: NetworkParts)
        ensures
            parts_match(&p, self),
    {
        let widths = self.widths();
        let mut activation_fns: Vec<ActivationFn> = Vec::new();
        let mut weights: Vec<Vec<Vec<u64>>> = Vec::new();
        let mut biases: Vec<Vec<u64>> = Vec::new();
        let mut l: usize = 0;
        while l < self.layers.len()
            invariant
                l <= self.layers@.len(),
                activation_fns@.len() == l,
                weights@.len() == l,
                biases@.len() == l,
                forall|k: int|
                    0 <= k < l ==> #[trigger] activation_fns@[k] == self.layers@[k].activation_fn,
                forall|k: int|
                    0 <= k < l ==> (#[trigger] weights@[k])@.len() == self.layers@[k].nodes@.len(),
                forall|k: int|
                    0 <= k < l ==> (#[trigger] biases@[k])@.len() == self.layers@[k].nodes@.len(),
                forall|k: int, u: int|
                    0 <= k < l && 0 <= u < self.layers@[k].nodes@.len() ==> (
                    #[trigger] weights@[k]@[u])@ == self.layers@[k].nodes@[u].weights@,
                forall|k: int, u: int|
                    0 <= k < l && 0 <= u < self.layers@[k].nodes@.len()
                        ==> #[trigger] biases@[k]@[u] == self.layers@[k].nodes@[u].bias,
            decreases self.layers@.len() - l,
        {
            let layer = &self.layers[l];
            activation_fns.push(layer.activation_fn);
            let mut layer_weights: Vec<Vec<u64>> = Vec::new();
            let mut layer_biases: Vec<u64> = Vec::new();
            let mut u: usize = 0;
            while u < layer.nodes.len()
                invariant
                    u <= layer.nodes@.len(),
                    layer_weights@.len() == u,
                    layer_biases@.len() == u,
                    forall|k: int|
                        0 <= k < u ==> (#[trigger] layer_weights@[k])@
                            == layer.nodes@[k].weights@,
                    forall|k: int|
                        0 <= k < u ==> #[trigger] layer_biases@[k] == layer.nodes@[k].bias,
                decreases layer.nodes@.len() - u,
            {
                layer_weights.push(copy_words(&layer.nodes[u].weights));
                layer_biases.push(layer.nodes[u].bias);
                u = u + 1;
            }
            weights.push(layer_weights);
            biases.push(layer_biases);
            l = l + 1;
        }
        NetworkParts { widths, activation_fns, weights, biases }
    }

    /// Rebuilds a network from persisted parts, refusing shapes that do not
    /// fit together rather than building a partially initialized network.
    /// Accumulators and transient state of the result are zero.
    pub fn from_parts(p: &NetworkParts) -> (r: Result<Network, DeserializationError>)
        ensures
            r is Ok <==> parts_wf(p),
            !valid_architecture(p.widths@, p.activation_fns@) ==> r == Err::<
                Network,
                DeserializationError,
            >(DeserializationError::BadArchitecture),
            valid_architecture(p.widths@, p.activation_fns@) && !parts_wf(p) ==> r == Err::<
                Network,
                DeserializationError,
            >(DeserializationError::ShapeMismatch),
            r is Ok ==> {
                &&& r->Ok_0.wf()
                &&& parts_match(p, &r->Ok_0)
                &&& r->Ok_0.all_transients_zeroed()
            },
    {
        if p.widths.len() < 2 {
            return Err(DeserializationError::BadArchitecture);
        }
        if p.activation_fns.len() != p.widths.len() - 1 {
            return Err(DeserializationError::BadArchitecture);
        }
        let mut i: usize = 0;
        while i < p.widths.len()
            invariant
                i <= p.widths@.len(),
                p.widths@.len() >= 2,
                p.activation_fns@.len() == p.widths@.len() - 1,
                forall|j: int| 0 <= j < i ==> #[trigger] p.widths@[j] > 0,
            decreases p.widths@.len() - i,
        {
            if p.widths[i] == 0 {
                return Err(DeserializationError::BadArchitecture);
            }
            i = i + 1;
        }
        if p.weights.len() != p.widths.len() - 1 || p.biases.len() != p.widths.len() - 1 {
            return Err(DeserializationError::ShapeMismatch);
        }
        let mut l: usize = 0;
        while l < p.weights.len()
            invariant
                l <= p.weights@.len(),
                valid_architecture(p.widths@, p.activation_fns@),
                p.weights@.len() == p.widths@.len() - 1,
                p.biases@.len() == p.widths@.len() - 1,
                forall|k: int|
                    0 <= k < l ==> (#[trigger] p.weights@[k])@.len() == p.widths@[k + 1] as int,
                forall|k: int|
                    0 <= k < l ==> (#[trigger] p.biases@[k])@.len() == p.widths@[k + 1] as int,
                forall|k: int, u: int|
                    0 <= k < l && 0 <= u < p.weights@[k]@.len() ==> (
                    #[trigger] p.weights@[k]@[u])@.len() == p.widths@[k] as int,
            decreases p.weights@.len() - l,
        {
            if p.weights[l].len() != p.widths[l + 1] || p.biases[l].len() != p.widths[l + 1] {
                return Err(DeserializationError::ShapeMismatch);
            }
            let row = &p.weights[l];
            let mut u: usize = 0;
            while u < row.len()
                invariant
                    u <= row@.len(),
                    row == p.weights@[l as int],
                    l < p.weights@.len(),
                    valid_architecture(p.widths@, p.activation_fns@),
                    p.weights@.len() == p.widths@.len() - 1,
                    p.biases@.len() == p.widths@.len() - 1,
                    forall|k: int| 0 <= k < u ==> (#[trigger] row@[k])@.len() == p.widths@[
                        l as int] as int,
                decreases row@.len() - u,
            {
                if row[u].len() != p.widths[l] {
                    return Err(DeserializationError::ShapeMismatch);
                }
                u = u + 1;
            }
            l = l + 1;
        }
        let mut layers: Vec<HiddenLayer> = Vec::new();
        let mut l: usize = 0;
        while l < p.weights.len()
            invariant
                l <= p.weights@.len(),
                parts_wf(p),
                layers@.len() == l,
                forall|k: int|
                    0 <= k < l ==> (#[trigger] layers@[k]).nodes@.len() == p.widths@[k + 1] as int,
                forall|k: int|
                    0 <= k < l ==> (#[trigger] layers@[k]).activation_fn == p.activation_fns@[k],
                forall|k: int| 0 <= k < l ==> (#[trigger] layers@[k]).wf(p.widths@[k] as int),
                forall|k: int, u: int|
                    0 <= k < l && 0 <= u < layers@[k].nodes@.len() ==> (
                    #[trigger] layers@[k].nodes@[u]).weights@ == p.weights@[k]@[u]@,
                forall|k: int, u: int|
                    0 <= k < l && 0 <= u < layers@[k].nodes@.len() ==> (
                    #[trigger] layers@[k].nodes@[u]).bias == p.biases@[k]@[u],
                forall|k: int, u: int|
                    0 <= k < l && 0 <= u < layers@[k].nodes@.len() ==> (
                    #[trigger] layers@[k].nodes@[u]).transients_zeroed(),
            decreases p.weights@.len() - l,
        {
            let row = &p.weights[l];
            let brow = &p.biases[l];
            let fan_in = p.widths[l];
            let mut nodes: Vec<Node> = Vec::new();
            let mut u: usize = 0;
            while u < row.len()
                invariant
                    u <= row@.len(),
                    parts_wf(p),
                    l < p.weights@.len(),
                    row == p.weights@[l as int],
                    brow == p.biases@[l as int],
                    fan_in == p.widths@[l as int],
                    nodes@.len() == u,
                    forall|k: int|
                        0 <= k < u ==> (#[trigger] nodes@[k]).weights@ == row@[k]@,
                    forall|k: int| 0 <= k < u ==> (#[trigger] nodes@[k]).bias == brow@[k],
                    forall|k: int| 0 <= k < u ==> (#[trigger] nodes@[k]).wf(fan_in as int),
                    forall|k: int| 0 <= k < u ==> (#[trigger] nodes@[k]).transients_zeroed(),
                decreases row@.len() - u,
            {
                let node = Node {
                    weights: copy_words(&row[u]),
                    bias: brow[u],
                    d_weights: zero_words(fan_in),
                    d_bias: 0,
                    activation: 0,
                    as_respect_z: Vec::new(),
                };
                nodes.push(node);
                u = u + 1;
            }
            layers.push(HiddenLayer { nodes, activation_fn: p.activation_fns[l] });
            l = l + 1;
        }
        let n = Network { input_width: p.widths[0], layers };
        proof {
            assert forall|k: int| 0 <= k < n.layers@.len() implies (#[trigger] n.layers@[k]).wf(
                n.fan_in_of(k),
            ) by {
                assert(n.fan_in_of(k) == p.widths@[k] as int);
            }
            assert(n.widths_spec() =~= p.widths@.map_values(|w: usize| w as int));
        }
        Ok(n)
    }
}

} // verus!
