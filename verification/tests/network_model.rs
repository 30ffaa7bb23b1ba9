use neural_net::functions::ActivationFn;
use neural_net::network::{ConfigError, DeserializationError, Network, NetworkParts};

fn b(x: f64) -> u64 {
    x.to_bits()
}

#[test]
fn new_builds_declared_shapes() {
    let dims = vec![2usize, 3, 2];
    let fns = vec![ActivationFn::Sigmoid, ActivationFn::SoftMax];
    let n = Network::new(&dims, &fns).unwrap();
    assert_eq!(n.input_width, 2);
    assert_eq!(n.layers.len(), 2);
    assert_eq!(n.layers[0].nodes.len(), 3);
    assert_eq!(n.layers[1].nodes.len(), 2);
    assert_eq!(n.layers[0].activation_fn, ActivationFn::Sigmoid);
    assert_eq!(n.layers[1].activation_fn, ActivationFn::SoftMax);
    assert_eq!(n.widths(), vec![2usize, 3, 2]);
    for node in &n.layers[0].nodes {
        assert_eq!(node.weights, vec![0u64, 0]);
        assert_eq!(node.d_weights, vec![0u64, 0]);
        assert_eq!(node.bias, 0);
        assert_eq!(node.d_bias, 0);
        assert_eq!(node.activation, 0);
        assert!(node.as_respect_z.is_empty());
    }
    for node in &n.layers[1].nodes {
        assert_eq!(node.weights.len(), 3);
    }
}

#[test]
fn new_rejects_short_architecture() {
    let r = Network::new(&vec![5usize], &vec![]);
    assert!(matches!(r, Err(ConfigError::EmptyArchitecture)));
    let r = Network::new(&vec![], &vec![]);
    assert!(matches!(r, Err(ConfigError::EmptyArchitecture)));
}

#[test]
fn new_rejects_tag_count_mismatch() {
    let r = Network::new(&vec![2usize, 2], &vec![ActivationFn::Sigmoid, ActivationFn::Sigmoid]);
    assert!(matches!(r, Err(ConfigError::TagCountMismatch)));
    let r = Network::new(&vec![2usize, 2, 2], &vec![ActivationFn::Sigmoid]);
    assert!(matches!(r, Err(ConfigError::TagCountMismatch)));
}

#[test]
fn new_rejects_zero_width() {
    let r = Network::new(&vec![2usize, 0, 2], &vec![ActivationFn::Sigmoid, ActivationFn::Sigmoid]);
    assert!(matches!(r, Err(ConfigError::ZeroWidth)));
}

fn small_parts() -> NetworkParts {
    NetworkParts {
        widths: vec![1, 1],
        activation_fns: vec![ActivationFn::Sigmoid],
        weights: vec![vec![vec![b(0.25)]]],
        biases: vec![vec![b(-1.5)]],
    }
}

#[test]
fn from_parts_rebuilds_parameters() {
    let n = Network::from_parts(&small_parts()).unwrap();
    assert_eq!(n.input_width, 1);
    assert_eq!(n.layers.len(), 1);
    assert_eq!(n.layers[0].nodes[0].weights, vec![b(0.25)]);
    assert_eq!(n.layers[0].nodes[0].bias, b(-1.5));
    assert_eq!(n.layers[0].nodes[0].d_weights, vec![0u64]);
    assert_eq!(n.layers[0].nodes[0].d_bias, 0);
}

#[test]
fn parts_round_trip_is_identical() {
    let parts = NetworkParts {
        widths: vec![2, 3, 2],
        activation_fns: vec![ActivationFn::LeakyRelu(b(0.01)), ActivationFn::SoftMax],
        weights: vec![
            vec![
                vec![b(0.5), b(-0.5)],
                vec![b(1.0), b(2.0)],
                vec![b(-3.25), b(0.125)],
            ],
            vec![vec![b(1.5), b(2.5), b(-0.75)], vec![b(0.0), b(4.0), b(8.0)]],
        ],
        biases: vec![vec![b(0.1), b(-0.2), b(0.3)], vec![b(7.0), b(-7.0)]],
    };
    let n = Network::from_parts(&parts).unwrap();
    let back = n.to_parts();
    assert_eq!(back.widths, parts.widths);
    assert_eq!(back.activation_fns, parts.activation_fns);
    assert_eq!(back.weights, parts.weights);
    assert_eq!(back.biases, parts.biases);
    // Rebuilding once more reproduces the exact same parameter state.
    let m = Network::from_parts(&back).unwrap();
    assert_eq!(m.input_width, n.input_width);
    for (a, bl) in m.layers.iter().zip(n.layers.iter()) {
        assert_eq!(a.activation_fn, bl.activation_fn);
        for (x, y) in a.nodes.iter().zip(bl.nodes.iter()) {
            assert_eq!(x.weights, y.weights);
            assert_eq!(x.bias, y.bias);
        }
    }
}

#[test]
fn fits_examples_checks_both_widths() {
    let n = Network::new(&vec![2usize, 3, 2], &vec![ActivationFn::Sigmoid, ActivationFn::Sigmoid])
        .unwrap();
    let good = vec![
        (vec![b(0.0), b(1.0)], vec![b(1.0), b(0.0)]),
        (vec![b(0.5), b(0.5)], vec![b(0.0), b(1.0)]),
    ];
    assert!(n.fits_examples(&good));
    assert!(n.fits_examples(&Vec::new()));
    let short_input = vec![(vec![b(0.0)], vec![b(1.0), b(0.0)])];
    assert!(!n.fits_examples(&short_input));
    let wide_target = vec![(vec![b(0.0), b(1.0)], vec![b(1.0), b(0.0), b(0.0)])];
    assert!(!n.fits_examples(&wide_target));
}

#[test]
fn from_parts_rejects_bad_architecture() {
    let mut p = small_parts();
    p.widths = vec![1];
    assert!(matches!(
        Network::from_parts(&p),
        Err(DeserializationError::BadArchitecture)
    ));
    let mut p = small_parts();
    p.activation_fns = vec![];
    assert!(matches!(
        Network::from_parts(&p),
        Err(DeserializationError::BadArchitecture)
    ));
    let mut p = small_parts();
    p.widths = vec![1, 0];
    assert!(matches!(
        Network::from_parts(&p),
        Err(DeserializationError::BadArchitecture)
    ));
}

#[test]
fn from_parts_rejects_mismatched_shapes() {
    // A weight row for a layer that the widths do not declare.
    let mut p = small_parts();
    p.weights = vec![vec![vec![b(0.25)]], vec![vec![b(1.0)]]];
    assert!(matches!(
        Network::from_parts(&p),
        Err(DeserializationError::ShapeMismatch)
    ));
    // A layer with the wrong number of units.
    let mut p = small_parts();
    p.weights = vec![vec![vec![b(0.25)], vec![b(0.5)]]];
    assert!(matches!(
        Network::from_parts(&p),
        Err(DeserializationError::ShapeMismatch)
    ));
    // A unit with the wrong fan-in.
    let mut p = small_parts();
    p.weights = vec![vec![vec![b(0.25), b(0.5)]]];
    assert!(matches!(
        Network::from_parts(&p),
        Err(DeserializationError::ShapeMismatch)
    ));
    // A bias row of the wrong width.
    let mut p = small_parts();
    p.biases = vec![vec![b(0.5), b(0.5)]];
    assert!(matches!(
        Network::from_parts(&p),
        Err(DeserializationError::ShapeMismatch)
    ));
}
