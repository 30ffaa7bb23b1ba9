use vstd::prelude::*;

verus! {

/// The activation function of one computation layer, as a closed tag.
///
/// Scalar values everywhere in this crate are carried as opaque 64-bit words
/// (the bit pattern of the driver's double-precision scalars); the crate
/// states and checks everything structural about the network, while scalar
/// arithmetic itself is the driver's.  The `LeakyRelu` payload is the leak
/// coefficient, carried as such a word.
#[derive(Clone, Copy, Debug, PartialEq, Eq, Structural)]
pub enum ActivationFn {
    Sigmoid,
    LeakyRelu(u64),
    SoftMax,
}

/// The cost function used to derive the gradient of the loss with respect to
/// one predicted output, as a closed tag.
#[derive(Clone, Copy, Debug, PartialEq, Eq, Structural)]
pub enum Cost {
    CrossEntropy,
    Quadratic,
}

} // verus!
