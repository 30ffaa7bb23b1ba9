//! The structural core of a feedforward neural network trained by mini-batch
//! gradient descent: architecture construction and validation, the parameter
//! state of every unit and its persistence parts, dataset pairing and
//! batching, the epoch/shuffle/report training schedule, and classification
//! scoring.  Scalar values are carried throughout as opaque 64-bit words, so
//! that everything structural is checked here while the scalar arithmetic
//! itself belongs to the driving application.

pub mod data;
pub mod evaluate;
pub mod functions;
pub mod network;
pub mod trainer;
