//! A dense feedforward neural network trained by backpropagation, built on a
//! small linear-algebra layer that is generic over its number type.

pub mod activation;
pub mod algebra;
pub mod data;
pub mod laws;
pub mod layers;
pub mod model;
pub mod network;
pub mod scalar;
pub mod text;
pub mod unsafe_vec;

pub use crate::data::DataSet;
pub use crate::network::Network;
