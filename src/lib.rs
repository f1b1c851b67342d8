//! Decoding of a self-describing model weight container and binding of its
//! tensors into a validated transformer model description.
//!
//! A container is a JSON header that maps tensor names to descriptors (dtype,
//! shape, byte range), and a data segment those ranges point into. Decoding
//! validates every descriptor against the data segment without copying it;
//! binding checks the decoded tensors against a model configuration.

pub mod container;
pub mod dtype;
pub mod error;
mod json;
pub mod model;
pub mod names;
pub mod tensor;

pub use container::Container;
pub use dtype::{dtype_from_name, dtype_size, dtype_to_string, DType};
pub use error::LoadError;
pub use model::{ActivationType, Block, Config, InferenceState, LayerNormType, Model};
pub use names::layer_tensor_name;
pub use tensor::{Descriptor, Tensor, MAX_RANK};
