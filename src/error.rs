use vstd::prelude::*;

use crate::dtype::DType;

verus! {

/// Why a container could not be decoded or a model could not be bound.
/// Each variant that concerns one tensor carries that tensor's name.
#[derive(Debug, PartialEq, Eq)]
pub enum LoadError {
    /// The header text is not a mapping of tensor descriptors; carries the
    /// entry at fault when one is known.
    MalformedHeader(Option<String>),
    UnknownDType(String),
    ShapeRankExceeded(String),
    InvalidShapeValue(String),
    InvalidOffsets(String),
    SizeMismatch(String),
    MissingTensor(String),
    /// Tensor name, the dtype the configuration asks for, the dtype found.
    DTypeMismatch(String, DType, DType),
    /// Tensor name, the shape the configuration implies, the shape found.
    ShapeMismatch(String, Vec<usize>, Vec<usize>),
    InvalidConfig,
}

/// Mathematical form of a [`LoadError`].
pub ghost enum Fault {
    MalformedHeader(Option<Seq<char>>),
    UnknownDType(Seq<char>),
    ShapeRankExceeded(Seq<char>),
    InvalidShapeValue(Seq<char>),
    InvalidOffsets(Seq<char>),
    SizeMismatch(Seq<char>),
    MissingTensor(Seq<char>),
    DTypeMismatch(Seq<char>, DType, DType),
    ShapeMismatch(Seq<char>, Seq<usize>, Seq<usize>),
    InvalidConfig,
}

impl View for LoadError {
    type V = Fault;

    open spec fn view(&self) -> Fault {
        match self {
            LoadError::MalformedHeader(n) => Fault::MalformedHeader(
                match n {
                    Some(s) => Some(s@),
                    None => None,
                },
            ),
            LoadError::UnknownDType(n) => Fault::UnknownDType(n@),
            LoadError::ShapeRankExceeded(n) => Fault::ShapeRankExceeded(n@),
            LoadError::InvalidShapeValue(n) => Fault::InvalidShapeValue(n@),
            LoadError::InvalidOffsets(n) => Fault::InvalidOffsets(n@),
            LoadError::SizeMismatch(n) => Fault::SizeMismatch(n@),
            LoadError::MissingTensor(n) => Fault::MissingTensor(n@),
            LoadError::DTypeMismatch(n, e, a) => Fault::DTypeMismatch(n@, *e, *a),
            LoadError::ShapeMismatch(n, e, a) => Fault::ShapeMismatch(n@, e@, a@),
            LoadError::InvalidConfig => Fault::InvalidConfig,
        }
    }
}

} // verus!
