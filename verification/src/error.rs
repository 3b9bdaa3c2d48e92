//! The conditions that the model and the training driver reject.

use vstd::prelude::*;

verus! {

/// Why an operation of the model could not be carried out.
#[derive(Clone, Copy, Debug, PartialEq, Eq, Structural)]
pub enum AdalineError {
    /// A model was asked for with no weights, or with no features.
    InvalidModel,
    /// A feature vector does not have as many entries as the model has
    /// feature weights.
    DimensionMismatch,
    /// An accuracy was asked for over no records.
    EmptyDataset,
}

} // verus!
