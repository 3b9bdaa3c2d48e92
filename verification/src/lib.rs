//! An adaptive linear neuron (Adaline): a single-layer linear binary
//! classifier trained online with the Widrow-Hoff delta rule.
//!
//! All numbers are decimal fixed-point values ([`fixed::Fixed`]) whose
//! arithmetic rounds to the nearest unit and saturates at the bounds of the
//! type, so every operation of the model is total and exactly specified.

pub mod adaline;
pub mod error;
pub mod fixed;
pub mod model;
pub mod random;
pub mod record;
pub mod training;

pub use crate::adaline::Adaline;
pub use crate::error::AdalineError;
pub use crate::fixed::{Fixed, SCALE};
pub use crate::record::{labelled_points, Classification};
pub use crate::training::{
    first_misclassified, train_epoch, train_on_all_records, train_on_all_records_until,
    train_on_one_record, train_repeatedly, train_with_policy, StoppingPolicy, TrainingReport,
    TrainingStatus, DEFAULT_MAX_EPOCHS,
};
