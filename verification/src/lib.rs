//! Tallies of classification outcomes, and the interface of a classifier
//! that can be evaluated against labelled examples.

pub mod classifier;
pub mod decimal;
pub mod histogram;
pub mod matrix;
pub mod order;
pub mod tally;

pub use classifier::{progress_percent, Classifier};
pub use matrix::{ConfusionMatrix, ErrorRate};
