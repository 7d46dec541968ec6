//! Verified discrete core of a feedforward neural-network trainer: layer
//! topology and tensor shapes, mini-batch scheduling, data-set indexing and
//! classification scoring.

pub mod cost;
pub mod dataset;
pub mod error;
pub mod evaluate;
pub mod layer;
pub mod matrix;
pub mod network;
pub mod shape;
pub mod trainer;

pub use cost::{Cost, MSE};
pub use dataset::Dataset;
pub use error::Error;
pub use evaluate::Evaluator;
pub use layer::{InputLayer, Layer, SigmoidLayer};
pub use network::{GradientShape, Network, TraceShape};
pub use trainer::{one_hot, BatchTrainer, EpochPlan, Example};
