//! A heads-up no-limit hold'em decision trainer: hand evaluation, Monte Carlo
//! equity, an opponent model and the per-hand betting state machine.
//!
//! Amounts are whole thousandths of a big blind (mbb); equities and
//! probabilities are basis points, 10000 being certainty.
pub mod betting;
pub mod cards;
pub mod chance;
pub mod equity;
pub mod evaluator;
pub mod game;
pub mod rival;
pub mod session;
pub mod text;
pub mod trainer;

pub use rival::RivalStyle;
pub use trainer::{ActionChoice, Trainer, TrainerConfig};
