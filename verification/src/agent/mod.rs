//! The agent loop: budgets, the history sent to the model, the decisions
//! of each turn and the records a run leaves.
pub mod budget;
pub mod events;
pub mod guard;
pub mod history;
pub mod resolve;
pub mod run;
pub mod stream;
