//! The `happy` scheduler: classification of tasks, CPU domains of its queues,
//! settings and statistics.

pub mod classifier;
pub mod domain;
pub mod settings;
pub mod stats;
