//! The `descent` scheduler: a PIE controller per CPU and task class, profiles
//! with parameter bounds, and share-based autorate control.

pub mod autorate;
pub mod autorate_control;
pub mod autorate_report;
pub mod autorate_round;
pub mod autorate_state;
pub mod bound_debug;
pub mod bound_report;
pub mod classifier;
pub mod debug;
pub mod domain;
pub mod help;
pub mod optimizer;
pub mod optimizer_pie;
pub mod optimizer_thompson;
pub mod procs;
pub mod profiles;
pub mod report;
pub mod rounds;
pub mod safety;
pub mod setup;
pub mod shares;
pub mod stats;
