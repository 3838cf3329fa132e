//! The `astro` scheduler: adaptive tuning of its slices, counters, and profile
//! overrides from the environment of tasks.

pub mod overrides;
pub mod stats;
pub mod tuner;
