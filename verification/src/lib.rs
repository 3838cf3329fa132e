//! Userspace control logic of a family of sched_ext CPU schedulers.

pub mod astro;
pub mod autoland;
pub mod cpumask;
pub mod descent;
pub mod happy;
pub mod ratio;
pub mod table;
pub mod text;
pub mod timer;
pub mod topology;
pub mod wire;
