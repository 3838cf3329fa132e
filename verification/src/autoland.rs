//! The `autoland` scheduler: task classification, CPU lists, and the controllers
//! of the time slices of its three task classes.

pub mod controller;
pub mod cpu_list;
pub mod criticality;
pub mod histogram;
pub mod pid;
pub mod pid_tail_latency_controller;
pub mod scan;
pub mod startup;
pub mod stats;
pub mod task_classifier;
pub mod utilization;
