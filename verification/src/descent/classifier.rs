//! Task classification as far as it is mirrored outside the kernel.

use vstd::prelude::*;

verus! {

/// Mirrors the classification of the kernel side.
pub struct TaskClassifier {}

impl TaskClassifier {
    /// A classifier.
    pub fn new() -> (r: Self)
        ensures
            r == (TaskClassifier {  }),
    {
        TaskClassifier {  }
    }

    /// The class of a task: always 0, since tasks are classified in the kernel.
    pub fn classify_task(&self, _pid: u32, _policy: u32, _is_kthread: bool) -> (r: u32)
        ensures
            r == 0,
    {
        0
    }
}

} // verus!
