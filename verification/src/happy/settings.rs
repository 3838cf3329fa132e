//! Settings of the kernel side that are derived from the command line.

use vstd::prelude::*;

verus! {

/// Times of the command line in microseconds.
#[derive(Clone, Copy, Debug, PartialEq, Eq, Structural)]
pub struct Times {
    pub lc_slice_us: u64,
    pub normal_slice_us: u64,
    pub hog_slice_us: u64,
    pub adjust_interval_us: u64,
    pub hog_decay_interval_us: u64,
    pub hog_min_sleep_duration_us: u64,
}

/// The same times in nanoseconds.
#[derive(Clone, Copy, Debug, PartialEq, Eq, Structural)]
pub struct KernelTimes {
    pub lc_slice_ns: u64,
    pub normal_slice_ns: u64,
    pub hog_slice_ns: u64,
    pub adjust_interval_ns: u64,
    pub hog_decay_interval_ns: u64,
    pub hog_min_sleep_duration_ns: u64,
}

impl Times {
    /// All times in nanoseconds; nothing if one of them does not fit.
    pub fn to_kernel(&self) -> (r: Option<KernelTimes>)
        ensures
            r == if self.lc_slice_us * 1000 <= u64::MAX && self.normal_slice_us * 1000 <= u64::MAX
                && self.hog_slice_us * 1000 <= u64::MAX && self.adjust_interval_us * 1000 <= u64::MAX
                && self.hog_decay_interval_us * 1000 <= u64::MAX && self.hog_min_sleep_duration_us
                * 1000 <= u64::MAX {
                Some(
                    KernelTimes {
                        lc_slice_ns: (self.lc_slice_us * 1000) as u64,
                        normal_slice_ns: (self.normal_slice_us * 1000) as u64,
                        hog_slice_ns: (self.hog_slice_us * 1000) as u64,
                        adjust_interval_ns: (self.adjust_interval_us * 1000) as u64,
                        hog_decay_interval_ns: (self.hog_decay_interval_us * 1000) as u64,
                        hog_min_sleep_duration_ns: (self.hog_min_sleep_duration_us * 1000) as u64,
                    },
                )
            } else {
                None
            },
    {
        match (
            self.lc_slice_us.checked_mul(1000),
            self.normal_slice_us.checked_mul(1000),
            self.hog_slice_us.checked_mul(1000),
            self.adjust_interval_us.checked_mul(1000),
            self.hog_decay_interval_us.checked_mul(1000),
            self.hog_min_sleep_duration_us.checked_mul(1000),
        ) {
            (
                Some(lc_slice_ns),
                Some(normal_slice_ns),
                Some(hog_slice_ns),
                Some(adjust_interval_ns),
                Some(hog_decay_interval_ns),
                Some(hog_min_sleep_duration_ns),
            ) => Some(
                KernelTimes {
                    lc_slice_ns,
                    normal_slice_ns,
                    hog_slice_ns,
                    adjust_interval_ns,
                    hog_decay_interval_ns,
                    hog_min_sleep_duration_ns,
                },
            ),
            _ => None,
        }
    }
}

} // verus!
