//! Counters of the scheduler and their report.

use vstd::prelude::*;
use vstd::string::StringExecFns;

use crate::happy::classifier::TaskClassifier;
use crate::text::{decimal, push_decimal};

verus! {

/// Counters of the scheduler.
#[derive(Clone, Copy, Debug, PartialEq, Eq, Structural)]
pub struct HappyMetrics {
    pub nr_lc_dispatches: u64,
    pub nr_normal_dispatches: u64,
    pub nr_hog_dispatches: u64,
    pub nr_preemptions: u64,
    pub nr_migrations: u64,
    pub nr_antistall_dispatches: u64,
    pub nr_smt_avoided: u64,
    pub nr_classified_tasks: u64,
    pub nr_dynamic_adjustments: u64,
    pub nr_interactive_detected: u64,
    pub nr_promotions: u64,
    pub nr_demotions: u64,
    pub nr_eligible_dispatches: u64,
    pub nr_ineligible_dispatches: u64,
    pub nr_deadline_expired: u64,
    pub lc_min_vtime: u64,
    pub lc_avg_vtime: u64,
    pub normal_min_vtime: u64,
    pub normal_avg_vtime: u64,
    pub hog_min_vtime: u64,
    pub hog_avg_vtime: u64,
    pub vtime_now: u64,
    pub scx_turbo_count: u32,
    pub steam_count: u32,
    pub de_count: u32,
    pub input_count: u32,
    pub audio_count: u32,
}

/// All counters at 0.
pub open spec fn no_metrics() -> HappyMetrics {
    HappyMetrics {
        nr_lc_dispatches: 0,
        nr_normal_dispatches: 0,
        nr_hog_dispatches: 0,
        nr_preemptions: 0,
        nr_migrations: 0,
        nr_antistall_dispatches: 0,
        nr_smt_avoided: 0,
        nr_classified_tasks: 0,
        nr_dynamic_adjustments: 0,
        nr_interactive_detected: 0,
        nr_promotions: 0,
        nr_demotions: 0,
        nr_eligible_dispatches: 0,
        nr_ineligible_dispatches: 0,
        nr_deadline_expired: 0,
        lc_min_vtime: 0,
        lc_avg_vtime: 0,
        normal_min_vtime: 0,
        normal_avg_vtime: 0,
        hog_min_vtime: 0,
        hog_avg_vtime: 0,
        vtime_now: 0,
        scx_turbo_count: 0,
        steam_count: 0,
        de_count: 0,
        input_count: 0,
        audio_count: 0,
    }
}

impl Default for HappyMetrics {
    fn default() -> (r: Self)
        ensures
            r == no_metrics(),
    {
        HappyMetrics {
            nr_lc_dispatches: 0,
            nr_normal_dispatches: 0,
            nr_hog_dispatches: 0,
            nr_preemptions: 0,
            nr_migrations: 0,
            nr_antistall_dispatches: 0,
            nr_smt_avoided: 0,
            nr_classified_tasks: 0,
            nr_dynamic_adjustments: 0,
            nr_interactive_detected: 0,
            nr_promotions: 0,
            nr_demotions: 0,
            nr_eligible_dispatches: 0,
            nr_ineligible_dispatches: 0,
            nr_deadline_expired: 0,
            lc_min_vtime: 0,
            lc_avg_vtime: 0,
            normal_min_vtime: 0,
            normal_avg_vtime: 0,
            hog_min_vtime: 0,
            hog_avg_vtime: 0,
            vtime_now: 0,
            scx_turbo_count: 0,
            steam_count: 0,
            de_count: 0,
            input_count: 0,
            audio_count: 0,
        }
    }
}

impl HappyMetrics {
    /// All counters at 0.
    pub fn new() -> (r: Self)
        ensures
            r == no_metrics(),
    {
        HappyMetrics::default()
    }

    /// Takes over all counters and virtual times of `other`; the numbers of classified
    /// tasks stay.
    pub fn update(&mut self, other: &HappyMetrics)
        ensures
            *final(self) == (HappyMetrics {
                scx_turbo_count: old(self).scx_turbo_count,
                steam_count: old(self).steam_count,
                de_count: old(self).de_count,
                input_count: old(self).input_count,
                audio_count: old(self).audio_count,
                ..*other
            }),
    {
        self.nr_lc_dispatches = other.nr_lc_dispatches;
        self.nr_normal_dispatches = other.nr_normal_dispatches;
        self.nr_hog_dispatches = other.nr_hog_dispatches;
        self.nr_preemptions = other.nr_preemptions;
        self.nr_migrations = other.nr_migrations;
        self.nr_antistall_dispatches = other.nr_antistall_dispatches;
        self.nr_smt_avoided = other.nr_smt_avoided;
        self.nr_classified_tasks = other.nr_classified_tasks;
        self.nr_dynamic_adjustments = other.nr_dynamic_adjustments;
        self.nr_interactive_detected = other.nr_interactive_detected;
        self.nr_promotions = other.nr_promotions;
        self.nr_demotions = other.nr_demotions;
        self.nr_eligible_dispatches = other.nr_eligible_dispatches;
        self.nr_ineligible_dispatches = other.nr_ineligible_dispatches;
        self.nr_deadline_expired = other.nr_deadline_expired;
        self.lc_min_vtime = other.lc_min_vtime;
        self.lc_avg_vtime = other.lc_avg_vtime;
        self.normal_min_vtime = other.normal_min_vtime;
        self.normal_avg_vtime = other.normal_avg_vtime;
        self.hog_min_vtime = other.hog_min_vtime;
        self.hog_avg_vtime = other.hog_avg_vtime;
        self.vtime_now = other.vtime_now;
    }
}

/// What the kernel side counts.
#[derive(Clone, Copy, Debug, PartialEq, Eq, Structural)]
pub struct KernelStats {
    pub nr_lc_dispatches: u64,
    pub nr_normal_dispatches: u64,
    pub nr_hog_dispatches: u64,
    pub nr_preemptions: u64,
    pub nr_migrations: u64,
    pub nr_antistall_dispatches: u64,
    pub nr_smt_avoided: u64,
    pub nr_classified_tasks: u64,
    pub nr_deadline_preemptions: u64,
    pub nr_queue_priority_preemptions: u64,
    pub nr_same_queue_preemptions: u64,
    pub nr_hog_sleep_decayed: u64,
    pub nr_hog_promotion_checks: u64,
    pub nr_lat_cri_calculations: u64,
    pub nr_high_lat_cri_tasks: u64,
    pub nr_lat_cri_inherited: u64,
}

/// A line of a report.
pub open spec fn report_line(k: KernelStats, c: TaskClassifier, i: int) -> Seq<char> {
    if i == 0 {
        "=== Scheduler Stats ==="@
    } else if i == 1 {
        "Dispatches: LC="@ + decimal(k.nr_lc_dispatches as nat) + ", NORMAL="@ + decimal(k.nr_normal_dispatches as nat) + ", HOG="@ + decimal(k.nr_hog_dispatches as nat) + " (total="@ + decimal((k.nr_lc_dispatches + k.nr_normal_dispatches + k.nr_hog_dispatches) as nat) + ")"@
    } else if i == 2 {
        "Events: Preemptions="@ + decimal(k.nr_preemptions as nat) + ", Migrations="@ + decimal(k.nr_migrations as nat) + ", SMT avoided="@ + decimal(k.nr_smt_avoided as nat) + ", Antistall="@ + decimal(k.nr_antistall_dispatches as nat)
    } else if i == 3 {
        "Classified tasks tracked: "@ + decimal(k.nr_classified_tasks as nat)
    } else if i == 4 {
        "Active classified tasks: SCX_TURBO="@ + decimal(c.scx_turbo_tgids@.len()) + ", Steam="@ + decimal(c.steam_tgids@.len()) + ", DE="@ + decimal(c.de_tgids@.len()) + ", Input="@ + decimal(c.input_tgids@.len()) + ", Audio="@ + decimal(c.audio_tgids@.len())
    } else if i == 5 {
        "Deadline Preemptions: Total="@ + decimal(k.nr_deadline_preemptions as nat) + ", Queue Priority="@ + decimal(k.nr_queue_priority_preemptions as nat) + ", Same Queue="@ + decimal(k.nr_same_queue_preemptions as nat)
    } else if i == 6 {
        "HOG Lag Decay: sleep_decayed="@ + decimal(k.nr_hog_sleep_decayed as nat) + ", promotion_checks="@ + decimal(k.nr_hog_promotion_checks as nat)
    } else {
        "Latency Criticality: calculations="@ + decimal(k.nr_lat_cri_calculations as nat) + ", high_lat_cri="@ + decimal(k.nr_high_lat_cri_tasks as nat) + ", inherited="@ + decimal(k.nr_lat_cri_inherited as nat)
    }
}

/// The lines that report the counters of the kernel side and the classified tasks.
pub fn print_scheduler_stats(k: &KernelStats, c: &TaskClassifier) -> (r: Vec<String>)
    requires
        k.nr_lc_dispatches + k.nr_normal_dispatches + k.nr_hog_dispatches <= u64::MAX,
    ensures
        r@.len() == 8,
        forall|i: int| 0 <= i < 8 ==> #[trigger] r@[i]@ == report_line(*k, *c, i),
{
    let total_dispatches: u64 = k.nr_lc_dispatches + k.nr_normal_dispatches + k.nr_hog_dispatches;
    let mut out: Vec<String> = Vec::new();
    let line0: String = "=== Scheduler Stats ===".to_owned();
    out.push(line0);
    let mut line1: String = "Dispatches: LC=".to_owned();
    push_decimal(&mut line1, k.nr_lc_dispatches);
    line1.append(", NORMAL=");
    push_decimal(&mut line1, k.nr_normal_dispatches);
    line1.append(", HOG=");
    push_decimal(&mut line1, k.nr_hog_dispatches);
    line1.append(" (total=");
    push_decimal(&mut line1, total_dispatches);
    line1.append(")");
    out.push(line1);
    let mut line2: String = "Events: Preemptions=".to_owned();
    push_decimal(&mut line2, k.nr_preemptions);
    line2.append(", Migrations=");
    push_decimal(&mut line2, k.nr_migrations);
    line2.append(", SMT avoided=");
    push_decimal(&mut line2, k.nr_smt_avoided);
    line2.append(", Antistall=");
    push_decimal(&mut line2, k.nr_antistall_dispatches);
    out.push(line2);
    let mut line3: String = "Classified tasks tracked: ".to_owned();
    push_decimal(&mut line3, k.nr_classified_tasks);
    out.push(line3);
    let mut line4: String = "Active classified tasks: SCX_TURBO=".to_owned();
    push_decimal(&mut line4, c.scx_turbo_tgids.len() as u64);
    line4.append(", Steam=");
    push_decimal(&mut line4, c.steam_tgids.len() as u64);
    line4.append(", DE=");
    push_decimal(&mut line4, c.de_tgids.len() as u64);
    line4.append(", Input=");
    push_decimal(&mut line4, c.input_tgids.len() as u64);
    line4.append(", Audio=");
    push_decimal(&mut line4, c.audio_tgids.len() as u64);
    out.push(line4);
    let mut line5: String = "Deadline Preemptions: Total=".to_owned();
    push_decimal(&mut line5, k.nr_deadline_preemptions);
    line5.append(", Queue Priority=");
    push_decimal(&mut line5, k.nr_queue_priority_preemptions);
    line5.append(", Same Queue=");
    push_decimal(&mut line5, k.nr_same_queue_preemptions);
    out.push(line5);
    let mut line6: String = "HOG Lag Decay: sleep_decayed=".to_owned();
    push_decimal(&mut line6, k.nr_hog_sleep_decayed);
    line6.append(", promotion_checks=");
    push_decimal(&mut line6, k.nr_hog_promotion_checks);
    out.push(line6);
    let mut line7: String = "Latency Criticality: calculations=".to_owned();
    push_decimal(&mut line7, k.nr_lat_cri_calculations);
    line7.append(", high_lat_cri=");
    push_decimal(&mut line7, k.nr_high_lat_cri_tasks);
    line7.append(", inherited=");
    push_decimal(&mut line7, k.nr_lat_cri_inherited);
    out.push(line7);
    out
}

} // verus!
