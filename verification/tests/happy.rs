use std::collections::HashSet;

use scx_scheds::happy::classifier::{is_turbo_environ, recognise, Process, TaskClassifier};
use scx_scheds::happy::domain::domain_cpus;
use scx_scheds::happy::settings::Times;
use scx_scheds::happy::stats::{print_scheduler_stats, HappyMetrics, KernelStats};
use scx_scheds::topology::{CoreType, Cpu};

fn process(pid: u32, comm: &str, environ: Option<&str>) -> Process {
    Process { pid, comm: comm.to_string(), environ: environ.map(|s| s.to_string()) }
}

#[test]
fn processes_are_recognised() {
    let mut c = TaskClassifier::new();
    let p = [
        process(1, "KWin_wayland\n", Some("A=1\0SCX_TURBO=yes\0")),
        process(2, "pw-cat\n", Some("SteamGameId=5\0")),
        process(3, "ibus-daemon", None),
        process(4, "bash", Some("SCX_TURBO=0\0SCX_TURBO=1\0")),
        process(5, "gnome-shell", Some("STEAM_GAME=1")),
        process(6, "libinput", None),
    ];
    assert!(c.detect_all_with_changes(&p));
    assert_eq!(c.scx_turbo_tgids, HashSet::from([1]));
    assert_eq!(c.steam_tgids, HashSet::from([2, 5]));
    assert_eq!(c.de_tgids, HashSet::from([1, 5]));
    assert_eq!(c.input_tgids, HashSet::from([3, 6]));
    assert_eq!(c.audio_tgids, HashSet::from([2]));
    assert!(!c.detect_all_with_changes(&p));
    assert!(c.detect_all_with_changes(&p[..5]));
    c.detect_all(&[]);
    assert!(c.de_tgids.is_empty());
}

#[test]
fn turbo_values() {
    let t = |s: &str| is_turbo_environ(&s.chars().collect::<Vec<char>>());
    assert!(t("SCX_TURBO=1"));
    assert!(!t("MY_SCX_TURBO=1"));
    assert!(!t("A=SCX_TURBO=1"));
    assert!(t("MY_SCX_TURBO=0\0SCX_TURBO=1\0"));
    assert!(!t("SCX_TURBO=0\0SCX_TURBO=1"));
    assert!(!t("SCX_TURBO="));
    assert!(!t("SCX_TURBO=\0X=1"));
    assert!(!t("SCX_TURBO=0\0"));
    assert!(t("SCX_TURBO=00"));
    assert!(!t(""));
    let r = recognise("compositor", Some("STEAM_GAME="));
    assert!(r.de && r.steam && !r.turbo && !r.audio && !r.input);
}

#[test]
fn classification_stats() {
    let mut c = TaskClassifier::new();
    c.detect_all(&[process(1, "sway", None), process(2, "jackd", None)]);
    assert_eq!(
        c.print_stats(),
        [
            "Task classification stats:",
            "  SCX_TURBO tasks: 0",
            "  Steam games: 0",
            "  DE components: 1",
            "  Input tasks: 0",
            "  Audio tasks: 1"
        ]
    );
}

#[test]
fn scheduler_stats() {
    let k = KernelStats {
        nr_lc_dispatches: 1,
        nr_normal_dispatches: 2,
        nr_hog_dispatches: 3,
        nr_preemptions: 4,
        nr_migrations: 5,
        nr_antistall_dispatches: 6,
        nr_smt_avoided: 7,
        nr_classified_tasks: 8,
        nr_deadline_preemptions: 9,
        nr_queue_priority_preemptions: 10,
        nr_same_queue_preemptions: 11,
        nr_hog_sleep_decayed: 12,
        nr_hog_promotion_checks: 13,
        nr_lat_cri_calculations: 14,
        nr_high_lat_cri_tasks: 15,
        nr_lat_cri_inherited: 16,
    };
    let lines = print_scheduler_stats(&k, &TaskClassifier::new());
    assert_eq!(
        lines,
        [
            "=== Scheduler Stats ===",
            "Dispatches: LC=1, NORMAL=2, HOG=3 (total=6)",
            "Events: Preemptions=4, Migrations=5, SMT avoided=7, Antistall=6",
            "Classified tasks tracked: 8",
            "Active classified tasks: SCX_TURBO=0, Steam=0, DE=0, Input=0, Audio=0",
            "Deadline Preemptions: Total=9, Queue Priority=10, Same Queue=11",
            "HOG Lag Decay: sleep_decayed=12, promotion_checks=13",
            "Latency Criticality: calculations=14, high_lat_cri=15, inherited=16"
        ]
    );
}

#[test]
fn happy_metrics() {
    let mut m = HappyMetrics::new();
    m.steam_count = 3;
    let mut other = HappyMetrics::default();
    other.nr_lc_dispatches = 5;
    other.vtime_now = 6;
    other.steam_count = 9;
    m.update(&other);
    assert_eq!((m.nr_lc_dispatches, m.vtime_now, m.steam_count), (5, 6, 3));
}

#[test]
fn domains() {
    let kinds = [
        CoreType::Big { turbo: true },
        CoreType::Big { turbo: false },
        CoreType::Little,
        CoreType::Little,
    ];
    let cpus: Vec<Cpu> =
        (0..4).rev().map(|id| Cpu { id, core_type: kinds[id], capacity: 1 }).collect();
    let d = |s: &str| domain_cpus(s, &cpus, 8);
    assert_eq!(d("turbo"), [0]);
    assert_eq!(d("performance"), [1]);
    assert_eq!(d("powersave"), [2, 3]);
    assert_eq!(d("anything"), [0, 1, 2, 3]);
    assert_eq!(d("0xff"), [0, 1, 2, 3, 4, 5, 6, 7]);
    assert_eq!(d("0x15"), [0, 2, 4]);
    assert_eq!(d("0xA"), [1, 3]);
    assert_eq!(d("0x"), [0, 1, 2, 3]);
    assert_eq!(d("0xg"), [0, 1, 2, 3]);
    assert_eq!(domain_cpus("powersave", &cpus, 3), [2]);
}

#[test]
fn times_in_nanoseconds() {
    let t = Times {
        lc_slice_us: 500,
        normal_slice_us: 1000,
        hog_slice_us: 3000,
        adjust_interval_us: 10000,
        hog_decay_interval_us: 20000,
        hog_min_sleep_duration_us: 50000,
    };
    let k = t.to_kernel().unwrap();
    assert_eq!((k.lc_slice_ns, k.hog_min_sleep_duration_ns), (500_000, 50_000_000));
    let bad = Times { hog_slice_us: u64::MAX, ..t };
    assert!(bad.to_kernel().is_none());
}
