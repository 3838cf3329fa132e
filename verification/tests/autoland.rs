use std::collections::HashSet;

use scx_scheds::autoland::controller::AdaptiveController;
use scx_scheds::autoland::cpu_list::parse_cpu_list;
use scx_scheds::autoland::criticality::{square_root, LatencyCriticalityScore};
use scx_scheds::autoland::histogram::EmaHistogram;
use scx_scheds::autoland::pid::{EmaPidController, PidController};
use scx_scheds::autoland::pid_tail_latency_controller::{
    bucket_bound_ns, calculate_p99, runtime_moments, ClassControllerState,
    ClassCriticalityMetrics, ClassLatencyStat, ClassLatencyTarget, PidTailLatencyController,
    TaskClass,
};
use scx_scheds::autoland::scan::Detected;
use scx_scheds::autoland::startup::{
    busy_threshold, polling_interval_ms, preferred_cpus, primary_all, wait_ms,
};
use scx_scheds::autoland::stats::{controller_line, KernelCounters, Metrics};
use scx_scheds::autoland::task_classifier::TaskClassifier;
use scx_scheds::autoland::utilization::{compute_user_cpu_pct, cpu_times_of, CpuTimes};
use scx_scheds::ratio::Ratio;
use scx_scheds::topology::{get_primary_cpus, CoreType, Cpu, Powermode};

fn adaptive(enabled: bool) -> AdaptiveController {
    AdaptiveController::new(
        700,
        Ratio { num: 1, den: 2 },
        Ratio { num: 1, den: 1 },
        Ratio { num: 2, den: 1 },
        enabled,
    )
}

#[test]
fn controller_test_controller_disabled() {
    let mut controller = adaptive(false);
    let (lc, normal, hog, preempt) = controller.update(0, 0, 0);
    assert_eq!(lc, 350);
    assert_eq!(normal, 700);
    assert_eq!(hog, 1400);
    assert_eq!(preempt, 128);
}

#[test]
fn test_light_load_maintains_preferred() {
    let mut controller = adaptive(true);
    let (lc, normal, hog, _) = controller.update(2, 20, 0);
    assert_eq!(lc, 350);
    assert_eq!(normal, 700);
    assert_eq!(hog, 1400);
}

#[test]
fn few_tasks_can_be_a_heavy_load() {
    let mut controller = adaptive(true);
    // more than a light load: both classes have too large a share of 8 tasks
    assert_eq!(controller.update(3, 5, 0), (315, 630, 1400, 112));
    let mut controller = adaptive(true);
    assert_eq!(controller.update(1, 1, 0).0, 350);
    // a hog among ten tasks is no heavy load, one among nine is
    assert_eq!(controller.update(0, 9, 1), (350, 630, 1400, 144));
    let mut controller = adaptive(true);
    assert_eq!(controller.update(0, 8, 1), (350, 630, 1540, 144));
    // one more normal task than under light load
    let mut controller = adaptive(true);
    let (lc, normal, _, _) = controller.update(2, 21, 0);
    assert_eq!((lc, normal), (315, 630));
}

#[test]
fn test_heavy_lc_decreases_slice() {
    let mut controller = adaptive(true);
    let (lc, _, _, _) = controller.update(60, 940, 0);
    assert!(lc < 350);
    assert!(lc >= 175);
    assert_eq!(lc, 315);
}

#[test]
fn test_heavy_normal_decreases_slice() {
    let mut controller = adaptive(true);
    let (_, normal, _, _) = controller.update(2, 600, 398);
    assert!(normal < 700);
    assert!(normal >= 350);
}

#[test]
fn test_heavy_hog_increases_slice() {
    let mut controller = adaptive(true);
    let (_, _, hog, _) = controller.update(2, 100, 150);
    assert!(hog > 1400);
    assert_eq!(hog, 1540);
}

#[test]
fn test_hog_slice_capped() {
    let mut controller = adaptive(true);
    let mut last_hog = 1400;
    for _ in 0..20 {
        let (_, _, hog, _) = controller.update(0, 100, 900);
        last_hog = hog;
    }
    assert!(last_hog <= 5600);
    assert_eq!(last_hog, 5600);
}

#[test]
fn test_hog_decay_to_preferred() {
    let mut controller = adaptive(true);
    let (_, _, hog, _) = controller.update(0, 100, 900);
    assert!(hog > 1400);
    let (_, _, hog2, _) = controller.update(0, 200, 0);
    assert!(hog2 <= hog);
    assert_eq!(hog2, 1463);
}

#[test]
fn adaptive_preemption() {
    let mut c = adaptive(true);
    // good latency, light load: +8
    assert_eq!(c.update(0, 100, 0).3, 136);
    // good latency, heavy hogs: +16
    assert_eq!(c.update(0, 100, 100).3, 152);
    // many latency-critical tasks: -16
    assert_eq!(c.update(100, 0, 0).3, 136);
    // struggling: -32
    c.update_latency(2, 8000);
    assert_eq!(c.lc_latency_ewma, 2000);
    assert_eq!(c.update(0, 100, 0).3, 104);
    for _ in 0..9 {
        c.update(0, 100, 0);
    }
    assert_eq!(c.get_current_values().3, 64);
    c.update_latency(0, 40);
    c.update_latency(1, 80);
    c.update_latency(9, 40);
    assert_eq!((c.normal_latency_ewma, c.hog_latency_ewma), (17, 20));
    assert!(c.is_enabled());
    c.set_enabled(false);
    assert!(!c.is_enabled());
    assert_eq!(c.get_thresholds().0, Ratio { num: 5, den: 100 });
    assert_eq!(c.get_current_slices().2, c.get_current_values().2);
}

#[test]
fn test_class_latency_target() {
    let target = ClassLatencyTarget::from_micros(500);
    assert_eq!(target.target_p99_ns, 500_000);
    assert_eq!(target.min_acceptable_ns, 100_000);
    assert_eq!(target.max_acceptable_ns, 1_000_000);
}

#[test]
fn bounded_targets() {
    let t = ClassLatencyTarget::bounded_max(50_000);
    assert_eq!(t.target_p99_ns, 50_000_000);
    assert_eq!(t.max_acceptable_ns, 50_000_000);
    assert_eq!(t.min_acceptable_ns, 5_000_000);
    assert_eq!(ClassLatencyTarget::default().target_p99_ns, 500_000);
}

fn no_criticality() -> ClassCriticalityMetrics {
    ClassCriticalityMetrics {
        total_wakeup_count: 0,
        total_runtime_ns: 0,
        runtime_squared_sum: 0,
        sample_count: 0,
    }
}

fn no_latencies() -> ClassLatencyStat {
    ClassLatencyStat {
        sum_ns: 0,
        count: 0,
        sum_squares_ns: 0,
        min_ns: 0,
        max_ns: 0,
        histogram: [0; 16],
    }
}

#[test]
fn test_p99_calculation() {
    let mut stat = no_latencies();
    stat.histogram[5] = 100;
    let p99 = calculate_p99(&stat);
    assert!(p99 > 0);
    assert_eq!(p99, 32_000);
}

#[test]
fn p99_of_spread_samples() {
    let mut stat = no_latencies();
    assert_eq!(calculate_p99(&stat), 0);
    stat.histogram[0] = 99;
    stat.histogram[9] = 1;
    assert_eq!(calculate_p99(&stat), 1_000);
    stat.histogram[9] = 10;
    assert_eq!(calculate_p99(&stat), 512_000);
    stat.histogram[0] = 0;
    stat.histogram[9] = 0;
    stat.histogram[15] = 1;
    stat.max_ns = 7;
    // a single sample is its own percentile
    assert_eq!(calculate_p99(&stat), 32_768_000);
    stat.histogram[15] = 0;
    stat.histogram[3] = 1;
    assert_eq!(calculate_p99(&stat), 8_000);
    assert_eq!(bucket_bound_ns(15), 32_768_000);
}

#[test]
fn pid_tail_latency_controller_test_controller_disabled() {
    let mut controller = PidTailLatencyController::new(500, 2000, 4000, false, 0);
    let (lc, normal, hog, _) = controller.update(&[no_latencies(); 3], &[no_criticality(); 3], 0);
    assert_eq!(lc, 500);
    assert_eq!(normal, 2000);
    assert_eq!(hog, 4000);
}

#[test]
fn test_preemption_adjustment() {
    let controller = PidTailLatencyController::new(500, 2000, 4000, true, 0);
    let preempt1 = controller.adjust_preemption_threshold(1_000_000, 500_000);
    assert!(preempt1 < 128);
    let preempt2 = controller.adjust_preemption_threshold(200_000, 500_000);
    assert!(preempt2 > 128);
    let preempt3 = controller.adjust_preemption_threshold(500_000, 500_000);
    assert_eq!(preempt3, 128);
}

#[test]
fn preemption_steps() {
    let c = PidTailLatencyController::new(500, 2000, 4000, true, 0);
    assert_eq!(c.adjust_preemption_threshold(0, 500_000), 128);
    assert_eq!(c.adjust_preemption_threshold(1_000_001, 500_000), 96);
    assert_eq!(c.adjust_preemption_threshold(750_001, 500_000), 112);
    assert_eq!(c.adjust_preemption_threshold(750_000, 500_000), 128);
    assert_eq!(c.adjust_preemption_threshold(249_999, 500_000), 144);
    assert_eq!(c.adjust_preemption_threshold(1, 0), 96);
}

#[test]
fn tail_latency_updates() {
    let mut c = PidTailLatencyController::new(500, 2000, 4000, true, 0);
    let crit = [no_criticality(); 3];
    let mut stats = [no_latencies(); 3];
    // 2.048 ms for normal and latency-critical tasks, too few samples for hogs
    stats[0].histogram[11] = 100;
    stats[1].histogram[11] = 49;
    stats[2].histogram[11] = 100;
    assert!(!c.is_due(499_999_999));
    let before = c.get_current_values();
    assert_eq!(c.update(&stats, &crit, 499_999_999), before);
    // normal: little above the target, the slice shrinks a little; critical: four times the
    // target, the slice is held to half
    assert_eq!(c.update(&stats, &crit, 500_000_000), (250, 1956, 4000, 96));
    assert_eq!(c.last_update_ns, 500_000_000);
    let t = c.get_telemetry();
    let none = Ratio { num: 0, den: 1024 };
    assert_eq!(t[0], (TaskClass::Normal, 2000, 2048, 0, none));
    assert_eq!(t[1], (TaskClass::Hog, 50000, 0, 0, none));
    assert_eq!(t[2], (TaskClass::LatencyCritical, 500, 2048, 0, none));
    // relative error 0.024 with a weight of 0.05
    assert_eq!(c.class_states[0].pid.ema_error(), 1200);
    assert_eq!(c.class_states[0].pid.prev_error, 24_000);
    let c = c.with_interval(5).with_targets(1, 2, 3).with_pid_gains(TaskClass::Hog, 1, 2, 3);
    assert!(c.is_due(500_000_005));
    assert_eq!(c.class_states[1].target.target_p99_ns, 3000);
    assert_eq!(c.class_states[2].target.max_acceptable_ns, 2000);
    assert_eq!(c.class_states[1].pid.get_gains(), (1, 2, 3));
    assert_eq!(c.class_states[1].pid.max_output, 500_000);
    let mut c = c;
    c.reset(700_000_000);
    assert_eq!(c.last_update_ns, 700_000_000);
    assert_eq!(c.class_states[0].pid.ema_error(), 0);
    c.set_enabled(false);
    assert!(!c.is_enabled() && !c.is_due(u64::MAX));
}

#[test]
fn criticality_weighs_errors() {
    let crit = ClassCriticalityMetrics {
        total_wakeup_count: 64,
        total_runtime_ns: 1000,
        runtime_squared_sum: 1000,
        sample_count: 10,
    };
    let mut c = PidTailLatencyController::new(500, 2000, 4000, true, 0);
    let mut stats = [no_latencies(); 3];
    stats[0].histogram[11] = 100;
    c.update(&stats, &[crit; 3], 500_000_000);
    // 0.3 * 0.7 * 1024
    assert_eq!(c.class_states[0].criticality.score, 214);
    // 0.024 * (1 + 214 / 2048)
    assert_eq!(c.class_states[0].pid.prev_error, 26_507);
}

#[test]
fn slices_of_one_class() {
    let target = ClassLatencyTarget::default();
    let mut s = ClassControllerState::new(TaskClass::LatencyCritical, target, 50);
    assert_eq!(s.compute_control(0, 500_000_000), 50_000);
    assert_eq!(s.get_slice_us(), 50);
    assert_eq!(s.as_class_idx(), TaskClass::LatencyCritical);
    let mut big = ClassControllerState::new(TaskClass::Hog, target, 80_000);
    assert_eq!(big.as_class_idx(), TaskClass::Hog);
    // far above the target: held to 80%
    assert_eq!(big.compute_control(1_000_000_000, 500_000_000), 64_000_000);
    assert_eq!(big.current_slice_ns, 64_000_000);
    // far below: the least output of 0.8 leaves 120%
    assert_eq!(big.compute_control(1, 500_000_000), 96_000_000);
}

#[test]
fn test_pid_controller_basic() {
    let mut pid = PidController::new(1000, 100, 200, 500_000, 2_000_000);
    pid.reset();
    let output1 = pid.compute(500_000, 100_000_000);
    assert!(output1 > 1_000_000);
    assert!(output1 <= 2_000_000);
    // 0.5 + 0.1 * 0.05 + 0.2 * 5
    assert_eq!(output1, 1_505_000);
    let output2 = pid.compute(-300_000, 100_000_000);
    assert!(output2 < 1_000_000);
    assert!(output2 >= 500_000);
    assert_eq!(pid.integral_error, 20_000);
    assert_eq!(pid.get_gains(), (1000, 100, 200));
    assert_eq!(pid.integral_limit, 15_000_000);
}

#[test]
fn test_pid_anti_windup() {
    let mut pid = PidController::new(500, 1000, 100, 500_000, 1_500_000);
    for _ in 0..100 {
        let _ = pid.compute(10_000_000, 100_000_000);
    }
    let output = pid.compute(10_000_000, 100_000_000);
    assert_eq!(output, 1_500_000);
    assert_eq!(pid.integral_error, 1_000_000);
}

#[test]
fn smoothed_loops() {
    let mut pid = EmaPidController::new(1000, 500, 0, -9_000_000, 9_000_000);
    // weight 0.05: 1 + 0.5 * 0.05
    assert_eq!(pid.compute(1_000_000, 100_000_000), 1_025_000);
    // weight at most 0.95
    assert_eq!(pid.compute(1_000_000, 10_000_000_000), 1_476_250);
    assert_eq!(pid.ema_error(), 952_500);
    // weight at least 0.01, rounded down
    assert_eq!(pid.compute(-1, 1), 471_486);
    pid.reset();
    assert_eq!((pid.ema_error, pid.prev_error), (0, 0));
    let mut falling = EmaPidController::new(0, 0, 1000, -9_000_000, 9_000_000);
    assert_eq!(falling.compute(-1_000_000, 500_000_000), -2_000_000);
}

#[test]
fn test_criticality_score() {
    let mut score = LatencyCriticalityScore::new();
    score.update(50, 10_000, 100);
    assert!(score.score > 0);
    assert!(score.ewma_score > 0);
    assert!(score.wakeup_freq == 50);
    assert_eq!((score.score, score.runtime_cv), (168, 1000));
    score.update(50, 10_000, 100);
    assert!(score.score > 100);
    assert_eq!(score.score, 285);
    score.update(200, 1, 100);
    assert_eq!(score.runtime_cv, 1_000_000);
    score.update(0, 0, 100);
    assert_eq!(score.runtime_cv, 0);
    assert_eq!(LatencyCriticalityScore::default().normalized(), Ratio { num: 0, den: 1024 });
}

#[test]
fn square_roots() {
    assert_eq!(square_root(0), 0);
    assert_eq!(square_root(15), 3);
    assert_eq!(square_root(16), 4);
    assert_eq!(square_root(10_000_000_000_000_000_000_000), 100_000_000_000);
}

#[test]
fn task_classes() {
    assert_eq!(TaskClass::from_u32(1), TaskClass::Hog);
    assert_eq!(TaskClass::from_u32(2), TaskClass::LatencyCritical);
    assert_eq!(TaskClass::from_u32(0), TaskClass::Normal);
    assert_eq!(TaskClass::from_u32(7), TaskClass::Normal);
    assert_eq!(TaskClass::LatencyCritical.as_usize(), 2);
    assert_eq!(TaskClass::LatencyCritical.default_gains(), (1000, 50, 300));
    assert_eq!(TaskClass::Hog.output_limits(), (8, 15));
}

#[test]
fn histograms_forget() {
    let mut h = EmaHistogram::new(200);
    let mut raw = [0u64; 16];
    raw[3] = 100;
    h.update(&raw);
    assert_eq!(h.ema_buckets[3], 20_000_000);
    assert_eq!(h.calculate_p99(), Some(8_000));
    // nothing new: weight decays
    h.update(&raw);
    assert_eq!(h.total_weight(), 16_000_000);
    h.update(&raw);
    h.update(&raw);
    h.update(&raw);
    assert_eq!(h.total_weight(), 8_192_000);
    assert_eq!(h.calculate_p99(), None);
    // counts that went back are not taken in
    raw[3] = 1;
    h.update(&raw);
    raw[3] = 2;
    raw[15] = 1000;
    h.update(&raw);
    assert_eq!(h.prev_raw_histogram[15], 1000);
    assert_eq!(h.calculate_p99(), Some(32_768_000));
    h.reset();
    assert_eq!(h.total_weight(), 0);
    assert_eq!((h.alpha(), EmaHistogram::new(0).alpha(), EmaHistogram::new(5000).alpha()), (200, 10, 990));
}

#[test]
fn moments_of_run_times() {
    let m = ClassCriticalityMetrics {
        total_wakeup_count: 0x1_0000_0005,
        total_runtime_ns: 30,
        runtime_squared_sum: 340,
        sample_count: 3,
    };
    let r = runtime_moments(&m);
    assert_eq!((r.wakeup_count, r.avg_runtime_ns, r.variance), (5, 10, 13));
    let none = ClassCriticalityMetrics {
        total_wakeup_count: 1,
        total_runtime_ns: 4,
        runtime_squared_sum: 3,
        sample_count: 0,
    };
    let r = runtime_moments(&none);
    assert_eq!((r.avg_runtime_ns, r.variance), (4, 0));
}

#[test]
fn statistics_from_bytes() {
    let mut data = Vec::new();
    for i in 0..21u64 {
        data.extend_from_slice(&(i + 1).to_le_bytes());
    }
    let s = ClassLatencyStat::from_bytes(&data);
    assert_eq!((s.sum_ns, s.count, s.sum_squares_ns, s.min_ns, s.max_ns), (1, 2, 3, 4, 5));
    assert_eq!((s.histogram[0], s.histogram[15]), (6, 21));
    let short = ClassLatencyStat::from_bytes(&data[..167]);
    assert_eq!((short.sum_ns, short.histogram[0]), (0, 0));
    let c = ClassCriticalityMetrics::from_bytes(&data);
    assert_eq!((c.total_wakeup_count, c.runtime_squared_sum, c.sample_count), (1, 3, 4));
    assert_eq!(ClassCriticalityMetrics::from_bytes(&data[..27]).total_wakeup_count, 0);
}

#[test]
fn test_de_detection() {
    let classifier = TaskClassifier::new();
    assert!(classifier.is_de_task("kwin"));
    assert!(classifier.is_de_task("gnome-shell"));
    assert!(classifier.is_de_task("sway"));
    assert!(!classifier.is_de_task("firefox"));
}

#[test]
fn test_audio_detection() {
    let classifier = TaskClassifier::new();
    assert!(classifier.is_audio_task("pipewire"));
    assert!(classifier.is_audio_task("pulseaudio"));
    assert!(!classifier.is_audio_task("chrome"));
}

#[test]
fn environments_and_command_lines() {
    let c = TaskClassifier::default();
    assert!(TaskClassifier::check_scx_turbo(b"A=1\0SCX_TURBO=1\0"));
    assert!(!TaskClassifier::check_scx_turbo(b"SCX_TURBO=10"));
    assert!(!TaskClassifier::check_scx_turbo(b"SCX_TURBO=0"));
    assert!(!TaskClassifier::check_scx_turbo(b""));
    assert!(!TaskClassifier::check_scx_turbo(b"XSCX_TURBO=1"));
    assert!(!TaskClassifier::check_scx_turbo(b"SCX_TURBO=1\xff"));
    assert!(TaskClassifier::check_steam_game(b"STEAM_GAME=1"));
    assert!(TaskClassifier::check_steam_game(b"x\0SteamGameId=570"));
    assert!(TaskClassifier::has_exe_in_cmdline(b"C:\\GAME.EXE\0-x"));
    assert!(TaskClassifier::has_exe_in_cmdline(b"\xff game.exe"));
    assert!(!TaskClassifier::has_exe_in_cmdline(b"game"));
    assert!(TaskClassifier::mentions_exe("a.exe"));
    assert_eq!(
        c.classify(b"SCX_TURBO=1", b"a.exe", "kwin"),
        (true, true, true, false)
    );
    assert_eq!(c.classify(b"", b"", "jackd"), (false, false, false, true));
}

fn cpus() -> Vec<Cpu> {
    let kinds = [
        CoreType::Little,
        CoreType::Big { turbo: true },
        CoreType::Big { turbo: false },
        CoreType::Little,
    ];
    let capacity = [300, 1024, 1000, 300];
    (0..4).map(|id| Cpu { id, core_type: kinds[id], capacity: capacity[id] }).collect()
}

#[test]
fn cpus_of_a_mode() {
    let c = cpus();
    assert_eq!(get_primary_cpus(Powermode::Turbo, &c), [1]);
    assert_eq!(get_primary_cpus(Powermode::Performance, &c), [1, 2]);
    assert_eq!(get_primary_cpus(Powermode::Powersave, &c), [0, 3]);
    assert_eq!(get_primary_cpus(Powermode::Any, &c), [0, 1, 2, 3]);
}

#[test]
fn cpu_lists() {
    let c = cpus();
    let p = |s: &str| parse_cpu_list(s, &c, 4);
    assert_eq!(p("turbo").unwrap(), [1]);
    assert_eq!(p("performance").unwrap(), [1, 2]);
    assert_eq!(p("powersave").unwrap(), [0, 3]);
    assert_eq!(p("all").unwrap(), [0, 1, 2, 3]);
    assert_eq!(p("").unwrap(), Vec::<usize>::new());
    assert_eq!(p("3, 1-2 ,,1").unwrap(), [3, 1, 2]);
    assert_eq!(p(" 0 - 1 ").unwrap(), [0, 1]);
    assert_eq!(p("12").unwrap(), [12]);
    assert_eq!(p("a").unwrap_err(), "Invalid character in CPU list");
    assert_eq!(p("+1").unwrap_err(), "Invalid character in CPU list");
    assert_eq!(p("-3").unwrap_err(), "Invalid range start");
    assert_eq!(p("1-2-3").unwrap_err(), "Invalid range end");
    assert_eq!(p("3-").unwrap_err(), "Invalid range end");
    assert_eq!(p("3-1").unwrap_err(), "Invalid CPU range: 3-1");
    assert_eq!(p("0-7").unwrap_err(), "Too many CPUs specified (max 4)");
    assert_eq!(p("0-3,1").unwrap_err(), "Too many CPUs specified (max 4)");
    assert_eq!(p("1 2").unwrap_err(), "Invalid CPU: 1\t2");
    assert_eq!(
        p("99999999999999999999").unwrap_err(),
        "Invalid CPU: 99999999999999999999"
    );
}

#[test]
fn utilization_from_counters() {
    let a = CpuTimes { user: 10, nice: 0, total: 100 };
    let b = CpuTimes { user: 20, nice: 5, total: 130 };
    // 15 / 30 of 1024
    assert_eq!(compute_user_cpu_pct(&a, &b), Some(512));
    assert_eq!(compute_user_cpu_pct(&a, &a), None);
    assert_eq!(compute_user_cpu_pct(&b, &a), None);
    let c = CpuTimes { user: 11, nice: 0, total: 103 };
    // 1 / 3 of 1024 is 341.33
    assert_eq!(compute_user_cpu_pct(&a, &c), Some(341));
    let d = CpuTimes { user: 11, nice: 0, total: 2148 };
    // 1 / 2048 of 1024 is one half
    assert_eq!(compute_user_cpu_pct(&a, &d), Some(1));
}

#[test]
fn counters_of_proc_stat() {
    let t = cpu_times_of("cpu  1 2 3 4 5 6 7 8 9 10\ncpu0 1 1 1 1\n").unwrap();
    assert_eq!(t, CpuTimes { user: 1, nice: 2, total: 36 });
    let t = cpu_times_of("cpu0 9\ncpu 1 2 x 4\n").unwrap();
    assert_eq!(t, CpuTimes { user: 1, nice: 2, total: 7 });
    assert_eq!(cpu_times_of("cpu 1 2 3\n"), None);
    assert_eq!(cpu_times_of("cpu x 2 3 4\n"), None);
    assert_eq!(cpu_times_of("intr 1\n"), None);
}

#[test]
fn settings_from_the_command_line() {
    assert_eq!(busy_threshold(75), 768);
    assert_eq!(polling_interval_ms(0), None);
    assert_eq!(polling_interval_ms(3), Some(10));
    assert_eq!(polling_interval_ms(250), Some(250));
    assert_eq!(polling_interval_ms(9999), Some(1000));
    assert_eq!((wait_ms(None), wait_ms(Some(20))), (1000, 20));
    assert!(primary_all(4, 4) && !primary_all(3, 4));
    let order: Vec<usize> = preferred_cpus(&cpus()).iter().map(|c| c.id).collect();
    assert_eq!(order, [1, 2, 0, 3]);
}

#[test]
fn tasks_come_and_go() {
    let mut first = Detected::new();
    assert_eq!(first.note(5, true, true, false, false), Some(2));
    assert_eq!(first.note(6, false, true, false, false), Some(2));
    assert_eq!(first.note(7, false, false, true, false), Some(2));
    assert_eq!(first.note(8, false, false, false, true), Some(2));
    assert_eq!(first.note(9, false, false, false, false), None);
    assert_eq!((&first.turbo, &first.games), (&HashSet::from([5]), &HashSet::from([6])));
    let mut second = Detected::new();
    second.note(5, true, false, false, false);
    second.note(10, false, true, false, false);
    let c = first.changes(&second);
    assert_eq!(c.new_turbo, Vec::<i32>::new());
    assert_eq!(c.new_games, [10]);
    assert_eq!(c.ended_turbo, Vec::<i32>::new());
    assert_eq!(c.ended_games, [6]);
    let same = first.changes(&first);
    assert!(same.new_turbo.is_empty() && same.ended_games.is_empty());
}

#[test]
fn autoland_metrics() {
    let k = KernelCounters {
        nr_local_dispatch: 10,
        nr_remote_dispatch: 20,
        nr_keep_running: 30,
        nr_lc_tasks: 1,
        nr_normal_tasks: 2,
        nr_hog_tasks: 3,
        slice_ns_lc: 500_999,
        slice_ns_normal: 2_000_000,
        slice_ns_hog: 4_000_000,
    };
    let m = Metrics::from_kernel(&k);
    assert_eq!((m.lc_slice_us, m.nr_preemptions), (500, 0));
    let mut later = m;
    later.nr_local_dispatch = 15;
    let d = later.delta(&m);
    assert_eq!((d.nr_local_dispatch, d.nr_remote_dispatch, d.nr_hog_tasks), (5, 0, 3));
    assert_eq!(
        m.format(),
        "[scx_autoland] dispatch: local=10 remote=20 running=30 preempt=0\n[scx_autoland] tasks: LC=1 normal=2 hog=3\n[scx_autoland] slices: LC=500us normal=2000us hog=4000us\n"
    );
}

#[test]
fn controller_lines() {
    assert_eq!(
        controller_line((500, 2000, 4000, 128), 0, 0, 0),
        "PID Controller: LC=500us Normal=2000us Hog=4000us Preempt=128 (no tasks)"
    );
    assert_eq!(
        controller_line((500, 2000, 4000, 96), 1, 1, 4),
        "PID Controller: LC=500us(16%) Normal=2000us(16%) Hog=4000us(66%) Preempt=96 Tasks=[1/1/4]"
    );
}

#[test]
fn slices_at_and_above_the_target() {
    let target = ClassLatencyTarget::from_micros(500);
    let mut s = ClassControllerState::new(TaskClass::LatencyCritical, target, 500);
    for _ in 0..10 {
        assert_eq!(s.compute_control(500_000, 500_000_000), 500_000);
    }
    let mut slice = 0;
    for _ in 0..500 {
        slice = s.compute_control(600_000, 500_000_000);
    }
    // a fifth too slow: about a fifth less
    assert!(slice > 380_000 && slice < 410_000, "{slice}");
}

#[test]
fn higher_latency_means_shorter_slices() {
    let slice = |p99: u64| {
        let target = ClassLatencyTarget::from_micros(2000);
        let mut s = ClassControllerState::new(TaskClass::Normal, target, 2000);
        s.compute_control(p99, 500_000_000)
    };
    let slices: Vec<u64> = (1..40).map(|i| slice(i * 200_000)).collect();
    assert!(slices.windows(2).all(|w| w[0] >= w[1]));
    assert_eq!((slices[0], slices[38]), (2_800_000, 1_200_000));
}
