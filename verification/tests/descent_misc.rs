use scx_scheds::descent::autorate::AutorateState;
use scx_scheds::descent::classifier::TaskClassifier;
use scx_scheds::descent::domain::{
    cpufreq_perf_level, epp_to_cpumask, perf_level_name, refresh_sched_domain,
    resolve_energy_domain, watches_power_profile, PowerProfile, Refresh,
};
use scx_scheds::descent::optimizer::{GradientEvent, OscillationDetector, RawLosses, Sign};
use scx_scheds::descent::report::PieSummary;
use scx_scheds::descent::safety::{SafetyMonitor, MIN_OBSERVATIONS_FOR_SAFETY};
use scx_scheds::descent::stats::{KernelCounters, Metrics};
use scx_scheds::topology::{CoreType, Cpu, Powermode};

/// A loss in thousandths.
fn loss(x: f64) -> u64 {
    (x * 1000.0).round() as u64
}

#[test]
fn test_safety_monitor_creation() {
    let stats = SafetyMonitor::new().get_stats();
    assert_eq!(stats.checkpoints_stored, 0);
    assert_eq!(stats.loss_history_size, 0);
    assert_eq!(stats.restorations, 0);
}

#[test]
fn test_safety_monitor_with_threshold() {
    let monitor = SafetyMonitor::new_with_threshold(500);
    assert_eq!(monitor.get_stats().checkpoints_stored, 0);
}

#[test]
fn test_warm_up_period_no_spike_detection() {
    let mut monitor = SafetyMonitor::new_with_threshold(1000);
    let params = [100u64; 5];
    for _ in 0..MIN_OBSERVATIONS_FOR_SAFETY - 1 {
        let result = monitor.check_and_protect(0, 0, loss(1000.0), &params);
        assert!(result.is_none());
    }
    for _ in 0..10 {
        monitor.check_and_protect(0, 0, loss(50.0), &params);
    }
    let result = monitor.check_and_protect(0, 0, loss(500.0), &params);
    assert!(result.is_some());
}

#[test]
fn test_check_and_protect_no_spike() {
    let mut monitor = SafetyMonitor::new_with_threshold(1000);
    let params = [100u64; 5];
    let result = monitor.check_and_protect(0, 0, loss(50.0), &params);
    assert!(result.is_none());
    for _ in 0..25 {
        let _ = monitor.check_and_protect(0, 0, loss(50.0), &params);
    }
    let result = monitor.check_and_protect(0, 0, loss(55.0), &params);
    assert!(result.is_none());
    let stats = monitor.get_stats();
    assert!(stats.loss_history_size > 20);
}

#[test]
fn test_check_and_protect_spike_detection() {
    let mut monitor = SafetyMonitor::new_with_threshold(1000);
    let params1 = [100u64; 5];
    let params2 = [200u64; 5];
    for _ in 0..MIN_OBSERVATIONS_FOR_SAFETY + 10 {
        let _ = monitor.check_and_protect(0, 0, loss(100.0), &params1);
    }
    for _ in 0..10 {
        let _ = monitor.check_and_protect(0, 0, loss(100.0), &params1);
    }
    let result = monitor.check_and_protect(0, 0, loss(400.0), &params2);
    assert!(result.is_some());
    assert_eq!(result.unwrap(), params1);
    assert_eq!(monitor.get_stats().restorations, 1);
}

#[test]
fn test_minimum_baseline_prevents_spurious_triggers() {
    let mut monitor = SafetyMonitor::new_with_threshold(1000);
    let params = [100u64; 5];
    for _ in 0..MIN_OBSERVATIONS_FOR_SAFETY + 10 {
        let _ = monitor.check_and_protect(0, 0, loss(1.0), &params);
    }
    let result = monitor.check_and_protect(0, 0, loss(50.0), &params);
    assert!(result.is_none());
}

#[test]
fn test_checkpoint_creation_interval() {
    let mut monitor = SafetyMonitor::new();
    let params = [100u64; 5];
    for _ in 0..9 {
        monitor.check_and_protect(0, 0, loss(50.0), &params);
    }
    assert_eq!(monitor.get_stats().checkpoints_stored, 0);
    monitor.check_and_protect(0, 0, loss(50.0), &params);
    assert_eq!(monitor.get_stats().checkpoints_stored, 1);
    for _ in 0..10 {
        monitor.check_and_protect(0, 0, loss(50.0), &params);
    }
    assert_eq!(monitor.get_stats().checkpoints_stored, 1);
}

#[test]
fn test_multiple_cpu_class_combinations() {
    let mut monitor = SafetyMonitor::new();
    for cpu in 0..2 {
        for class in 0..4 {
            let params = [cpu as u64 * 10 + class as u64; 5];
            for _ in 0..10 {
                monitor.check_and_protect(cpu, class, loss(50.0), &params);
            }
        }
    }
    assert_eq!(monitor.get_stats().checkpoints_stored, 8);
}

#[test]
fn test_loss_history_ewma() {
    let mut monitor = SafetyMonitor::new();
    let params = [100u64; 5];
    monitor.check_and_protect(0, 0, loss(100.0), &params);
    monitor.check_and_protect(0, 0, loss(200.0), &params);
    monitor.check_and_protect(0, 0, loss(100.0), &params);
    assert_eq!(monitor.get_stats().loss_history_size, 3);
}

#[test]
fn test_spike_on_different_cpu_class() {
    let mut monitor = SafetyMonitor::new_with_threshold(1000);
    let params1 = [100u64; 5];
    for _ in 0..MIN_OBSERVATIONS_FOR_SAFETY + 10 {
        monitor.check_and_protect(0, 0, loss(50.0), &params1);
    }
    let result = monitor.check_and_protect(0, 0, loss(200.0), &params1);
    assert!(result.is_some());
    let params2 = [200u64; 5];
    let result = monitor.check_and_protect(0, 1, loss(200.0), &params2);
    assert!(result.is_none());
}

#[test]
fn loss_history_is_bounded() {
    let mut monitor = SafetyMonitor::new();
    for _ in 0..150 {
        monitor.record_loss(loss(1.0));
    }
    assert_eq!(monitor.get_stats().loss_history_size, 100);
}

#[test]
fn degradation_and_trend() {
    let mut monitor = SafetyMonitor::new_with_threshold(1000);
    assert!(!monitor.is_degradation(loss(200.0), loss(100.0)));
    assert!(monitor.is_degradation(loss(200.001), loss(100.0)));
    assert!(!monitor.is_degradation(loss(50.0), loss(100.0)));
    assert!(!monitor.is_degradation(loss(50.0), 0));
    for _ in 0..10 {
        monitor.record_loss(loss(1.0));
    }
    assert_eq!(monitor.get_loss_trend(), (0, 1));
    for _ in 0..5 {
        monitor.record_loss(loss(2.0));
    }
    // from a mean of 1.0 over five to a mean of 1.5 over ten
    let (num, den) = monitor.get_loss_trend();
    assert_eq!(num as f64 / den as f64, 0.5);
    for _ in 0..20 {
        monitor.record_loss(0);
    }
    assert_eq!(monitor.get_loss_trend(), (0, 1));
}

#[test]
fn a_loss_at_the_threshold_is_no_spike() {
    let params = [1u64; 5];
    let at = |x: f64| {
        let mut monitor = SafetyMonitor::default();
        for _ in 0..MIN_OBSERVATIONS_FOR_SAFETY {
            monitor.check_and_protect(0, 0, loss(100.0), &params);
        }
        monitor.check_and_protect(0, 0, loss(x), &[2u64; 5])
    };
    assert_eq!(at(600.0), None);
    assert_eq!(at(600.001), Some(params));
}

#[test]
fn oscillation_needs_many_sign_changes() {
    let mut d = OscillationDetector::new();
    for i in 0..9 {
        let sign = if i % 2 == 0 { Sign::Positive } else { Sign::Negative };
        assert!(!d.add(sign));
    }
    assert!(d.add(Sign::Negative));
    assert!(d.detect());
    let mut steady = OscillationDetector::new();
    for _ in 0..30 {
        assert!(!steady.add(Sign::Positive));
    }
    assert_eq!(steady.history.len(), 20);
    let mut zero = OscillationDetector::new();
    for i in 0..20 {
        assert!(!zero.add(if i % 2 == 0 { Sign::Zero } else { Sign::Negative }));
    }
}

#[test]
fn events_hold_what_was_measured() {
    let e = GradientEvent {
        cpu_id: 1,
        class_id: 2,
        param_idx: 3,
        loss_plus: 4,
        loss_minus: 5,
        epsilon: 6,
        timestamp: 7,
    };
    assert_eq!((e.cpu_id, e.loss_plus - 4, e.timestamp), (1, 0, 7));
    let l = RawLosses {
        latency_sum: 1,
        sample_count: 2,
        deadline_misses: 3,
        cpu_time_ns: 4,
        target_share_ns: 5,
    };
    assert_eq!(l.latency_sum + l.target_share_ns, 6);
}

#[test]
fn tasks_are_classified_in_the_kernel() {
    let c = TaskClassifier::new();
    assert_eq!(c.classify_task(1, 2, true), 0);
}

fn cpus() -> Vec<Cpu> {
    let kinds = [
        CoreType::Big { turbo: true },
        CoreType::Big { turbo: false },
        CoreType::Little,
        CoreType::Little,
    ];
    kinds
        .iter()
        .enumerate()
        .map(|(id, k)| Cpu { id, core_type: *k, capacity: 1024 })
        .collect()
}

#[test]
fn domains_by_mode_and_power_profile() {
    let c = cpus();
    assert_eq!(epp_to_cpumask(Powermode::Turbo, &c), "0x01");
    assert_eq!(epp_to_cpumask(Powermode::Performance, &c), "0x03");
    assert_eq!(epp_to_cpumask(Powermode::Powersave, &c), "0x0c");
    assert_eq!(epp_to_cpumask(Powermode::Any, &c), "0x0f");
    assert_eq!(epp_to_cpumask(Powermode::Powersave, &c[..2]), "0x03");
    assert_eq!(epp_to_cpumask(Powermode::Any, &[]), "none");
    let r = |d: &str, p: PowerProfile| resolve_energy_domain(d, p, &c);
    assert_eq!(r("powersave", PowerProfile::Unknown), "0x0c");
    assert_eq!(r("performance", PowerProfile::Unknown), "0x03");
    assert_eq!(r("turbo", PowerProfile::Unknown), "0x01");
    assert_eq!(r("all", PowerProfile::Powersave), "0x0f");
    assert_eq!(r("auto", PowerProfile::Powersave), "0x0c");
    assert_eq!(r("auto", PowerProfile::Balanced { power: true }), "0x0c");
    assert_eq!(r("auto", PowerProfile::Balanced { power: false }), "0x0f");
    assert_eq!(r("auto", PowerProfile::Performance), "0x0f");
    assert_eq!(r("auto", PowerProfile::Unknown), "0x0f");
    assert_eq!(r("0xff", PowerProfile::Unknown), "0xff");
}

#[test]
fn performance_levels() {
    assert_eq!(cpufreq_perf_level("powersave", true), 0);
    assert_eq!(cpufreq_perf_level("auto", true), -1);
    assert_eq!(cpufreq_perf_level("auto", false), 1024);
    assert_eq!(perf_level_name(1024), "max");
    assert_eq!(perf_level_name(0), "min");
    assert_eq!(perf_level_name(-1), "auto");
    assert_eq!(perf_level_name(512), "512");
}

#[test]
fn power_profile_changes() {
    let (save, perf, unknown) = (PowerProfile::Powersave, PowerProfile::Performance, PowerProfile::Unknown);
    assert!(watches_power_profile(save) && !watches_power_profile(unknown));
    assert_eq!(refresh_sched_domain(save, save, "auto"), Refresh::Keep);
    assert_eq!(refresh_sched_domain(unknown, perf, "auto"), Refresh::Keep);
    assert_eq!(refresh_sched_domain(save, perf, "auto"), Refresh::Restart);
    assert_eq!(refresh_sched_domain(save, perf, "all"), Refresh::Rescale);
}

#[test]
fn descent_metrics() {
    let k = KernelCounters {
        nr_running: 3,
        nr_online_cpus: 16,
        nr_kthread_dispatches: 10,
        nr_direct_dispatches: 123456,
        nr_shared_dispatches: 7,
    };
    let p = PieSummary { states: 64, updates: 5, avg_latency_us: 6, integral: -7, latency_error_us: -8 };
    let off = Metrics::collect(&k, &p, None);
    assert_eq!((off.autorate_enabled, off.autorate_state, off.autorate_rate_percent), (0, 0, 0));
    let on = Metrics::collect(&k, &p, Some(None));
    assert_eq!((on.autorate_enabled, on.autorate_state, on.autorate_rate_percent), (1, 0, 50));
    let mut m = Metrics::collect(&k, &p, Some(Some((AutorateState::BackingOff, 33))));
    assert_eq!((m.autorate_enabled, m.autorate_state, m.autorate_rate_percent), (1, 2, 33));
    assert_eq!((m.pie_updates, m.pie_integral, m.pie_latency_error_us), (5, -7, -8));
    m.thompson_uncertainty = 1234;
    m.thompson_updates = 9;
    let expected = format!(
        "[{}] tasks -> r: {:>2}/{:<2} | dispatch -> k: {:<5} d: {:<5} s: {:<5} | thompson: updates={} unc={:.3} | classes: lc:{} n:{} h:{} bg:{}\n",
        "scx_descent", 3, 16, 10, 123456, 7, 9, 1234 as f64 / 1000.0, 0, 0, 0, 0
    );
    assert_eq!(m.format(), expected);
    let mut later = m;
    later.nr_kthread_dispatches = 12;
    later.nr_direct_dispatches = 123460;
    let d = later.delta(&m);
    assert_eq!((d.nr_kthread_dispatches, d.nr_direct_dispatches, d.nr_shared_dispatches), (2, 4, 0));
    assert_eq!(d.nr_running, 3);
}
