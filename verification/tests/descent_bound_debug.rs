use scx_scheds::descent::bound_debug::{
    BoundDebugger, BoundStats, BoundStatus, BoundType, CLASS_NAMES, PARAM_NAMES,
};
use scx_scheds::descent::profiles::{ParamBounds, DESCENT_CLASS_MAX, PARAM_COUNT};
use scx_scheds::ratio::Ratio;

fn test_bounds() -> ParamBounds {
    [[
        (500_000, 2_000_000),
        (1_000_000, 10_000_000),
        (1024, 2048),
        (100, 100),
        (50_000, 500_000),
    ]; 4]
}

#[test]
fn test_record_min_hit() {
    let mut debugger = BoundDebugger::new(test_bounds(), true);
    debugger.record_clamp(0, 1, 1, 500_000, 1_000_000, -100_000);
    let stats = debugger.get_stats(0, 1, 1).unwrap();
    assert_eq!(stats.min_hits, 1);
    assert_eq!(stats.max_hits, 0);
    assert_eq!(stats.within_bounds, 0);
    assert_eq!(stats.total_updates, 1);
    assert_eq!(stats.last_clamped_value, 500_000);
    assert_eq!(stats.last_bound_value, 1_000_000);
}

#[test]
fn test_record_max_hit() {
    let mut debugger = BoundDebugger::new(test_bounds(), true);
    debugger.record_clamp(0, 1, 1, 15_000_000, 10_000_000, 500_000);
    let stats = debugger.get_stats(0, 1, 1).unwrap();
    assert_eq!(stats.min_hits, 0);
    assert_eq!(stats.max_hits, 1);
    assert_eq!(stats.within_bounds, 0);
    assert_eq!(stats.total_updates, 1);
    assert_eq!(stats.last_clamped_value, 15_000_000);
    assert_eq!(stats.last_bound_value, 10_000_000);
}

#[test]
fn error_sums_of_the_bounds_are_apart() {
    let mut debugger = BoundDebugger::new(test_bounds(), true);
    debugger.record_clamp(0, 1, 1, 500_000, 1_000_000, i64::MAX);
    debugger.record_clamp(0, 1, 1, 15_000_000, 10_000_000, 7);
    debugger.record_clamp(0, 1, 1, 5_000_000, 5_000_000, i64::MAX);
    let stats = debugger.get_stats(0, 1, 1).unwrap();
    assert_eq!((stats.latency_error_at_min, stats.latency_error_at_max), (i64::MAX, 7));
    assert_eq!((stats.min_hits, stats.max_hits, stats.within_bounds), (1, 1, 1));
}

#[test]
fn test_record_within_bounds() {
    let mut debugger = BoundDebugger::new(test_bounds(), true);
    debugger.record_clamp(0, 1, 1, 5_000_000, 5_000_000, 0);
    let stats = debugger.get_stats(0, 1, 1).unwrap();
    assert_eq!(stats.min_hits, 0);
    assert_eq!(stats.max_hits, 0);
    assert_eq!(stats.within_bounds, 1);
    assert_eq!(stats.total_updates, 1);
}

#[test]
fn test_disabled_debugger() {
    let mut debugger = BoundDebugger::new(test_bounds(), false);
    debugger.record_clamp(0, 1, 1, 500_000, 1_000_000, -100_000);
    assert!(debugger.get_stats(0, 1, 1).is_none());
}

#[test]
fn test_constrained_detection() {
    let mut debugger = BoundDebugger::new(test_bounds(), true);
    for _ in 0..9 {
        debugger.record_clamp(0, 1, 1, 500_000, 1_000_000, -100_000);
    }
    debugger.record_clamp(0, 1, 1, 5_000_000, 5_000_000, 0);
    let constrained = debugger.get_constrained_params();
    assert!(!constrained.is_empty());
    let (key, _, bound_type) = constrained[0];
    assert_eq!(key.cpu, 0);
    assert_eq!(key.class, 1);
    assert_eq!(key.param_idx, 1);
    assert_eq!(bound_type, BoundType::Min);
}

#[test]
fn test_summary() {
    let mut debugger = BoundDebugger::new(test_bounds(), true);
    for _ in 0..5 {
        debugger.record_clamp(0, 0, 1, 500_000, 1_000_000, -100_000);
        debugger.record_clamp(0, 1, 1, 15_000_000, 10_000_000, 500_000);
    }
    let summary = debugger.get_summary();
    assert_eq!(summary.total_tracked_params, 2);
    assert_eq!(summary.total_min_hits, 5);
    assert_eq!(summary.total_max_hits, 5);
    let p = summary.overall_constraint_percentage;
    assert!(p.num as f64 / p.den as f64 * 100.0 > 0.0);
}

#[test]
fn test_param_names_length() {
    assert_eq!(PARAM_NAMES.len(), PARAM_COUNT);
}

#[test]
fn test_class_names_length() {
    assert_eq!(CLASS_NAMES.len(), DESCENT_CLASS_MAX);
}

#[test]
fn percentages_and_constraint() {
    let mut s = BoundStats::default();
    assert!(!s.is_constrained());
    assert_eq!(s.min_hit_percent(), Ratio { num: 0, den: 1 });
    s.total_updates = 10;
    s.min_hits = 5;
    s.max_hits = 3;
    assert!(!s.is_constrained());
    assert_eq!(s.max_hit_percent(), Ratio { num: 3, den: 10 });
    assert_eq!(s.total_bound_hit_percent(), Ratio { num: 8, den: 10 });
    s.max_hits = 4;
    assert!(s.is_constrained());
}

#[test]
fn mean_errors_round_toward_zero() {
    let mut s = BoundStats::default();
    assert_eq!(s.avg_latency_error_at_bounds(), 0);
    s.min_hits = 1;
    s.max_hits = 1;
    s.latency_error_at_min = -10;
    s.latency_error_at_max = 3;
    assert_eq!(s.avg_latency_error_at_bounds(), -3);
}

#[test]
fn what_does_not_exist_is_not_recorded() {
    let mut d = BoundDebugger::new(test_bounds(), true);
    d.record_update(0, 4, 0);
    d.record_update(0, 0, 5);
    d.record_clamp(0, 4, 0, 1, 2, 3);
    assert_eq!(d.get_summary().total_tracked_params, 0);
    assert!(d.get_stats(0, 4, 0).is_none());
    d.record_update(7, 3, 4);
    assert_eq!(d.get_stats(7, 3, 4).unwrap().total_updates, 1);
    d.set_enabled(false);
    d.record_update(7, 3, 4);
    assert_eq!(d.get_stats(7, 3, 4).unwrap().total_updates, 1);
    d.reset();
    assert!(d.get_stats(7, 3, 4).is_none());
}

#[test]
fn listings_by_class_and_parameter() {
    let mut d = BoundDebugger::new(test_bounds(), true);
    d.record_update(0, 1, 2);
    d.record_update(1, 1, 3);
    d.record_update(0, 2, 2);
    let by_class = d.get_class_stats(1);
    assert_eq!(by_class.len(), 2);
    assert_eq!((by_class[0].0.cpu, by_class[1].0.cpu), (0, 1));
    let by_param = d.get_param_stats(2);
    assert_eq!(by_param.len(), 2);
    assert_eq!(by_param[1].0.class, 2);
}

#[test]
fn the_most_constrained_come_first() {
    let mut d = BoundDebugger::new(test_bounds(), true);
    for i in 0..10 {
        d.record_clamp(0, 0, 1, 1, 1_000_000, 0);
        if i < 9 {
            d.record_clamp(0, 1, 1, 20_000_000, 10_000_000, 0);
        } else {
            d.record_update(0, 1, 1);
        }
        d.record_update(0, 2, 1);
    }
    // nine updates are too few
    for _ in 0..9 {
        d.record_clamp(0, 3, 1, 1, 1_000_000, 0);
    }
    let c = d.get_constrained_params();
    assert_eq!(c.len(), 2);
    assert_eq!((c[0].0.class, c[0].2), (0, BoundType::Min));
    assert_eq!((c[1].0.class, c[1].2), (1, BoundType::Max));
    d.set_constraint_threshold(Ratio { num: 95, den: 100 });
    assert_eq!(d.get_constrained_params().len(), 1);
}

#[test]
fn reports_show_rows_and_activity() {
    let mut d = BoundDebugger::new(test_bounds(), true);
    for _ in 0..10 {
        d.record_clamp(0, 0, 1, 1, 1_000_000, -2500);
        d.record_update(1, 2, 3);
    }
    for _ in 0..6 {
        d.record_clamp(0, 3, 0, 1, 500_000, 0);
    }
    for _ in 0..4 {
        d.record_update(0, 3, 0);
    }
    let r = d.report(2);
    assert_eq!((r.active_params, r.constrained_params, r.freely_operating), (3, 1, 2));
    assert_eq!(r.within, 14);
    assert_eq!(r.constrained.len(), 1);
    assert_eq!(r.constrained[0].hits, 10);
    assert_eq!(r.constrained[0].error_avg_us, -2);
    assert_eq!(r.activity.len(), 3);
    assert_eq!(r.activity[0].status, BoundStatus::Constrained);
    assert_eq!((r.activity[1].class, r.activity[1].status), (2, BoundStatus::Free));
    assert_eq!((r.activity[2].class, r.activity[2].status), (3, BoundStatus::Tight));
    assert_eq!(r.activity[2].status.name(), "TIGHT");
    assert_eq!(BoundStatus::Constrained.name(), "CONSTRAINED");
    assert_eq!(BoundStatus::Free.name(), "OK");
    // CPU 1 is left out
    assert_eq!(d.report(1).activity.len(), 2);
}

#[test]
fn reports_show_at_most_twenty_rows() {
    let mut d = BoundDebugger::new(test_bounds(), true);
    for cpu in 0..25 {
        for _ in 0..10 {
            d.record_clamp(cpu, 0, 1, 1, 1_000_000, 0);
        }
    }
    assert_eq!(d.get_constrained_params().len(), 25);
    assert_eq!(d.report(25).constrained.len(), 20);
}

#[test]
fn reports_as_text() {
    let mut d = BoundDebugger::new(test_bounds(), true);
    let empty = d.format_report(2);
    assert!(empty.starts_with("\n=== Parameter Bounds Debug Report ===\n"));
    assert!(empty.contains("Summary: 0 parameters active, 0 constrained, 0 freely operating\n"));
    assert!(empty.contains("Overall constraint rate: 0.0% (min: 0 hits, max: 0 hits, within: 0)\n"));
    assert!(empty.contains("No parameter updates recorded"));
    d.record_update(1, 2, 3);
    assert!(d.format_report(2).contains("No constrained parameters"));
    for _ in 0..10 {
        d.record_clamp(0, 0, 1, 1, 1_000_000, -2500);
    }
    for _ in 0..2 {
        d.record_clamp(0, 3, 0, 1, 500_000, 0);
        d.record_update(0, 3, 0);
    }
    let text = d.format_report(2);
    assert!(text.contains("Overall constraint rate: 80.0% (min: 12 hits, max: 0 hits, within: 3)\n"));
    let row = format!(
        "  {:3}  {:20} {:20} {:5}  {:5}  {:5.1}%  {:+7}µs\n",
        0, "LATENCY_CRITICAL", "base_slice_ns", "MIN", 10, 100.0, -2
    );
    assert!(text.contains(&row));
    let line = format!(
        "  {:20} {:20} {:7}  {:5.1}%  {:5.1}%  {:5.1}%  {}\n",
        "BACKGROUND", "latency_weight", 4, 50.0, 0.0, 50.0, "OK"
    );
    assert!(text.contains(&line));
    assert!(text.ends_with(&line));
}

#[test]
fn percents_are_rounded() {
    let mut d = BoundDebugger::new(test_bounds(), true);
    d.record_clamp(0, 0, 1, 1, 1_000_000, 0);
    for _ in 0..2 {
        d.record_update(0, 0, 1);
    }
    // one third
    assert!(d.format_report(1).contains("Overall constraint rate: 33.3%"));
    d.record_clamp(0, 0, 1, 1, 1_000_000, 0);
    for _ in 0..12 {
        d.record_update(0, 0, 1);
    }
    // two of sixteen: 12.5 percent; one of sixteen would be 6.25
    assert!(d.format_report(1).contains("Overall constraint rate: 12.5%"));
    for _ in 0..16 {
        d.record_update(0, 0, 1);
    }
    assert!(d.format_report(1).contains("Overall constraint rate: 6.2%"));
}
