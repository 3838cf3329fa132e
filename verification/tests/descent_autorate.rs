use scx_scheds::descent::autorate::{
    AdjustmentDirection, AutorateConfig, AutorateState, LatencyBaseline, ShareConfig,
    BASELINE_EWMA_ALPHA, BUFFERBLOAT_THRESHOLD_NS, HIGH_LOAD_THRESHOLD, IDLE_LOAD_THRESHOLD,
    LOW_LOAD_THRESHOLD,
};
use scx_scheds::descent::autorate_control::{AutorateController, AutorateStats};
use scx_scheds::descent::autorate_report::autorate_debug_text;
use scx_scheds::descent::autorate_state::{ClassAutorateState, ClassMetrics};
use scx_scheds::descent::profiles::{DESCENT_CLASS_MAX, PARAM_COUNT};
use scx_scheds::descent::shares::{share_from_milli, Mapping, ShareMove, ONE};
use scx_scheds::ratio::Ratio;

fn load(milli: u64) -> Ratio {
    Ratio::milli(milli)
}

/// A share in billionths.
fn share(x: f64) -> u64 {
    (x * 1e9).round() as u64
}

/// A signed share in billionths.
fn signed(x: f64) -> i64 {
    (x * 1e9).round() as i64
}

fn value(r: Ratio) -> f64 {
    r.num as f64 / r.den as f64
}

#[test]
fn test_latency_baseline_creation() {
    let baseline = LatencyBaseline::new(1000_000);
    assert_eq!(baseline.baseline_ns, 1000_000);
    assert_eq!(baseline.alpha, BASELINE_EWMA_ALPHA);
}

#[test]
fn test_latency_baseline_with_alpha() {
    let baseline = LatencyBaseline::with_alpha(1000_000, 500);
    assert_eq!(baseline.baseline_ns, 1000_000);
    assert_eq!(baseline.alpha, 500);
}

#[test]
fn test_latency_baseline_clamps_alpha() {
    let baseline_high = LatencyBaseline::with_alpha(1000_000, 1500);
    assert_eq!(baseline_high.alpha, 1000);
    let baseline_low = LatencyBaseline::with_alpha(1000_000, -500);
    assert_eq!(baseline_low.alpha, 0);
}

#[test]
fn test_latency_baseline_update_during_low_load() {
    let mut baseline = LatencyBaseline::new(1000_000);
    baseline.update(2000_000, load(100), 1000);
    assert_eq!(baseline.baseline_ns, 1200_000);
    assert_eq!(baseline.last_update_ns, 1000);
}

#[test]
fn test_latency_baseline_no_update_during_high_load() {
    let mut baseline = LatencyBaseline::new(1000_000);
    baseline.update(2000_000, load(500), 1000);
    assert_eq!(baseline.baseline_ns, 1000_000);
    assert_eq!(baseline.last_update_ns, 0);
}

#[test]
fn test_latency_baseline_at_threshold() {
    let mut baseline = LatencyBaseline::new(1000_000);
    baseline.update(2000_000, load(LOW_LOAD_THRESHOLD), 1000);
    assert_eq!(baseline.baseline_ns, 1000_000);
}

#[test]
fn test_latency_baseline_force_update() {
    let mut baseline = LatencyBaseline::new(1000_000);
    baseline.force_update(2000_000, 1000);
    assert_eq!(baseline.baseline_ns, 1200_000);
    assert_eq!(baseline.last_update_ns, 1000);
}

#[test]
fn test_latency_baseline_get_delay_delta() {
    let baseline = LatencyBaseline::new(1000_000);
    assert_eq!(baseline.get_delay_delta(1500_000), 500_000);
    assert_eq!(baseline.get_delay_delta(500_000), -500_000);
    assert_eq!(baseline.get_delay_delta(1000_000), 0);
}

#[test]
fn test_latency_baseline_get_delay_ratio() {
    let baseline = LatencyBaseline::new(1000_000);
    assert!((value(baseline.get_delay_ratio(1500_000)) - 1.5).abs() < 0.001);
    assert!((value(baseline.get_delay_ratio(500_000)) - 0.5).abs() < 0.001);
    assert!((value(baseline.get_delay_ratio(1000_000)) - 1.0).abs() < 0.001);
}

#[test]
fn test_latency_baseline_zero_baseline_ratio() {
    let baseline = LatencyBaseline::new(0);
    assert_eq!(value(baseline.get_delay_ratio(1500_000)), 1.0);
}

#[test]
fn test_latency_baseline_is_stale() {
    let mut baseline = LatencyBaseline::new(1000_000);
    baseline.last_update_ns = 1000;
    assert!(!baseline.is_stale(2000, 5000));
    assert!(baseline.is_stale(7000, 5000));
}

#[test]
fn default_baseline() {
    let b = LatencyBaseline::default();
    assert_eq!((b.baseline_ns, b.last_update_ns, b.alpha), (0, 0, 200));
}

#[test]
fn test_share_config_creation() {
    let config = ShareConfig::new(100, 500, 1000, 1100, 900, 990);
    assert_eq!(config.min_share, 100);
    assert_eq!(config.base_share, 500);
    assert_eq!(config.max_share, 1000);
    assert_eq!(config.ramp_up_rate, 1100);
    assert_eq!(config.ramp_down_rate, 900);
    assert_eq!(config.decay_rate, 990);
}

#[test]
fn test_share_config_clamps_values() {
    let config = ShareConfig::new(-100, 500, 1500, 1100, 900, 990);
    assert_eq!(config.min_share, 0);
    assert_eq!(config.max_share, 1000);
    assert_eq!(config.base_share, 500);
}

#[test]
fn test_share_config_is_valid() {
    let valid = ShareConfig::new(100, 500, 1000, 1100, 900, 990);
    assert!(valid.is_valid());
    let invalid1 = ShareConfig::new(600, 500, 1000, 1100, 900, 990);
    assert!(!invalid1.is_valid());
    let invalid2 = ShareConfig::new(100, 900, 800, 1100, 900, 990);
    assert!(!invalid2.is_valid());
}

#[test]
fn test_share_config_clamp() {
    let config = ShareConfig::new(200, 500, 800, 1100, 900, 990);
    assert_eq!(config.clamp(share(0.5)), share(0.5));
    assert_eq!(config.clamp(share(0.1)), share(0.2));
    assert_eq!(config.clamp(share(0.9)), share(0.8));
}

#[test]
fn test_share_config_default() {
    let config = ShareConfig::default();
    assert_eq!(config.min_share, 100);
    assert_eq!(config.base_share, 250);
    assert_eq!(config.max_share, 500);
    assert!(config.is_valid());
}

#[test]
fn test_autorate_state_names() {
    assert_eq!(AutorateState::Idle.name(), "IDLE");
    assert_eq!(AutorateState::Exploring.name(), "EXPLORING");
    assert_eq!(AutorateState::BackingOff.name(), "BACKING_OFF");
    assert_eq!(AutorateState::Steady.name(), "STEADY");
}

#[test]
fn test_autorate_state_allows_baseline_update() {
    assert!(AutorateState::Idle.allows_baseline_update());
    assert!(AutorateState::Steady.allows_baseline_update());
    assert!(!AutorateState::Exploring.allows_baseline_update());
    assert!(!AutorateState::BackingOff.allows_baseline_update());
}

#[test]
fn test_autorate_state_is_adjusting() {
    assert!(!AutorateState::Idle.is_adjusting());
    assert!(AutorateState::Exploring.is_adjusting());
    assert!(AutorateState::BackingOff.is_adjusting());
    assert!(!AutorateState::Steady.is_adjusting());
}

#[test]
fn test_class_autorate_state_creation() {
    let state = ClassAutorateState::new(signed(0.5), 1000_000, 7);
    assert_eq!(state.current_share, share(0.5));
    assert_eq!(state.state, AutorateState::Idle);
    assert_eq!(state.latency_baseline.baseline_ns, 1000_000);
    assert_eq!(value(state.load), 0.0);
    assert_eq!(state.target_latency_ns, 1000_000);
    assert_eq!((state.last_state_change_ns, state.last_adjustment_ns), (7, 7));
}

#[test]
fn test_class_autorate_state_with_alpha() {
    let state = ClassAutorateState::with_alpha(signed(0.5), 1000_000, 300, 0);
    assert_eq!(state.latency_baseline.alpha, 300);
}

#[test]
fn test_class_autorate_state_share_clamping() {
    let state = ClassAutorateState::new(signed(1.5), 1000_000, 0);
    assert_eq!(state.current_share, share(1.0));
    let state2 = ClassAutorateState::new(signed(-0.5), 1000_000, 0);
    assert_eq!(state2.current_share, share(0.0));
}

#[test]
fn default_class_state() {
    let state = ClassAutorateState::default();
    assert_eq!(state.current_share, share(0.25));
    assert_eq!(state.latency_baseline.baseline_ns, 1000_000);
}

#[test]
fn test_class_autorate_state_update_latency_ewma() {
    let mut state = ClassAutorateState::new(signed(0.5), 1000_000, 0);
    state.update_latency_ewma(1000_000);
    assert_eq!(state.latency_ewma_ns, 1000_000);
    assert_eq!(state.measured_latency_ns, 1000_000);
    state.update_latency_ewma(2000_000);
    assert_eq!(state.latency_ewma_ns, 1200_000);
    assert_eq!(state.measured_latency_ns, 2000_000);
}

#[test]
fn test_class_autorate_state_transition_to() {
    let mut state = ClassAutorateState::new(signed(0.5), 1000_000, 100);
    let before = state.last_state_change_ns;
    state.transition_to(AutorateState::Idle, 150);
    assert_eq!(state.last_state_change_ns, before);
    state.transition_to(AutorateState::Exploring, 200);
    assert!(state.last_state_change_ns > before);
    assert_eq!(state.state, AutorateState::Exploring);
    assert_eq!(state.time_in_state(250), 50);
}

#[test]
fn test_class_autorate_state_record_adjustment() {
    let mut state = ClassAutorateState::new(signed(0.5), 1000_000, 0);
    state.record_adjustment(signed(0.7), AdjustmentDirection::Up, 5);
    assert_eq!(state.current_share, share(0.7));
    assert_eq!(state.last_direction, AdjustmentDirection::Up);
    state.record_adjustment(signed(1.5), AdjustmentDirection::Down, 6);
    assert_eq!(state.current_share, share(1.0));
    assert_eq!(state.last_direction, AdjustmentDirection::Down);
    state.record_adjustment(signed(-0.5), AdjustmentDirection::Neutral, 7);
    assert_eq!(state.current_share, share(0.0));
    assert_eq!(state.last_direction, AdjustmentDirection::Neutral);
    assert_eq!(state.time_since_adjustment(17), 10);
}

#[test]
fn test_class_autorate_state_get_delay_ratio() {
    let mut state = ClassAutorateState::new(signed(0.5), 1000_000, 0);
    state.update_latency_ewma(1500_000);
    state.force_update_baseline(1000);
    let expected_baseline = 1100_000;
    let expected_ratio = 1500_000 as f64 / expected_baseline as f64;
    assert!((value(state.get_delay_ratio()) - expected_ratio).abs() < 0.001);
    assert_eq!(state.delay_delta_ns, 400_000);
    assert!(!state.is_baseline_stale(1000, 0));
    assert!(state.is_baseline_stale(1001, 0));
}

#[test]
fn test_class_metrics_creation() {
    let metrics = ClassMetrics::new(2);
    assert_eq!(metrics.class_id, 2);
    assert_eq!(metrics.cycles_spent, 0);
    assert_eq!(metrics.sample_count, 0);
    assert_eq!(metrics.avg_latency_ns, 0);
    assert_eq!(value(metrics.load), 0.0);
}

#[test]
fn test_class_metrics_is_valid() {
    let mut metrics = ClassMetrics::new(2);
    metrics.sample_count = 10;
    assert!(metrics.is_valid());
    let metrics_invalid = ClassMetrics::new(10);
    assert!(!metrics_invalid.is_valid());
    let metrics_no_samples = ClassMetrics::new(1);
    assert!(!metrics_no_samples.is_valid());
}

#[test]
fn test_class_metrics_has_min_samples() {
    let mut metrics = ClassMetrics::new(1);
    metrics.sample_count = 10;
    assert!(metrics.has_min_samples(5));
    assert!(metrics.has_min_samples(10));
    assert!(!metrics.has_min_samples(15));
}

#[test]
fn test_autorate_config_default() {
    let config = AutorateConfig::default();
    assert!(config.enabled);
    assert_eq!(config.high_load_threshold, HIGH_LOAD_THRESHOLD);
    assert_eq!(config.low_load_threshold, IDLE_LOAD_THRESHOLD);
    assert_eq!(config.ramp_up_rate, 1100);
    assert_eq!(config.ramp_down_rate, 900);
    assert_eq!(config.decay_rate, 990);
    assert_eq!(config.bufferbloat_threshold, 1500);
    assert_eq!(config.share_configs.len(), DESCENT_CLASS_MAX);
    assert_eq!(config.share_configs[2].max_share, 600);
}

#[test]
fn test_autorate_stats_default() {
    let stats = AutorateStats::default();
    assert_eq!(stats.total_classes, DESCENT_CLASS_MAX);
    assert_eq!(stats.adjustments_up, 0);
    assert_eq!(stats.adjustments_down, 0);
    assert_eq!(stats.adjustments_blocked, 0);
    assert_eq!(stats.avg_share, share(0.25));
    assert_eq!(stats.baseline_updates, 0);
    assert_eq!(stats.controlling_class, None);
    assert_eq!(stats.backed_off_class, None);
}

fn controller() -> AutorateController {
    AutorateController::new(4, &AutorateConfig::default(), 0)
}

#[test]
fn test_controller_creation() {
    let controller = controller();
    let stats = controller.get_stats();
    assert_eq!(stats.total_classes, DESCENT_CLASS_MAX);
    assert_eq!(controller.get_controlling_class(), None);
    assert_eq!(controller.get_backed_off_class(), None);
    assert_eq!(controller.interval_ms, 200);
    let targets: Vec<u64> =
        controller.get_all_class_states().iter().map(|s| s.target_latency_ns).collect();
    assert_eq!(targets, [1_000_000, 5_000_000, 20_000_000, 50_000_000]);
}

#[test]
fn test_controller_with_interval() {
    let config = AutorateConfig::default();
    let controller = AutorateController::with_interval(4, &config, 50, 0);
    let stats = controller.get_stats();
    assert_eq!(stats.total_classes, DESCENT_CLASS_MAX);
    assert_eq!(controller.interval_ms, 50);
}

#[test]
fn test_controller_get_class_state() {
    let controller = controller();
    for i in 0..DESCENT_CLASS_MAX as u32 {
        let state = controller.get_class_autorate_state(i);
        assert!(state.is_some());
        assert_eq!(state.unwrap().state, AutorateState::Idle);
    }
    assert!(controller.get_class_autorate_state(99).is_none());
    assert_eq!(controller.get_class_rate(2), Some((AutorateState::Idle, 35)));
    assert_eq!(controller.get_class_rate(4), None);
}

#[test]
fn test_controller_get_share_config() {
    let controller = controller();
    for i in 0..DESCENT_CLASS_MAX as u32 {
        assert!(controller.get_share_config(i).is_some());
    }
    assert!(controller.get_share_config(99).is_none());
}

#[test]
fn test_controller_set_controlling_class() {
    let mut controller = controller();
    controller.set_controlling_class(Some(2));
    assert_eq!(controller.get_controlling_class(), Some(2));
    controller.set_controlling_class(None);
    assert_eq!(controller.get_controlling_class(), None);
    controller.set_backed_off_class(Some(1));
    controller.update_stats();
    assert_eq!(controller.stats.backed_off_class, Some(1));
}

#[test]
fn test_controller_reset_class_to_base() {
    let mut controller = controller();
    {
        let state = controller.get_class_autorate_state_mut(1).unwrap();
        state.record_adjustment(signed(0.8), AdjustmentDirection::Up, 1);
        state.transition_to(AutorateState::Exploring, 1);
    }
    controller.reset_class_to_base(1, 2);
    let state = controller.get_class_autorate_state(1).unwrap();
    assert_eq!(
        state.current_share,
        share_from_milli(AutorateConfig::default().share_configs[1].base_share)
    );
    assert_eq!(state.state, AutorateState::Steady);
    assert_eq!(state.last_direction, AdjustmentDirection::Neutral);
}

#[test]
fn test_controller_force_baseline_update() {
    let mut controller = controller();
    controller.force_baseline_update(1, 2000_000, 9);
    let state = controller.get_class_autorate_state(1).unwrap();
    assert_eq!(state.latency_baseline.baseline_ns, 1200_000);
    assert_eq!(state.delay_delta_ns, 800_000);
}

#[test]
fn test_find_starved_class() {
    let mut controller = controller();
    {
        let state = controller.get_class_autorate_state_mut(0).unwrap();
        state.delay_delta_ns = BUFFERBLOAT_THRESHOLD_NS + 1000;
        state.measured_latency_ns = 5000_000;
    }
    {
        let state = controller.get_class_autorate_state_mut(1).unwrap();
        state.delay_delta_ns = 100_000;
        state.measured_latency_ns = 1000_000;
    }
    assert_eq!(controller.find_starved_class(), Some(0));
}

#[test]
fn test_find_starved_class_none() {
    let controller = controller();
    assert_eq!(controller.find_starved_class(), None);
}

#[test]
fn test_find_controlling_class() {
    let mut controller = controller();
    controller.get_class_autorate_state_mut(2).unwrap().load = load(950);
    controller.get_class_autorate_state_mut(1).unwrap().load = load(500);
    controller.get_class_autorate_state_mut(0).unwrap().load = load(100);
    assert_eq!(controller.find_controlling_class(0), Some(2));
    assert_eq!(controller.find_controlling_class(2), Some(1));
}

#[test]
fn no_load_no_controlling_class() {
    let controller = controller();
    assert_eq!(controller.find_controlling_class(0), None);
}

#[test]
fn test_transition_state_with_hysteresis() {
    let mut controller = controller();
    assert_eq!(controller.get_class_autorate_state(0).unwrap().state, AutorateState::Idle);
    controller.transition_state(0, AutorateState::Exploring, 1);
    let state = controller.get_class_autorate_state(0).unwrap();
    assert_eq!(state.state, AutorateState::Idle);
    assert_eq!(state.pending_state, AutorateState::Exploring);
    assert_eq!(state.consecutive_state_count, 1);
    controller.transition_state(0, AutorateState::Exploring, 2);
    let state = controller.get_class_autorate_state(0).unwrap();
    assert_eq!(state.state, AutorateState::Exploring);
    assert_eq!(state.consecutive_state_count, 0);
}

#[test]
fn test_transition_state_different_pending_resets() {
    let mut controller = controller();
    controller.transition_state(0, AutorateState::Exploring, 1);
    assert_eq!(controller.get_class_autorate_state(0).unwrap().consecutive_state_count, 1);
    controller.transition_state(0, AutorateState::BackingOff, 2);
    let state = controller.get_class_autorate_state(0).unwrap();
    assert_eq!(state.pending_state, AutorateState::BackingOff);
    assert_eq!(state.consecutive_state_count, 1);
}

#[test]
fn test_ramp_up_class() {
    let mut controller = controller();
    controller.get_class_autorate_state_mut(1).unwrap().current_share = share(0.25);
    controller.ramp_up_class(1, 1);
    let state = controller.get_class_autorate_state(1).unwrap();
    assert!(state.current_share > share(0.25));
    assert_eq!(state.current_share, share(0.2625));
    assert_eq!((state.last_adjustment_ns, state.last_direction), (1, AdjustmentDirection::Up));
    assert_eq!(controller.stats.adjustments_up, 1);
}

#[test]
fn test_back_off_class() {
    let mut controller = controller();
    controller.get_class_autorate_state_mut(1).unwrap().current_share = share(0.35);
    controller.back_off_class(1, 1);
    let state = controller.get_class_autorate_state(1).unwrap();
    assert!(state.current_share < share(0.35));
    assert_eq!(state.current_share, share(0.2975));
    assert_eq!(controller.stats.adjustments_down, 1);
}

#[test]
fn test_boost_class() {
    let mut controller = controller();
    controller.get_class_autorate_state_mut(0).unwrap().current_share = share(0.25);
    controller.boost_class(0, 1);
    let state = controller.get_class_autorate_state(0).unwrap();
    assert_eq!(state.current_share, share(0.30));
    assert_eq!(controller.stats.adjustments_up, 0);
}

#[test]
fn test_decay_class_to_base() {
    let mut controller = controller();
    controller.get_class_autorate_state_mut(0).unwrap().current_share = share(0.40);
    controller.decay_class_to_base(0, 1);
    let state = controller.get_class_autorate_state(0).unwrap();
    assert!(state.current_share < share(0.40));
    assert!(state.current_share >= share(0.25));
    // 0.40 + (0.25 - 0.40) * 0.02
    assert_eq!(state.current_share, share(0.397));
    assert_eq!(state.last_direction, AdjustmentDirection::Neutral);
}

#[test]
fn moves_stop_at_the_ends() {
    let mut c = controller();
    c.get_class_autorate_state_mut(0).unwrap().current_share = share(0.40);
    c.ramp_up_class(0, 5);
    let state = c.get_class_autorate_state(0).unwrap();
    assert_eq!((state.current_share, state.last_adjustment_ns), (share(0.40), 0));
    assert_eq!(c.stats.adjustments_up, 0);
    c.get_class_autorate_state_mut(3).unwrap().current_share = share(0.051);
    c.back_off_class(3, 5);
    assert_eq!(c.get_class_autorate_state(3).unwrap().current_share, share(0.05));
    c.ramp_up_class(9, 6);
    c.boost_class(9, 6);
    assert_eq!(ShareMove::Decay.apply(&ShareConfig::default(), share(0.25)), share(0.25));
}

fn total(c: &AutorateController) -> f64 {
    c.class_states.iter().map(|s| s.current_share as f64 / 1e9).sum()
}

#[test]
fn test_normalize_shares() {
    let mut controller = controller();
    for state in controller.get_all_class_states_mut() {
        state.current_share = share(0.40);
    }
    controller.normalize_shares();
    assert!((total(&controller) - 1.0).abs() < 0.01);
    for (idx, state) in controller.class_states.iter().enumerate() {
        let min_share = controller.get_share_config(idx as u32).unwrap().min_share;
        assert!(state.current_share >= share_from_milli(min_share));
    }
}

#[test]
fn normalization_without_shares_and_with_minimums() {
    let mut c = controller();
    for state in c.get_all_class_states_mut() {
        state.current_share = 0;
    }
    c.normalize_shares();
    let shares: Vec<u64> = c.class_states.iter().map(|s| s.current_share).collect();
    // the base shares 0.25, 0.25, 0.35 and 0.10, scaled to the whole
    assert_eq!(shares, [263_157_894, 263_157_894, 368_421_052, 105_263_157]);
    // all in one class: the others get their minimum, and the first is held at its largest share
    for (i, state) in c.get_all_class_states_mut().iter_mut().enumerate() {
        state.current_share = if i == 0 { share(0.9) } else { 0 };
    }
    c.normalize_shares();
    let shares: Vec<u64> = c.class_states.iter().map(|s| s.current_share).collect();
    assert_eq!(shares, [share(0.40), share(0.15), share(0.20), share(0.05)]);
    // a sum of the whole stays
    for (state, x) in c.get_all_class_states_mut().iter_mut().zip([0.7, 0.1, 0.1, 0.1]) {
        state.current_share = share(x);
    }
    c.normalize_shares();
    assert_eq!(c.class_states[0].current_share, share(0.7));
    // minimums far above the whole leave nothing to the largest
    for config in c.config.share_configs.iter_mut() {
        *config = ShareConfig::new(1000, 1000, 1000, 1100, 900, 990);
    }
    for state in c.get_all_class_states_mut() {
        state.current_share = share(0.5);
    }
    c.normalize_shares();
    let shares: Vec<u64> = c.class_states.iter().map(|s| s.current_share).collect();
    assert_eq!(shares, [ONE, ONE, ONE, 0]);
}

fn metrics(class_id: u32, latency: u64, milli: u64) -> ClassMetrics {
    let mut m = ClassMetrics::new(class_id);
    m.sample_count = 5;
    m.total_latency_ns = latency * 5;
    m.avg_latency_ns = latency;
    m.max_latency_ns = latency * 2;
    m.load = load(milli);
    m
}

#[test]
fn test_handle_starvation() {
    let mut config = AutorateConfig::default();
    config.share_configs[0] = ShareConfig::new(150, 250, 400, 1080, 850, 980);
    config.share_configs[2] = ShareConfig::new(200, 350, 600, 1100, 800, 980);
    let mut controller = AutorateController::new(4, &config, 0);
    {
        let state = controller.get_class_autorate_state_mut(2).unwrap();
        state.load = load(950);
        state.current_share = share(0.50);
    }
    {
        let state = controller.get_class_autorate_state_mut(0).unwrap();
        state.load = load(50);
        state.delay_delta_ns = BUFFERBLOAT_THRESHOLD_NS + 1000;
        state.measured_latency_ns = 5000_000;
        state.current_share = share(0.20);
    }
    let m = [metrics(0, 5000_000, 50), metrics(2, 1000_000, 950)];
    controller.calculate_delay_deltas(&m);
    controller.handle_starvation(0, 1);
    let hog = controller.get_class_autorate_state(2).unwrap();
    assert!(hog.current_share < share(0.50));
    assert_eq!(hog.current_share, share(0.40));
    assert_eq!(hog.state, AutorateState::BackingOff);
    let lc = controller.get_class_autorate_state(0).unwrap();
    assert!(lc.current_share > share(0.20));
    assert_eq!(lc.current_share, share(0.24));
    assert_eq!(lc.state, AutorateState::Exploring);
    assert_eq!(controller.get_controlling_class(), Some(0));
    assert_eq!(controller.get_backed_off_class(), Some(2));
    assert_eq!((controller.stats.adjustments_up, controller.stats.adjustments_down), (1, 1));
}

#[test]
fn starvation_without_a_controller() {
    let mut controller = controller();
    controller.get_class_autorate_state_mut(2).unwrap().load = load(600);
    controller.handle_starvation(0, 1);
    assert_eq!(controller.get_class_autorate_state(0).unwrap().current_share, share(0.30));
    assert_eq!(controller.get_class_autorate_state(2).unwrap().current_share, share(0.35));
    assert_eq!(controller.get_backed_off_class(), None);
    assert_eq!((controller.stats.adjustments_up, controller.stats.adjustments_down), (1, 0));
}

#[test]
fn observed_metrics_and_starvation() {
    let mut controller = controller();
    controller.observe_metrics(
        &[metrics(0, 10_000_000, 600), metrics(7, 1, 1), metrics(1, 2_000_000, 100)],
        50,
    );
    let critical = controller.get_class_autorate_state(0).unwrap();
    // under load the baseline stays at 1 ms
    assert_eq!(critical.latency_baseline.baseline_ns, 1_000_000);
    assert_eq!(critical.delay_delta_ns, 9_000_000);
    let normal = controller.get_class_autorate_state(1).unwrap();
    assert_eq!(normal.latency_baseline.baseline_ns, 1_200_000);
    assert_eq!(normal.latency_baseline.last_update_ns, 50);
    assert_eq!(controller.find_starved_class(), Some(0));
}

#[test]
fn readings_move_shares() {
    let mut c = controller();
    let at = |c: &AutorateController| {
        let s = c.get_class_autorate_state(1).unwrap();
        (s.state, s.current_share)
    };
    // first reading of high load: still idle, at the base share
    c.normal_share_adjustment(&[metrics(1, 0, 800), metrics(9, 0, 800)], 1);
    assert_eq!(at(&c), (AutorateState::Idle, share(0.25)));
    // second one: exploring
    c.normal_share_adjustment(&[metrics(1, 0, 800)], 2);
    assert_eq!(at(&c), (AutorateState::Exploring, share(0.2625)));
    // moderate load near the largest share: steady after two readings
    c.get_class_autorate_state_mut(1).unwrap().current_share = share(0.34);
    c.normal_share_adjustment(&[metrics(1, 0, 500)], 3);
    assert_eq!(at(&c), (AutorateState::Exploring, share(0.35)));
    c.normal_share_adjustment(&[metrics(1, 0, 500)], 4);
    assert_eq!(at(&c), (AutorateState::Steady, share(0.35)));
    // high delay: backing off after two readings
    c.get_class_autorate_state_mut(1).unwrap().delay_delta_ns = 3_000_000;
    c.normal_share_adjustment(&[metrics(1, 0, 500)], 5);
    assert_eq!(at(&c), (AutorateState::Steady, share(0.35)));
    c.normal_share_adjustment(&[metrics(1, 0, 500)], 6);
    assert_eq!(at(&c), (AutorateState::BackingOff, share(0.2975)));
}

#[test]
fn far_from_the_largest_share_exploring_goes_on() {
    let mut c = controller();
    c.get_class_autorate_state_mut(1).unwrap().transition_to(AutorateState::Exploring, 0);
    for now in 1..4 {
        c.normal_share_adjustment(&[metrics(1, 0, 500)], now);
    }
    assert_eq!(c.get_class_autorate_state(1).unwrap().state, AutorateState::Exploring);
}

#[test]
fn updates_of_one_class() {
    let mut c = controller();
    c.config.min_params[1] = [100_000, 500_000, 512, 50, 10_000];
    c.config.baseline_params[1] = [500_000, 2_000_000, 1024, 100, 50_000];
    c.config.max_params[1] = [1_000_000, 5_000_000, 2048, 150, 100_000];
    c.config.baseline_params[3] = [7; 5];
    assert_eq!(c.update(9, 1, 1, load(0), 5, 1), ([7; 5], AutorateState::Steady));
    // at the base share of 0.25, halfway between 0.15 and 0.35
    let (params, state) = c.update(1, 1_000_000, 5, load(100), 5, 1);
    assert_eq!(params, c.config.baseline_params[1]);
    assert_eq!(state, AutorateState::Idle);
    assert_eq!(c.stats.baseline_updates, 1);
    assert_eq!(c.get_class_autorate_state(1).unwrap().target_latency_ns, 5);
    // starved, with a class under high load
    c.get_class_autorate_state_mut(2).unwrap().load = load(900);
    c.update(0, 50_000_000, 5, load(500), 5, 2);
    assert_eq!(c.get_class_autorate_state(0).unwrap().current_share, share(0.30));
    assert_eq!(c.get_class_autorate_state(2).unwrap().current_share, share(0.28));
    assert_eq!(c.get_class_autorate_state(0).unwrap().pending_state, AutorateState::Exploring);
    c.update_with_metrics_single(&metrics(3, 10_000_000, 100), 3);
    assert_eq!(c.get_class_autorate_state(3).unwrap().target_latency_ns, 50_000_000);
    assert!(c.get_class_state(3).is_none());
    c.config.enabled = false;
    c.get_class_autorate_state_mut(1).unwrap().current_share = share(0.35);
    assert_eq!(c.update(1, 50_000_000, 5, load(500), 5, 2).0, c.config.baseline_params[1]);
    assert_eq!(c.get_params_for_class(1), [100_000, 5_000_000, 512, 150, 100_000]);
    assert_eq!(c.get_params_for_class(9), [7; 5]);
}

#[test]
fn updates_while_off_need_no_order() {
    let mut c = controller();
    c.config.enabled = false;
    c.config.share_configs[1] = ShareConfig::new(900, 500, 100, 1100, 900, 990);
    c.stats.adjustments_up = u64::MAX;
    c.stats.adjustments_down = u64::MAX;
    let (params, _) = c.update(1, 1_000_000, 5, load(100), 5, 1);
    assert_eq!(params, c.config.baseline_params[1]);
    assert_eq!(c.stats.baseline_updates, 1);
    assert_eq!(c.get_class_autorate_state(1).unwrap().target_latency_ns, 5);
}

fn with_params(config: &mut AutorateConfig) {
    for class_idx in 0..DESCENT_CLASS_MAX {
        config.min_params[class_idx] = [100_000, 500_000, 512, 50, 10_000];
        config.baseline_params[class_idx] = [500_000, 2_000_000, 1024, 100, 50_000];
        config.max_params[class_idx] = [1_000_000, 5_000_000, 2048, 150, 100_000];
    }
}

fn full_metrics(class_id: u32, cycles: u64, count: u64, avg: u64, max: u64, milli: u64) -> ClassMetrics {
    ClassMetrics {
        class_id,
        cycles_spent: cycles,
        sample_count: count,
        total_latency_ns: avg * count,
        avg_latency_ns: avg,
        max_latency_ns: max,
        load: load(milli),
        delay_delta_ns: 0,
    }
}

#[test]
fn test_update_with_metrics_integration() {
    let mut config = AutorateConfig::default();
    with_params(&mut config);
    let mut controller = AutorateController::new(4, &config, 0);
    let metrics = [
        full_metrics(0, 1000, 10, 1500_000, 3000_000, 800),
        full_metrics(1, 500, 8, 2000_000, 4000_000, 400),
        full_metrics(2, 2000, 15, 3000_000, 5000_000, 900),
        full_metrics(3, 100, 5, 8000_000, 10000_000, 100),
    ];
    let params = controller.update_with_metrics(&metrics, 1);
    assert_eq!(params.len(), DESCENT_CLASS_MAX);
    for class_idx in 0..DESCENT_CLASS_MAX {
        assert_eq!(params[class_idx].len(), PARAM_COUNT);
    }
    assert!((total(&controller) - 1.0).abs() < 0.01);
    let base = |i: usize| share_from_milli(config.share_configs[i].base_share);
    let state0 = controller.get_class_autorate_state(0).unwrap();
    let state2 = controller.get_class_autorate_state(2).unwrap();
    assert!(state0.current_share >= base(0));
    assert!(state2.current_share >= base(2));
    let state3 = controller.get_class_autorate_state(3).unwrap();
    assert!(state3.current_share <= share_from_milli(config.share_configs[3].max_share));
}

#[test]
fn test_hog_backs_off_when_latency_critical_starved() {
    let mut config = AutorateConfig::default();
    config.share_configs[0] = ShareConfig::new(150, 250, 400, 1080, 850, 980);
    config.share_configs[2] = ShareConfig::new(200, 350, 600, 1100, 800, 980);
    with_params(&mut config);
    let mut controller = AutorateController::new(4, &config, 0);
    let metrics = vec![
        full_metrics(0, 100, 5, 10_000_000, 15_000_000, 50),
        full_metrics(1, 500, 8, 2000_000, 3000_000, 300),
        full_metrics(2, 10000, 50, 1000_000, 2000_000, 950),
        full_metrics(3, 50, 3, 5000_000, 8000_000, 50),
    ];
    controller.force_baseline_update(0, 1000_000, 1);
    let _params = controller.update_with_metrics(&metrics, 2);
    let hog_state = controller.get_class_autorate_state(2).unwrap();
    let hog_config = controller.get_share_config(2).unwrap();
    assert!(
        hog_state.current_share < share_from_milli(hog_config.base_share)
            || value(hog_state.load) > 0.90,
        "HOG should have been backed off or still has high load"
    );
    let lc_state = controller.get_class_autorate_state(0).unwrap();
    let lc_config = controller.get_share_config(0).unwrap();
    assert!(
        lc_state.current_share >= share_from_milli(lc_config.base_share)
            || lc_state.delay_delta_ns > BUFFERBLOAT_THRESHOLD_NS,
        "LATENCY_CRITICAL should have been boosted or shows high delay"
    );
    assert_eq!(hog_state.state, AutorateState::BackingOff);
    assert_eq!(controller.stats.backed_off_class, Some(2));
}

#[test]
fn test_shares_normalize_to_1_0() {
    let mut config = AutorateConfig::default();
    for class_idx in 0..DESCENT_CLASS_MAX {
        config.min_params[class_idx] = [100_000; PARAM_COUNT];
        config.baseline_params[class_idx] = [500_000; PARAM_COUNT];
        config.max_params[class_idx] = [1_000_000; PARAM_COUNT];
    }
    let mut controller = AutorateController::new(4, &config, 0);
    let metrics: Vec<ClassMetrics> = (0..DESCENT_CLASS_MAX as u32)
        .map(|class_id| full_metrics(class_id, 1000, 10, 2000_000, 4000_000, 500))
        .collect();
    let _params = controller.update_with_metrics(&metrics, 1);
    let sum = total(&controller);
    assert!((sum - 1.0).abs() < 0.001, "Shares should sum to 1.0, got {}", sum);
    let mean = controller.get_stats().avg_share as f64 / 1e9;
    assert!((mean - sum / 4.0).abs() < 1e-6);
}

fn map(x: f64, ends: (f64, f64, f64), values: (u64, u64, u64), mapping: Mapping) -> u64 {
    controller().map_share_to_param(
        share(x),
        share(ends.0),
        share(ends.1),
        share(ends.2),
        values.0,
        values.1,
        values.2,
        mapping,
    )
}

const VALUES: (u64, u64, u64) = (100, 500, 1000);

#[test]
fn test_map_share_to_param_direct() {
    let ends = (0.2, 0.5, 0.8);
    assert_eq!(map(0.2, ends, VALUES, Mapping::Direct), 100);
    assert_eq!(map(0.8, ends, VALUES, Mapping::Direct), 1000);
    assert_eq!(map(0.5, ends, VALUES, Mapping::Direct), 500);
}

#[test]
fn test_map_share_to_param_inverse() {
    let ends = (0.2, 0.5, 0.8);
    assert_eq!(map(0.2, ends, VALUES, Mapping::Inverse), 1000);
    assert_eq!(map(0.8, ends, VALUES, Mapping::Inverse), 100);
    assert_eq!(map(0.5, ends, VALUES, Mapping::Inverse), 500);
}

#[test]
fn test_map_share_to_param_midpoints_direct() {
    let ends = (0.0, 0.5, 1.0);
    assert_eq!(map(0.25, ends, VALUES, Mapping::Direct), 300);
    assert_eq!(map(0.75, ends, VALUES, Mapping::Direct), 750);
}

#[test]
fn test_map_share_to_param_midpoints_inverse() {
    let ends = (0.0, 0.5, 1.0);
    assert_eq!(map(0.25, ends, VALUES, Mapping::Inverse), 750);
    assert_eq!(map(0.75, ends, VALUES, Mapping::Inverse), 300);
}

#[test]
fn test_map_share_to_param_edge_case_min_equals_max() {
    assert_eq!(map(0.5, (0.5, 0.5, 0.5), VALUES, Mapping::Direct), 500);
}

#[test]
fn test_map_share_to_param_clamping() {
    let ends = (0.2, 0.5, 0.8);
    assert_eq!(map(0.0, ends, VALUES, Mapping::Direct), 100);
    assert_eq!(map(1.0, ends, VALUES, Mapping::Direct), 1000);
}

#[test]
fn values_are_rounded() {
    // a third of the way from 0 to 10 and from 10 to 20
    assert_eq!(map(0.1666, (0.0, 0.5, 1.0), (0, 10, 20), Mapping::Direct), 3);
    assert_eq!(map(0.1, (0.0, 0.5, 1.0), (0, 5, 20), Mapping::Direct), 1);
    assert_eq!(map(0.05, (0.0, 0.5, 1.0), (0, 5, 20), Mapping::Direct), 1);
    assert_eq!(map(0.04, (0.0, 0.5, 1.0), (0, 5, 20), Mapping::Direct), 0);
    // falling values are in order
    assert_eq!(map(0.25, (0.0, 0.5, 1.0), (20, 10, 0), Mapping::Direct), 15);
}

const PARAM_LATENCY_WEIGHT: usize = 0;
const PARAM_BASE_SLICE_NS: usize = 1;
const PARAM_VRUNTIME_SCALE: usize = 2;
const PARAM_PREEMPTION_PRIORITY: usize = 3;
const PARAM_MIGRATION_COST: usize = 4;

fn class_0_params(config: &mut AutorateConfig) {
    config.min_params[0] = [100_000, 500_000, 512, 50, 10_000];
    config.baseline_params[0] = [500_000, 2_000_000, 1024, 100, 50_000];
    config.max_params[0] = [1_000_000, 5_000_000, 2048, 200, 100_000];
}

#[test]
fn test_calculate_param_latency_weight() {
    let mut config = AutorateConfig::default();
    class_0_params(&mut config);
    config.share_configs[0] = ShareConfig::new(0, 500, 1000, 1100, 900, 990);
    let mut controller = AutorateController::new(4, &config, 0);
    controller.class_states[0].current_share = share(0.0);
    let min_share_result = controller.calculate_param(0, PARAM_LATENCY_WEIGHT, share(0.0));
    controller.class_states[0].current_share = share(1.0);
    let max_share_result = controller.calculate_param(0, PARAM_LATENCY_WEIGHT, share(1.0));
    assert!(max_share_result < min_share_result);
    controller.class_states[0].current_share = share(0.5);
    let base_result = controller.calculate_param(0, PARAM_LATENCY_WEIGHT, share(0.5));
    assert_eq!(base_result, config.baseline_params[0][PARAM_LATENCY_WEIGHT]);
}

#[test]
fn test_calculate_param_base_slice() {
    let mut config = AutorateConfig::default();
    class_0_params(&mut config);
    config.share_configs[0] = ShareConfig::new(0, 500, 1000, 1100, 900, 990);
    let mut controller = AutorateController::new(4, &config, 0);
    controller.class_states[0].current_share = share(0.0);
    let min_result = controller.calculate_param(0, PARAM_BASE_SLICE_NS, share(0.0));
    assert_eq!(min_result, config.min_params[0][PARAM_BASE_SLICE_NS]);
    controller.class_states[0].current_share = share(1.0);
    let max_result = controller.calculate_param(0, PARAM_BASE_SLICE_NS, share(1.0));
    assert_eq!(max_result, config.max_params[0][PARAM_BASE_SLICE_NS]);
    controller.class_states[0].current_share = share(0.5);
    let base_result = controller.calculate_param(0, PARAM_BASE_SLICE_NS, share(0.5));
    assert_eq!(base_result, config.baseline_params[0][PARAM_BASE_SLICE_NS]);
    assert!(max_result > min_result);
}

#[test]
fn test_calculate_param_vruntime_scale() {
    let mut config = AutorateConfig::default();
    class_0_params(&mut config);
    let controller = AutorateController::new(4, &config, 0);
    let min_share = share_from_milli(config.share_configs[0].min_share);
    let max_share = share_from_milli(config.share_configs[0].max_share);
    let min_result = controller.calculate_param(0, PARAM_VRUNTIME_SCALE, min_share);
    let max_result = controller.calculate_param(0, PARAM_VRUNTIME_SCALE, max_share);
    assert!(max_result < min_result);
}

#[test]
fn test_calculate_param_preemption_priority() {
    let mut config = AutorateConfig::default();
    class_0_params(&mut config);
    let controller = AutorateController::new(4, &config, 0);
    let min_share = share_from_milli(config.share_configs[0].min_share);
    let max_share = share_from_milli(config.share_configs[0].max_share);
    let min_result = controller.calculate_param(0, PARAM_PREEMPTION_PRIORITY, min_share);
    assert_eq!(min_result, config.min_params[0][PARAM_PREEMPTION_PRIORITY]);
    let max_result = controller.calculate_param(0, PARAM_PREEMPTION_PRIORITY, max_share);
    assert_eq!(max_result, config.max_params[0][PARAM_PREEMPTION_PRIORITY]);
    assert!(max_result > min_result);
}

#[test]
fn test_calculate_param_migration_cost() {
    let mut config = AutorateConfig::default();
    class_0_params(&mut config);
    let controller = AutorateController::new(4, &config, 0);
    let min_share = share_from_milli(config.share_configs[0].min_share);
    let max_share = share_from_milli(config.share_configs[0].max_share);
    let min_result = controller.calculate_param(0, PARAM_MIGRATION_COST, min_share);
    assert_eq!(min_result, config.min_params[0][PARAM_MIGRATION_COST]);
    let max_result = controller.calculate_param(0, PARAM_MIGRATION_COST, max_share);
    assert_eq!(max_result, config.max_params[0][PARAM_MIGRATION_COST]);
    assert!(max_result > min_result);
}

#[test]
fn test_calculate_param_invalid_class() {
    assert_eq!(controller().calculate_param(99, PARAM_LATENCY_WEIGHT, share(0.5)), 0);
}

#[test]
fn test_calculate_param_invalid_param_idx() {
    assert_eq!(controller().calculate_param(0, 10, share(0.5)), 0);
}

#[test]
fn test_calculate_parameters() {
    let mut config = AutorateConfig::default();
    for class_idx in 0..DESCENT_CLASS_MAX {
        let n = (class_idx + 1) as u64;
        config.min_params[class_idx] = [100_000 * n, 500_000 * n, 512 * n, 50 * n, 10_000 * n];
        config.baseline_params[class_idx] =
            [500_000 * n, 2_000_000 * n, 1024 * n, 100 * n, 50_000 * n];
        config.max_params[class_idx] =
            [1_000_000 * n, 5_000_000 * n, 2048 * n, 150 * n, 100_000 * n];
        config.share_configs[class_idx] = ShareConfig::new(0, 500, 1000, 1100, 900, 990);
    }
    let mut controller = AutorateController::new(4, &config, 0);
    for class_idx in 0..DESCENT_CLASS_MAX {
        controller.class_states[class_idx].current_share = share(0.5);
    }
    let params = controller.calculate_parameters();
    assert_eq!(params.len(), DESCENT_CLASS_MAX);
    for class_idx in 0..DESCENT_CLASS_MAX {
        assert_eq!(params[class_idx].len(), PARAM_COUNT);
    }
    assert!(params[0][PARAM_LATENCY_WEIGHT] < params[3][PARAM_LATENCY_WEIGHT]);
    assert!(params[0][PARAM_BASE_SLICE_NS] < params[3][PARAM_BASE_SLICE_NS]);
    for class_idx in 0..DESCENT_CLASS_MAX {
        let baseline_val = config.baseline_params[class_idx][PARAM_BASE_SLICE_NS];
        let calculated_val = params[class_idx][PARAM_BASE_SLICE_NS];
        assert_eq!(calculated_val, baseline_val);
    }
}

#[test]
fn test_calculate_parameters_returns_correct_array_type() {
    let mut config = AutorateConfig::default();
    for class_idx in 0..DESCENT_CLASS_MAX {
        config.min_params[class_idx] = [100_000; PARAM_COUNT];
        config.baseline_params[class_idx] = [500_000; PARAM_COUNT];
        config.max_params[class_idx] = [1_000_000; PARAM_COUNT];
    }
    let controller = AutorateController::new(4, &config, 0);
    let params = controller.calculate_parameters();
    let _first_class_params: [u64; 5] = params[0];
    let _all_params: [[u64; 5]; 4] = params;
    for class_idx in 0..DESCENT_CLASS_MAX {
        for param_idx in 0..PARAM_COUNT {
            assert!(params[class_idx][param_idx] > 0);
        }
    }
}

#[test]
fn test_share_mapping_bounds() {
    let mut config = AutorateConfig::default();
    for class_idx in 0..DESCENT_CLASS_MAX {
        config.min_params[class_idx] = [100; PARAM_COUNT];
        config.baseline_params[class_idx] = [500; PARAM_COUNT];
        config.max_params[class_idx] = [1000; PARAM_COUNT];
    }
    let controller = AutorateController::new(4, &config, 0);
    for class_idx in 0..DESCENT_CLASS_MAX {
        let min_share = share_from_milli(config.share_configs[class_idx].min_share);
        let class = class_idx as u32;
        assert_eq!(controller.calculate_param(class, PARAM_LATENCY_WEIGHT, min_share), 1000);
        assert_eq!(controller.calculate_param(class, PARAM_BASE_SLICE_NS, min_share), 100);
        assert_eq!(controller.calculate_param(class, PARAM_VRUNTIME_SCALE, min_share), 1000);
        assert_eq!(controller.calculate_param(class, PARAM_PREEMPTION_PRIORITY, min_share), 100);
        assert_eq!(controller.calculate_param(class, PARAM_MIGRATION_COST, min_share), 100);
    }
    for class_idx in 0..DESCENT_CLASS_MAX {
        let max_share = share_from_milli(config.share_configs[class_idx].max_share);
        let class = class_idx as u32;
        assert_eq!(controller.calculate_param(class, PARAM_LATENCY_WEIGHT, max_share), 100);
        assert_eq!(controller.calculate_param(class, PARAM_BASE_SLICE_NS, max_share), 1000);
        assert_eq!(controller.calculate_param(class, PARAM_VRUNTIME_SCALE, max_share), 100);
        assert_eq!(controller.calculate_param(class, PARAM_PREEMPTION_PRIORITY, max_share), 1000);
        assert_eq!(controller.calculate_param(class, PARAM_MIGRATION_COST, max_share), 1000);
    }
}

#[test]
fn rates_between_parameters() {
    let mut config = AutorateConfig::default();
    class_0_params(&mut config);
    let c = AutorateController::new(4, &config, 0);
    assert_eq!(c.interpolate_params(load(0), 0), config.min_params[0]);
    assert_eq!(c.interpolate_params(load(500), 0), config.baseline_params[0]);
    assert_eq!(c.interpolate_params(load(1000), 0), config.max_params[0]);
    assert_eq!(c.interpolate_params(load(250), 0), [300_000, 1_250_000, 768, 75, 30_000]);
    assert_eq!(c.interpolate_params(load(250), 4), [0; 5]);
}

#[test]
fn autorate_report() {
    let mut c = controller();
    c.get_class_autorate_state_mut(2).unwrap().load = Ratio { num: 2, den: 3 };
    c.get_class_autorate_state_mut(2).unwrap().transition_to(AutorateState::BackingOff, 1);
    c.get_class_autorate_state_mut(0).unwrap().current_share = 123_456_789;
    let text = autorate_debug_text(&c, &[(1, 2), (3, 4), (5, 6), (7, 8)]);
    let expected = "Global: 4 classes, 0 up, 0 down, 0 blocked, avg_rate=0.21\n\
                    \x20 Class 0 (LATENCY_CRITICAL): state=IDLE rate=0.123 load=0.0000 (0.00%)\n\
                    \x20 Class 1 (NORMAL): state=IDLE rate=0.250 load=0.0000 (0.00%)\n\
                    \x20 Class 2 (HOG): state=BACKING_OFF rate=0.350 load=0.6667 (66.67%)\n\
                    \x20 Class 3 (BACKGROUND): state=IDLE rate=0.100 load=0.0000 (0.00%)\n\
                    \n\
                    \x20 Raw load metrics from BPF:\n\
                    \x20   Class 0 (LATENCY_CRITICAL): cycles=1 samples=2\n\
                    \x20   Class 1 (NORMAL): cycles=3 samples=4\n\
                    \x20   Class 2 (HOG): cycles=5 samples=6\n\
                    \x20   Class 3 (BACKGROUND): cycles=7 samples=8\n";
    assert_eq!(text, expected);
}

#[test]
fn parameters_follow_shares() {
    let mut config = AutorateConfig::default();
    class_0_params(&mut config);
    let mut c = AutorateController::new(4, &config, 0);
    let mut before: Option<[u64; 5]> = None;
    for milli in (0..=1000).step_by(7) {
        c.class_states[0].current_share = share_from_milli(milli);
        let params = c.get_params_for_class(0);
        for p in 0..5 {
            assert!(config.min_params[0][p] <= params[p] && params[p] <= config.max_params[0][p]);
            if let Some(b) = before {
                let inverse = p == PARAM_LATENCY_WEIGHT || p == PARAM_VRUNTIME_SCALE;
                assert!(if inverse { params[p] <= b[p] } else { params[p] >= b[p] });
            }
        }
        before = Some(params);
    }
}

#[test]
fn shares_decay_to_their_base() {
    let config = ShareConfig::new(100, 250, 500, 1100, 900, 900);
    let mut high = share(0.5);
    let mut low = share(0.1);
    for _ in 0..300 {
        let (h, l) = (ShareMove::Decay.apply(&config, high), ShareMove::Decay.apply(&config, low));
        assert!(share(0.25) <= h && h <= high && low <= l && l <= share(0.25));
        (high, low) = (h, l);
    }
    assert!(high - share(0.25) < 20 && share(0.25) - low < 20);
}
