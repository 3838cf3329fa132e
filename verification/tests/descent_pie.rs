use scx_scheds::descent::optimizer_pie::{
    PieConfig, PieController, PieState, DEFAULT_ALPHA_DIV, DEFAULT_MAX_INTEGRAL, EWMA_ALPHA_DEN,
    EWMA_ALPHA_NUM, INTEGRAL_SCALE,
};
use scx_scheds::descent::profiles::{Profile, DESCENT_CLASS_MAX};
use scx_scheds::descent::report::{pie_debug_text, summarize};
use scx_scheds::descent::autorate::AutorateState;
use scx_scheds::descent::autorate_control::AutorateController;
use scx_scheds::descent::autorate_round::autorate_round;
use scx_scheds::descent::rounds::{
    class_reading, class_totals, initial_writes, load_totals, read_latency_metrics,
    read_load_metrics, read_u64, update_pie, ClassTotals, CpuSample, LatencyMetrics, LoadMetrics,
};

#[test]
fn test_pie_controller_creation() {
    let profile = Profile::production();
    let controller = PieController::new(4, &profile);
    let expected_targets = [1_000_000, 5_000_000, 20_000_000, 100_000_000];
    for class in 0..DESCENT_CLASS_MAX as u32 {
        let state = controller.get_state(0, class).unwrap();
        assert_eq!(state.target_latency_ns, expected_targets[class as usize]);
        assert_eq!(state.current_latency_ns, expected_targets[class as usize]);
        assert_eq!(state.integral_accum, 0);
        assert_eq!(state.update_count, 0);
    }
}

#[test]
fn test_pie_controller_creation_gaming() {
    let profile = Profile::gaming();
    let controller = PieController::new(2, &profile);
    let expected_targets = [(0, 500_000), (1, 2_000_000), (3, 50_000_000)];
    for (class, target) in expected_targets {
        let state = controller.get_state(0, class).unwrap();
        assert_eq!(state.target_latency_ns, target);
    }
}

#[test]
fn test_pie_controller_creation_server() {
    let profile = Profile::server();
    let controller = PieController::new(2, &profile);
    let expected_targets = [2_000_000, 10_000_000, 50_000_000, 200_000_000];
    for class in 0..DESCENT_CLASS_MAX as u32 {
        let state = controller.get_state(0, class).unwrap();
        assert_eq!(state.target_latency_ns, expected_targets[class as usize]);
    }
}

#[test]
fn test_pie_update_latency_too_high() {
    let profile = Profile::production();
    let mut controller = PieController::new(1, &profile);
    let class = 1u32;
    let config = PieConfig::from_profile(&profile);
    let target = config.get_target_latency(class);
    let initial_params = controller.get_state(0, class).unwrap().current_params;
    let high_latency = target * 2;
    let new_params = controller.update(0, class, high_latency);
    if new_params[1] < initial_params[1] {
        assert!(new_params[0] < initial_params[0]);
    } else {
        let state = controller.get_state(0, class).unwrap();
        assert_eq!(state.update_count, 1);
    }
    let state = controller.get_state(0, class).unwrap();
    assert_eq!(state.update_count, 1);
}

#[test]
fn test_pie_update_latency_too_low() {
    let profile = Profile::production();
    let mut controller = PieController::new(1, &profile);
    let class = 1u32;
    let config = PieConfig::from_profile(&profile);
    let target = config.get_target_latency(class);
    let initial_params = controller.get_state(0, class).unwrap().current_params;
    let low_latency = target / 2;
    let new_params = controller.update(0, class, low_latency);
    assert!(new_params[1] > initial_params[1]);
    let bounds = profile.get_bounds(class as usize, 0);
    if initial_params[0] < bounds.1 {
        assert!(new_params[0] >= initial_params[0]);
    }
    let state = controller.get_state(0, class).unwrap();
    assert_eq!(state.update_count, 1);
}

#[test]
fn test_integral_windup_protection() {
    let profile = Profile::production();
    let mut controller = PieController::new(1, &profile);
    let class = 1u32;
    let config = PieConfig::from_profile(&profile);
    let target = config.get_target_latency(class);
    for _ in 0..100 {
        let _ = controller.update(0, class, target * 10);
    }
    let state = controller.get_state(0, class).unwrap();
    assert!(state.integral_accum.abs() <= DEFAULT_MAX_INTEGRAL);
}

#[test]
fn test_parameter_bounds_enforcement() {
    let profile = Profile::production();
    let mut controller = PieController::new(1, &profile);
    let class = 1u32;
    let bounds = profile.bounds[class as usize];
    for i in 0..50 {
        if i % 2 == 0 {
            let _ = controller.update(0, class, 1_000_000_000);
        } else {
            let _ = controller.update(0, class, 1);
        }
    }
    let state = controller.get_state(0, class).unwrap();
    let params = state.current_params;
    for (idx, &value) in params.iter().enumerate() {
        let (min, max) = bounds[idx];
        assert!(value >= min && value <= max);
    }
}

#[test]
fn test_ewma_latency_calculation() {
    let profile = Profile::production();
    let mut controller = PieController::new(1, &profile);
    let class = 1u32;
    let config = PieConfig::from_profile(&profile);
    let target = config.get_target_latency(class);
    let _ = controller.update(0, class, target * 2);
    let state1 = *controller.get_state(0, class).unwrap();
    let expected_ewma = (EWMA_ALPHA_NUM * target * 2
        + (EWMA_ALPHA_DEN - EWMA_ALPHA_NUM) * target)
        / EWMA_ALPHA_DEN;
    assert_eq!(state1.current_latency_ns, expected_ewma);
    let _ = controller.update(0, class, target);
    let state2 = controller.get_state(0, class).unwrap();
    let expected_ewma2 = (EWMA_ALPHA_NUM * target
        + (EWMA_ALPHA_DEN - EWMA_ALPHA_NUM) * expected_ewma)
        / EWMA_ALPHA_DEN;
    assert_eq!(state2.current_latency_ns, expected_ewma2);
}

#[test]
fn test_pie_convergence() {
    let profile = Profile::production();
    let mut controller = PieController::new(1, &profile);
    let class = 1u32;
    let config = PieConfig::from_profile(&profile);
    let target = config.get_target_latency(class);
    let mut current_latency = target * 3;
    let mut last_error = (current_latency as i64 - target as i64).abs();
    for i in 0..50 {
        let params = controller.update(0, class, current_latency);
        let state = controller.get_state(0, class).unwrap();
        let current_error = (state.current_latency_ns as i64 - target as i64).abs();
        let slice_ns = params[1];
        let latency_factor = (slice_ns as f64 / target as f64).min(3.0);
        current_latency = (target as f64 * (0.5 + latency_factor * 0.5)) as u64;
        if i > 10 {
            assert!(current_error <= last_error * 12 / 10);
        }
        last_error = current_error;
    }
    let final_state = controller.get_state(0, class).unwrap();
    let final_error = (final_state.current_latency_ns as i64 - target as i64).abs();
    assert!(final_error < last_error * 2);
}

#[test]
fn test_pie_config_from_profile() {
    let gaming_config = PieConfig::from_profile(&Profile::gaming());
    let prod_config = PieConfig::from_profile(&Profile::production());
    let server_config = PieConfig::from_profile(&Profile::server());
    assert_eq!(gaming_config.alpha_div, prod_config.alpha_div);
    assert_eq!(gaming_config.beta_div, server_config.beta_div);
    assert!(gaming_config.target_latencies[0] < prod_config.target_latencies[0]);
    assert!(gaming_config.target_latencies[0] < server_config.target_latencies[0]);
    assert!(server_config.target_latencies[0] > prod_config.target_latencies[0]);
}

#[test]
fn test_latency_error_calculation() {
    let profile = Profile::production();
    let mut controller = PieController::new(1, &profile);
    let class = 0u32;
    let config = PieConfig::from_profile(&profile);
    let target = config.get_target_latency(class);
    let measured = target * 2;
    let _ = controller.update(0, class, measured);
    let state = controller.get_state(0, class).unwrap();
    assert!(state.current_latency_ns >= target && state.current_latency_ns <= measured);
}

#[test]
fn test_preemption_priority_proportional_to_slice() {
    let profile = Profile::production();
    let mut controller = PieController::new(1, &profile);
    let class = 1u32;
    let bounds = profile.bounds[class as usize];
    let preemption_max = bounds[3].1;
    let params = controller.update(0, class, 10_000_000);
    let slice = params[1];
    let preemption = params[3];
    let expected = (slice / 10).min(preemption_max);
    assert_eq!(preemption, expected);
}

#[test]
fn test_integral_accumulator_growth() {
    let profile = Profile::production();
    let mut controller = PieController::new(1, &profile);
    let class = 1u32;
    let config = PieConfig::from_profile(&profile);
    let target = config.get_target_latency(class);
    let _ = controller.update(0, class, target);
    let initial_integral = controller.get_state(0, class).unwrap().integral_accum;
    let _ = controller.update(0, class, target * 4);
    let _ = controller.update(0, class, target * 4);
    let state2 = controller.get_state(0, class).unwrap();
    assert!(state2.integral_accum.abs() > initial_integral.abs() || state2.integral_accum == 0);
}

#[test]
fn test_p_term_and_i_term_calculation() {
    let profile = Profile::production();
    let mut controller = PieController::new(1, &profile);
    let class = 1u32;
    let config = PieConfig::from_profile(&profile);
    let target = config.get_target_latency(class);
    let measured = target * 2;
    let _ = controller.update(0, class, measured);
    let state = controller.get_state(0, class).unwrap();
    let p_term = (state.current_latency_ns as i64 - target as i64) / DEFAULT_ALPHA_DIV as i64;
    assert!(p_term > 0);
    let i_term = state.integral_accum / INTEGRAL_SCALE;
    assert!(i_term >= 0);
}

#[test]
fn exact_update() {
    let profile = Profile::server();
    let mut controller = PieController::new(1, &profile);
    // EWMA (3 * 20 + 7 * 10) / 10 = 13 ms, integral 3 ms / 4 = 750000,
    // adjustment 3 ms / 8 + 750000 / 1024 = 375000 + 732 = 375732.
    let params = controller.update(0, 1, 20_000_000);
    assert_eq!(params, [1_187_866, 4_624_268, 512, 150, 62_427]);
    let state = controller.get_state(0, 1).unwrap();
    assert_eq!(state.integral_accum, 750_000);
    assert_eq!(state.prev_latency_ns, 10_000_000);
    // other classes and CPUs are as before
    assert_eq!(controller.get_state(0, 2).unwrap().update_count, 0);
}

#[test]
fn updates_without_state() {
    let profile = Profile::server();
    let mut controller = PieController::new(1, &profile);
    assert_eq!(controller.update(1, 0, 5), profile.default_params[0]);
    assert_eq!(controller.update(0, 4, 5), [0; 5]);
    assert!(controller.get_state(1, 0).is_none());
    assert!(controller.get_state(0, 4).is_none());
    assert_eq!(controller.get_default_params(2), profile.default_params[2]);
    assert_eq!(controller.get_default_params(7), [0; 5]);
}

#[test]
fn base_params_are_fine_tuned() {
    let profile = Profile::server();
    let mut a = PieController::new(1, &profile);
    let mut b = PieController::new(1, &profile);
    let base = [2_000_000, 6_000_000, 2000, 100, 200_000];
    let tuned = a.update_with_base_params(0, 1, 20_000_000, base);
    let plain = b.update(0, 1, 20_000_000);
    assert_ne!(tuned, plain);
    assert_eq!(tuned[1], 6_000_000 - 375_732);
}

#[test]
fn pie_states() {
    let mut s = PieState::new(1000, [1, 2, 3, 4, 5]);
    assert_eq!((s.current_latency_ns, s.prev_latency_ns), (1000, 1000));
    s.update_ewma(2000);
    assert_eq!((s.current_latency_ns, s.prev_latency_ns), (1300, 1000));
}

#[test]
fn pie_config_lookups() {
    let config = PieConfig::from_profile(&Profile::gaming());
    assert_eq!(config.get_target_latency(0), 500_000);
    assert_eq!(config.get_target_latency(4), 0);
    assert_eq!(config.get_default_params(4), [0; 5]);
    assert_eq!(config.get_default_params(3), Profile::gaming().default_params[3]);
}

#[test]
fn clamping_is_recorded() {
    let profile = Profile::production();
    let mut controller = PieController::new(1, &profile);
    controller.set_bound_debugging(true);
    let r = controller.clamp_params_with_debug(1, [1, 5_000_000, 1500, 100, 600_000], 0, -7);
    assert_eq!(r, [500_000, 5_000_000, 1500, 100, 500_000]);
    let d = controller.bound_debugger().unwrap();
    let low = d.get_stats(0, 1, 0).unwrap();
    assert_eq!((low.min_hits, low.max_hits, low.total_updates), (1, 0, 1));
    assert_eq!(low.latency_error_at_min, -7);
    let free = d.get_stats(0, 1, 1).unwrap();
    assert_eq!((free.min_hits, free.max_hits, free.total_updates), (0, 0, 1));
    let high = d.get_stats(0, 1, 4).unwrap();
    assert_eq!((high.min_hits, high.max_hits, high.total_updates), (0, 1, 1));
    assert_eq!(controller.clamp_params_with_debug(9, [1, 2, 3, 4, 5], 0, 0), [1, 2, 3, 4, 5]);
}

#[test]
fn updates_are_recorded_while_debugging() {
    let profile = Profile::production();
    let mut controller = PieController::new(1, &profile);
    let _ = controller.update(0, 0, 1);
    assert!(controller.bound_debugger().unwrap().get_stats(0, 0, 0).is_none());
    controller.set_bound_debugging(true);
    let _ = controller.update(0, 0, 1);
    assert_eq!(controller.bound_debugger().unwrap().get_stats(0, 0, 0).unwrap().total_updates, 1);
}

#[test]
fn updates_record_hits() {
    let profile = Profile::production();
    let mut controller = PieController::new(1, &profile);
    controller.set_bound_debugging(true);
    // far above the target: after a while each slice wants to fall below its bound
    for _ in 0..200 {
        let _ = controller.update(0, 1, 1_000_000_000);
    }
    let stats = controller.bound_debugger().unwrap().get_stats(0, 1, 1).unwrap();
    assert_eq!(stats.total_updates, 200);
    assert!(stats.min_hits > 0 && stats.max_hits == 0);
    assert_eq!(stats.last_bound_value, profile.bounds[1][1].0);
    assert!(stats.last_clamped_value < stats.last_bound_value);
    assert!(stats.latency_error_at_min != 0);
}

#[test]
fn far_targets_take_ordinary_latencies() {
    let mut profile = Profile::production();
    // 7 parts of this and 3 parts of the largest ordinary latency just fit
    profile.target_latencies_ns[1] = 2_141_139_937_127_001_527;
    let mut controller = PieController::new(1, &profile);
    for n in 1..=50u64 {
        let latency = if n % 2 == 0 { (1 << 60) - 1 } else { 0 };
        let r = controller.update(0, 1, latency);
        let state = controller.get_state(0, 1).unwrap();
        assert_eq!((state.current_params, state.update_count), (r, n));
        assert!(state.integral_accum.abs() <= DEFAULT_MAX_INTEGRAL);
        for (value, (lo, hi)) in r.iter().zip(profile.bounds[1]) {
            assert!(lo <= *value && *value <= hi);
        }
    }
    assert_eq!(controller.update(1, 1, 5), profile.default_params[1]);
    assert_eq!(controller.update(0, 4, 5), [0; 5]);
    assert_eq!(controller.get_state(0, 0).unwrap().update_count, 0);
}

#[test]
fn clamping_twice_records_one_hit() {
    let profile = Profile::production();
    let mut controller = PieController::new(1, &profile);
    controller.set_bound_debugging(true);
    let once = controller.clamp_params_with_debug(1, [1, 5_000_000, 1500, 100, 600_000], 0, 3);
    assert_eq!(controller.clamp_params_with_debug(1, once, 0, 3), once);
    let low = controller.bound_debugger().unwrap().get_stats(0, 1, 0).unwrap();
    assert_eq!((low.min_hits, low.max_hits, low.total_updates), (1, 0, 2));
}

fn le(values: &[u64]) -> Vec<u8> {
    let mut out = Vec::new();
    for v in values {
        out.extend_from_slice(&v.to_le_bytes());
    }
    out
}

#[test]
fn metrics_of_a_cpu() {
    let mut words = vec![0u64; 44];
    // class 1: latencies at byte 184, load at byte 280
    words[23] = 11;
    words[24] = 12;
    words[25] = 13;
    words[35] = 21;
    words[36] = 22;
    words[37] = 0x0102_0304_0506_0708;
    let data = le(&words);
    assert_eq!(
        read_latency_metrics(&data, 1),
        LatencyMetrics { total_latency_ns: 11, max_latency_ns: 12, sample_count: 13 }
    );
    assert_eq!(
        read_load_metrics(&data, 1),
        LoadMetrics { cycles_spent: 21, sample_count: 22, last_update_ns: 0x0102_0304_0506_0708 }
    );
    let none = LatencyMetrics { total_latency_ns: 0, max_latency_ns: 0, sample_count: 0 };
    assert_eq!(read_latency_metrics(&data, 4), none);
    assert_eq!(read_latency_metrics(&data[..183], 0), none);
    assert_eq!(read_load_metrics(&data[..200], 0).cycles_spent, 0);
    assert_eq!(read_u64(&[1, 1]), 0);
    assert_eq!(read_u64(&[0, 1, 0, 0, 0, 0, 0, 0, 9]), 256);
}

fn sample(latency: u64, count: u64, cycles: u64) -> CpuSample {
    CpuSample {
        latency: [LatencyMetrics { total_latency_ns: latency, max_latency_ns: 0, sample_count: count }; 4],
        load: [LoadMetrics { cycles_spent: cycles, sample_count: 0, last_update_ns: 0 }; 4],
    }
}

#[test]
fn totals_and_readings() {
    let samples = [sample(1000, 2, 10), sample(500, 1, 30)];
    let t = class_totals(&samples, 2);
    assert_eq!(t, ClassTotals { latency_ns: 1500, samples: 3, cycles: 40 });
    let (latency, load) = class_reading(&t, 2, 1, 77).unwrap();
    assert_eq!(latency, 500);
    assert_eq!((load.num, load.den), (20, 1_000_000));
    let idle = ClassTotals { latency_ns: 0, samples: 0, cycles: 0 };
    assert!(class_reading(&idle, 2, 1, 77).is_none());
    let busy = ClassTotals { latency_ns: 0, samples: 0, cycles: 9_000_000 };
    let (latency, load) = class_reading(&busy, 2, 1, 77).unwrap();
    assert_eq!((latency, load.num, load.den), (77, 1_000_000, 1_000_000));
    let (_, load) = class_reading(&busy, 0, 1, 77).unwrap();
    assert_eq!(load.num, 0);
}

#[test]
fn rounds_update_what_was_measured() {
    let profile = Profile::server();
    let mut pie = PieController::new(2, &profile);
    let mut measured = sample(0, 0, 0);
    measured.latency[1] = LatencyMetrics { total_latency_ns: 40_000_000, max_latency_ns: 0, sample_count: 2 };
    let samples = [sample(0, 0, 0), measured];
    let writes = update_pie(&mut pie, &samples, &None);
    assert_eq!(writes.len(), 1);
    assert_eq!((writes[0].cpu, writes[0].class), (1, 1));
    assert_eq!(writes[0].params, [1_187_866, 4_624_268, 512, 150, 62_427]);
    assert_eq!(pie.get_state(0, 1).unwrap().update_count, 0);
    assert_eq!(pie.get_state(1, 1).unwrap().update_count, 1);
    let base = [[2_000_000, 6_000_000, 2000, 100, 200_000]; 4];
    let writes = update_pie(&mut pie, &samples, &Some(base));
    assert_eq!(writes.len(), 1);
}

#[test]
fn load_over_cpus() {
    let mut a = sample(0, 0, 10);
    a.load[2] = LoadMetrics { cycles_spent: 7, sample_count: 3, last_update_ns: 0 };
    assert_eq!(load_totals(&[a, sample(0, 0, 30)], 2), (37, 3));
    assert_eq!(load_totals(&[], 2), (0, 0));
}

#[test]
fn first_writes_are_defaults() {
    let profile = Profile::server();
    let pie = PieController::new(2, &profile);
    let writes = initial_writes(&pie, 2);
    assert_eq!(writes.len(), 8);
    assert_eq!((writes[6].cpu, writes[6].class), (1, 2));
    assert_eq!(writes[6].params, profile.default_params[2]);
}

#[test]
fn rounds_of_autorate() {
    let mut profile = Profile::gaming();
    profile.autorate.enabled = true;
    let mut autorate = AutorateController::new(1, &profile.autorate, 0);
    // only the hog ran: 90% of 20 ms
    let mut s = sample(0, 0, 0);
    s.load[2].cycles_spent = 18_000_000;
    let base = autorate_round(&mut autorate, &[s], &profile, 1);
    assert_eq!(base[0], profile.autorate.baseline_params[0]);
    // the base share of 0.35 is 3/8 of the way from 0.20 to 0.60
    assert_eq!(base[2], [2_000_000, 4_500_000, 1_600, 100, 72_500]);
    assert_eq!(autorate.stats.baseline_updates, 1);
    let hog = autorate.get_class_autorate_state(2).unwrap();
    assert_eq!((hog.load.num, hog.load.den), (18_000_000, 20_000_000));
    assert_eq!((hog.state, hog.current_share), (AutorateState::Idle, 350_000_000));
    assert_eq!(hog.measured_latency_ns, profile.target_latencies_ns[2]);
    let none = autorate_round(&mut autorate, &[], &profile, 2);
    assert_eq!(none, profile.autorate.baseline_params);
}

#[test]
fn summaries_of_the_controller() {
    let profile = Profile::server();
    let mut pie = PieController::new(1, &profile);
    let _ = pie.update(0, 1, 20_000_000);
    let s = summarize(&pie, 1);
    assert_eq!((s.states, s.updates), (4, 1));
    // (2 + 13 + 50 + 200) / 4 ms, error 3 / 4 ms, integral 750000 / 1024
    assert_eq!((s.avg_latency_us, s.latency_error_us, s.integral), (66_250, 750, 732));
    let none = summarize(&PieController::new(0, &profile), 0);
    assert_eq!((none.states, none.avg_latency_us, none.latency_error_us), (0, 0, 0));
}

#[test]
fn debug_text_of_the_controller() {
    let profile = Profile::server();
    let mut pie = PieController::new(1, &profile);
    let _ = pie.update(0, 1, 20_000_000);
    let _ = pie.update(0, 0, 0);
    let text = pie_debug_text(&pie, 1);
    assert!(text.starts_with("\nCPU 0:\n  Class 0 (LATENCY_CRITICAL): target=2000µs current=1400µs error=-600µs integral=-146 updates=1\n"));
    assert!(text.contains("  Class 1 (NORMAL): target=10000µs current=13000µs error=3000µs integral=732 updates=1\n    Params: lw=1187866 slice=4624268 scale=512 preempt=150 migrate=62427\n"));
    assert!(text.ends_with("\nGlobal: 4 states, 2 updates\n"));
}
