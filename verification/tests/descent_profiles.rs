use scx_scheds::descent::help::print_profile_help;
use scx_scheds::descent::profiles::{
    Profile, DESCENT_CLASS_BACKGROUND, DESCENT_CLASS_HOG, DESCENT_CLASS_LATENCY_CRITICAL,
    DESCENT_CLASS_MAX, DESCENT_CLASS_NORMAL, PARAM_COUNT,
};
use scx_scheds::descent::setup::{select_profile, Machine, ProfileOverrides};

#[test]
fn test_gaming_profile() {
    let p = Profile::gaming();
    assert_eq!(p.name, "gaming");
    assert_eq!(p.response_ms, 20);
    assert_eq!(p.pie_alpha, 8);
    assert_eq!(p.pie_beta, 4);
}

#[test]
fn test_production_profile() {
    let p = Profile::production();
    assert_eq!(p.name, "production");
    assert_eq!(p.response_ms, 20);
    assert_eq!(p.pie_alpha, 8);
    assert_eq!(p.pie_beta, 4);
}

#[test]
fn test_server_profile() {
    let p = Profile::server();
    assert_eq!(p.name, "server");
    assert_eq!(p.response_ms, 50);
    assert_eq!(p.pie_alpha, 16);
    assert_eq!(p.pie_beta, 8);
}

#[test]
fn test_get_pie_config_helper() {
    let gaming = Profile::gaming();
    let (_, _, max_integral) = gaming.get_pie_config();
    assert_eq!(max_integral, 1_000_000);
    let production = Profile::production();
    let (alpha, beta, max_integral) = production.get_pie_config();
    assert_eq!(alpha, 8);
    assert_eq!(beta, 4);
    assert_eq!(max_integral, 1_000_000);
    let server = Profile::server();
    let (alpha, beta, max_integral) = server.get_pie_config();
    assert_eq!(alpha, 16);
    assert_eq!(beta, 8);
    assert_eq!(max_integral, 1_000_000);
}

#[test]
fn test_display() {
    let p = Profile::gaming();
    let s = p.describe();
    assert!(s.contains("gaming"));
}

#[test]
fn gains_and_interval_of_gaming() {
    let p = Profile::gaming();
    assert_eq!(p.get_pie_config(), (8, 4, 1_000_000));
    let s = p.describe();
    assert!(s.contains("gaming"));
    assert!(s.contains("20ms"));
    assert!(s.contains("α=8"));
    assert!(s.contains("β=4"));
}

#[test]
fn profiles_are_parsed_by_name() {
    assert_eq!("server".parse::<Profile>().unwrap().name, "server");
    assert_eq!(Profile::named("GAMING").unwrap().name, "gaming");
    assert_eq!("x".parse::<Profile>().err().unwrap(), "Unknown profile: x");
}

#[test]
fn test_gaming_target_latencies() {
    let p = Profile::gaming();
    assert_eq!(p.target_latencies_ns[DESCENT_CLASS_LATENCY_CRITICAL], 500_000);
    assert_eq!(p.target_latencies_ns[DESCENT_CLASS_NORMAL], 2_000_000);
    assert_eq!(p.target_latencies_ns[DESCENT_CLASS_HOG], 10_000_000);
    assert_eq!(p.target_latencies_ns[DESCENT_CLASS_BACKGROUND], 50_000_000);
}

#[test]
fn test_production_target_latencies() {
    let p = Profile::production();
    assert_eq!(p.target_latencies_ns[DESCENT_CLASS_LATENCY_CRITICAL], 1_000_000);
    assert_eq!(p.target_latencies_ns[DESCENT_CLASS_NORMAL], 5_000_000);
    assert_eq!(p.target_latencies_ns[DESCENT_CLASS_HOG], 20_000_000);
    assert_eq!(p.target_latencies_ns[DESCENT_CLASS_BACKGROUND], 100_000_000);
}

#[test]
fn test_server_target_latencies() {
    let p = Profile::server();
    assert_eq!(p.target_latencies_ns[DESCENT_CLASS_LATENCY_CRITICAL], 2_000_000);
    assert_eq!(p.target_latencies_ns[DESCENT_CLASS_NORMAL], 10_000_000);
    assert_eq!(p.target_latencies_ns[DESCENT_CLASS_HOG], 50_000_000);
    assert_eq!(p.target_latencies_ns[DESCENT_CLASS_BACKGROUND], 200_000_000);
}

#[test]
fn test_get_target_latency_helper() {
    let gaming = Profile::gaming();
    assert_eq!(gaming.get_target_latency(DESCENT_CLASS_LATENCY_CRITICAL), 500_000);
    assert_eq!(gaming.get_target_latency(DESCENT_CLASS_NORMAL), 2_000_000);
    assert_eq!(gaming.get_target_latency(DESCENT_CLASS_HOG), 10_000_000);
    assert_eq!(gaming.get_target_latency(DESCENT_CLASS_BACKGROUND), 50_000_000);
    assert_eq!(gaming.get_target_latency(99), 2_000_000);
}

#[test]
fn pie_config_of_production_and_server() {
    let production = Profile::production();
    assert_eq!(production.get_pie_config(), (8, 4, 1_000_000));
    let server = Profile::server();
    assert_eq!(server.get_pie_config(), (16, 8, 1_000_000));
}

#[test]
fn test_default_profile() {
    let p = Profile::default();
    assert_eq!(p.name, "production");
}

#[test]
fn test_from_str() {
    assert!(Profile::from_str("gaming").is_some());
    assert!(Profile::from_str("game").is_some());
    assert!(Profile::from_str("production").is_some());
    assert!(Profile::from_str("prod").is_some());
    assert!(Profile::from_str("default").is_some());
    assert!(Profile::from_str("server").is_some());
    assert!(Profile::from_str("srv").is_some());
    assert!(Profile::from_str("unknown").is_none());
}

#[test]
fn profile_names_in_any_case() {
    assert_eq!(Profile::from_str("GAMING").unwrap().name, "gaming");
    assert_eq!(Profile::from_str("Srv").unwrap().name, "server");
    assert_eq!(Profile::from_str("Productivity").unwrap().name, "production");
    assert!(Profile::from_str("").is_none());
    assert!(Profile::from_str("gaming ").is_none());
}

#[test]
fn test_bounds_valid() {
    for profile in [Profile::gaming(), Profile::production(), Profile::server()] {
        for class_id in 0..DESCENT_CLASS_MAX {
            for param_idx in 0..PARAM_COUNT {
                let (min, max) = profile.get_bounds(class_id, param_idx);
                assert!(min <= max);
            }
        }
    }
}

#[test]
fn test_defaults_in_bounds() {
    for profile in [Profile::gaming(), Profile::production(), Profile::server()] {
        for class_id in 0..DESCENT_CLASS_MAX {
            for param_idx in 0..PARAM_COUNT {
                let default = profile.get_default(class_id, param_idx);
                let (min, max) = profile.get_bounds(class_id, param_idx);
                assert!(default >= min && default <= max);
            }
        }
    }
}

#[test]
fn lookups_out_of_range() {
    let p = Profile::server();
    assert_eq!(p.get_bounds(4, 0), (0, u64::MAX));
    assert_eq!(p.get_bounds(0, 5), (0, u64::MAX));
    assert_eq!(p.get_default(4, 0), 0);
    assert_eq!(p.get_default(0, 5), 0);
    assert_eq!(p.get_bounds(0, 1), (500_000, 20_000_000));
    assert_eq!(p.get_default(2, 1), 8_000_000);
}

#[test]
fn profile_descriptions() {
    assert_eq!(
        Profile::gaming().describe(),
        "gaming (response: 20ms, PIE: α=8, β=4)"
    );
    assert_eq!(
        Profile::server().describe(),
        "server (response: 50ms, PIE: α=16, β=8)"
    );
}

#[test]
fn test_gaming_autorate_config() {
    let p = Profile::gaming();
    assert!(!p.autorate.enabled);
    assert_eq!(p.autorate.ramp_up_rate, 1080);
    assert_eq!(p.autorate.ramp_down_rate, 750);
}

#[test]
fn test_production_autorate_config() {
    let p = Profile::production();
    assert!(!p.autorate.enabled);
    assert_eq!(p.autorate.ramp_up_rate, 1040);
}

#[test]
fn test_server_autorate_config() {
    let p = Profile::server();
    assert!(!p.autorate.enabled);
    assert_eq!(p.autorate.ramp_up_rate, 1020);
}

#[test]
fn test_autorate_params_in_bounds() {
    for p in [Profile::gaming(), Profile::production(), Profile::server()] {
        for class in 0..DESCENT_CLASS_MAX {
            for param in 0..PARAM_COUNT {
                let (min_bound, max_bound) = p.bounds[class][param];
                assert!(p.autorate.min_params[class][param] >= min_bound);
                assert!(p.autorate.max_params[class][param] <= max_bound);
                assert!(
                    p.autorate.baseline_params[class][param] >= min_bound
                        && p.autorate.baseline_params[class][param] <= max_bound
                );
            }
        }
    }
}

#[test]
fn test_is_autorate_enabled() {
    assert!(!Profile::gaming().is_autorate_enabled());
    assert!(!Profile::production().is_autorate_enabled());
    assert!(!Profile::server().is_autorate_enabled());
}

#[test]
fn targets_relax() {
    for c in 0..DESCENT_CLASS_MAX {
        let g = Profile::gaming().target_latencies_ns[c];
        let p = Profile::production().target_latencies_ns[c];
        let s = Profile::server().target_latencies_ns[c];
        assert!(g < p && p < s);
    }
}

#[test]
fn unknown_profiles_fall_back() {
    assert_eq!(select_profile("nonsense").name, "production");
    assert_eq!(select_profile("SERVER").name, "server");
    assert_eq!(select_profile("game").name, "gaming");
}

#[test]
fn overrides_are_applied() {
    let mut p = Profile::production();
    let o = ProfileOverrides {
        response_ms: Some(7),
        pie_alpha: None,
        pie_beta: Some(3),
        target_latency_us: [None, Some(42), None, Some(1)],
        autorate: true,
        autorate_high_load: Some(900),
        autorate_low_load: None,
        autorate_ramp_up: None,
        autorate_ramp_down: Some(500),
        autorate_decay: None,
    };
    o.apply(&mut p);
    assert_eq!(p.response_ms, 7);
    assert_eq!(p.pie_alpha, 8);
    assert_eq!(p.pie_beta, 3);
    assert_eq!(p.target_latencies_ns, [1_000_000, 42_000, 20_000_000, 1_000]);
    assert!(p.autorate.enabled);
    assert_eq!(p.autorate.high_load_threshold, 900);
    assert_eq!(p.autorate.low_load_threshold, 300);
    assert_eq!(p.autorate.ramp_down_rate, 500);
}

#[test]
fn overrides_of_autorate_need_autorate() {
    let mut p = Profile::production();
    let o = ProfileOverrides {
        response_ms: None,
        pie_alpha: None,
        pie_beta: None,
        target_latency_us: [None, None, None, None],
        autorate: false,
        autorate_high_load: Some(900),
        autorate_low_load: None,
        autorate_ramp_up: None,
        autorate_ramp_down: None,
        autorate_decay: None,
    };
    o.apply(&mut p);
    assert!(!p.autorate.enabled);
    assert_eq!(p.autorate.high_load_threshold, 750);
}

#[test]
fn help_shows_all_profiles() {
    let text = print_profile_help();
    assert!(text.starts_with("scx_descent Profile Parameter Defaults\n====="));
    let row = format!(
        "  {:30} {:>12} {:>15} {:>15}\n",
        "response_ms (update interval)", 20, 20, 50
    );
    assert!(text.contains(&row));
    let row = format!("  {:30} {:>12.2} {:>15.2} {:>15.2}\n", "ramp_up_rate", 1.08, 1.04, 1.02);
    assert!(text.contains(&row));
    let row = format!("  {:30} {:>12.3} {:>15.3} {:>15.3}\n", "decay_rate", 0.99, 0.99, 0.995);
    assert!(text.contains(&row));
    let row = format!(
        "  {:30} {:>12.1} {:>15.1} {:>15.1}\n",
        "bufferbloat_threshold", 1.6, 1.5, 1.8
    );
    assert!(text.contains(&row));
    let row = format!("  {:30} {:>12} {:>15} {:>15}\n", "BACKGROUND", 50000, 100000, 200000);
    assert!(text.contains(&row));
    assert!(text.ends_with("parameters with --response-ms, --pie-alpha, --target-latency-*, etc.\n"));
}

#[test]
fn kernel_settings_of_a_machine() {
    let m = Machine {
        smt: true,
        disable_smt: false,
        nodes: 1,
        disable_numa: false,
        primary_cpus: 8,
        nr_cpu_ids: 8,
        slice_us: 1000,
        slice_us_lag: 20000,
        throttle_us: 0,
    };
    let s = m.settings().unwrap();
    assert!(s.smt_enabled && s.numa_disabled && s.primary_all);
    assert_eq!((s.slice_max_ns, s.slice_lag_ns, s.throttle_ns), (1_000_000, 20_000_000, 0));
    let huge = Machine { slice_us: u64::MAX, ..m };
    assert!(huge.settings().is_none());
    let other = Machine { disable_smt: true, nodes: 2, primary_cpus: 4, ..m };
    let s = other.settings().unwrap();
    assert!(!s.smt_enabled && !s.numa_disabled && !s.primary_all);
}
