use scx_scheds::astro::overrides::{
    parse_profile_from_env, parse_profile_from_environ, pid_of, KnownProfiles, OverrideScanner,
    Overrides,
};
use scx_scheds::astro::stats::{aggregate, combine, CpuState, GlobalState, Metrics};
use scx_scheds::astro::tuner::{
    change_line, step_u64, AutoTuneMode, AutoTuner, RuntimeTunables,
};

#[test]
fn profiles_in_an_environment() {
    assert_eq!(parse_profile_from_env(b"A=1\0SCX_ASTRO=interactive\0"), Some(0));
    assert_eq!(parse_profile_from_env(b"SCX_ASTRO=normal"), Some(1));
    assert_eq!(parse_profile_from_env(b"SCX_ASTRO=compute\0SCX_ASTRO=normal"), Some(2));
    assert_eq!(parse_profile_from_env(b"SCX_ASTRO=background"), Some(3));
    // the first entry decides
    assert_eq!(parse_profile_from_env(b"SCX_ASTRO=what\0SCX_ASTRO=normal"), None);
    // unless it is no text
    assert_eq!(parse_profile_from_env(b"SCX_ASTRO=\xff\0SCX_ASTRO=normal"), Some(1));
    assert_eq!(parse_profile_from_env(b""), None);
    assert_eq!(parse_profile_from_env(b"XSCX_ASTRO=normal"), None);
}

#[test]
fn profiles_in_an_environment_as_text() {
    assert_eq!(parse_profile_from_environ("A=1\0SCX_ASTRO=compute\0"), Some(2));
    // entries without a known profile are passed over
    assert_eq!(parse_profile_from_environ("SCX_ASTRO=what\0SCX_ASTRO=normal"), Some(1));
    // so are other variables whose names begin the same
    assert_eq!(parse_profile_from_environ("SCX_ASTRO_X=1\0SCX_ASTRO=normal"), Some(1));
    assert_eq!(parse_profile_from_environ("SCX_ASTRO_DEBUG=1\0SCX_ASTRO=compute\0"), Some(2));
    assert_eq!(parse_profile_from_environ(""), None);
}

#[test]
fn process_directories() {
    assert_eq!(pid_of("123"), Some(123));
    assert_eq!(pid_of(""), None);
    assert_eq!(pid_of("+1"), None);
    assert_eq!(pid_of("self"), None);
    assert_eq!(pid_of("2147483648"), None);
}

#[test]
fn overrides_are_kept_in_step() {
    let mut scanner = OverrideScanner::new();
    let mut first = Overrides::new();
    first.note("1", b"SCX_ASTRO=normal");
    first.note("2", b"SCX_ASTRO=compute");
    first.note("x", b"SCX_ASTRO=compute");
    first.note("3", b"HOME=/");
    assert_eq!(first.get(2), Some(2));
    assert_eq!(first.get(3), None);
    let mut plan = scanner.plan(first);
    assert!(plan.deletes.is_empty());
    plan.updates.sort();
    assert_eq!(plan.updates, [(1, 1), (2, 2)]);
    let mut second = Overrides::new();
    second.note("2", b"SCX_ASTRO=background");
    let plan = scanner.plan(second);
    assert_eq!(plan.deletes, [1]);
    assert_eq!(plan.updates, [(2, 3)]);
}

#[test]
fn known_profiles_are_written_once() {
    let mut k = KnownProfiles::new();
    assert!(k.needs_update(5, 1));
    k.written(5, 1);
    assert!(!k.needs_update(5, 1));
    assert!(k.needs_update(5, 2));
    k.written(5, 2);
    assert!(!k.needs_update(5, 2));
    k.written(6, 0);
    k.retain(&[6]);
    assert!(k.needs_update(5, 2));
    assert!(!k.needs_update(6, 0));
}

#[test]
fn steps_toward_a_target() {
    let mut v = 100;
    assert!(step_u64(&mut v, 150, 30));
    assert_eq!(v, 130);
    assert!(step_u64(&mut v, 150, 30));
    assert_eq!(v, 150);
    assert!(!step_u64(&mut v, 150, 30));
    assert!(step_u64(&mut v, 10, 200));
    assert_eq!(v, 10);
}

fn interactive(n: u64) -> Metrics {
    let mut m = Metrics::default();
    m.interactive_dispatches = n;
    m
}

#[test]
fn modes_need_three_readings() {
    let mut t = AutoTuner::new(Metrics::default());
    assert_eq!(t.tunables, RuntimeTunables::default());
    assert_eq!(t.update(&interactive(10)), None);
    assert_eq!(t.update(&interactive(20)), None);
    let (mode, tunables, generation) = t.update(&interactive(30)).unwrap();
    assert_eq!((mode, generation), (AutoTuneMode::Latency, 1));
    assert_eq!(
        tunables,
        RuntimeTunables {
            interactive_slice_us: 125,
            normal_slice_us: 900,
            compute_slice_us: 3250,
            background_slice_us: 450
        }
    );
    // slices go on until they are reached
    let mut steps = 1;
    let mut n = 40;
    while t.update(&interactive(n)).is_some() {
        steps += 1;
        n += 10;
    }
    assert_eq!(steps, 8);
    assert_eq!(t.tunables, RuntimeTunables::target_for(AutoTuneMode::Latency));
    assert_eq!(t.generation, 8);
}

#[test]
fn modes_by_the_mix_of_dispatches() {
    let t = AutoTuner::new(Metrics::default());
    let mut d = Metrics::default();
    d.normal_dispatches = 2;
    assert_eq!(t.evaluate_mode(&d), AutoTuneMode::Balanced);
    d.interactive_dispatches = 3;
    d.normal_dispatches = 7;
    assert_eq!(t.evaluate_mode(&d), AutoTuneMode::Balanced);
    d.waker_boost_dispatches = 2;
    assert_eq!(t.evaluate_mode(&d), AutoTuneMode::Latency);
    let mut d = Metrics::default();
    d.normal_dispatches = 75;
    d.background_dispatches = 25;
    assert_eq!(t.evaluate_mode(&d), AutoTuneMode::Balanced);
    d.background_dispatches = 26;
    assert_eq!(t.evaluate_mode(&d), AutoTuneMode::Throughput);
    d.preempts = 16;
    assert_eq!(t.evaluate_mode(&d), AutoTuneMode::Latency);
    assert_eq!(AutoTuneMode::Throughput.as_u64(), 2);
    assert_eq!(AutoTuneMode::Latency.as_str(), "latency");
}

#[test]
fn slices_of_the_modes() {
    let b = RuntimeTunables::target_for(AutoTuneMode::Balanced);
    let l = RuntimeTunables::target_for(AutoTuneMode::Latency);
    let t = RuntimeTunables::target_for(AutoTuneMode::Throughput);
    assert_eq!(b, RuntimeTunables::default());
    assert_eq!((l.interactive_slice_us, l.normal_slice_us), (100, 800));
    assert_eq!((t.interactive_slice_us, t.normal_slice_us), (200, 1200));
    assert!(l.compute_slice_us > b.compute_slice_us);
    assert!(t.background_slice_us < b.background_slice_us);
    assert_eq!((l.background_slice_us, t.compute_slice_us), (300, 5000));
}

#[test]
fn deltas_wrap_around() {
    let mut a = Metrics::default();
    a.preempts = u64::MAX;
    a.nr_running = 4;
    let mut b = Metrics::default();
    b.preempts = 2;
    b.nr_running = 9;
    let d = b.delta(&a);
    assert_eq!((d.preempts, d.nr_running), (3, 9));
    // in two parts
    let mut middle = Metrics::default();
    middle.preempts = 1;
    let parts = b.delta(&middle).preempts.wrapping_add(middle.delta(&a).preempts);
    assert_eq!(parts, d.preempts);
}

fn cpu_state(n: u64) -> CpuState {
    CpuState {
        interactive_dispatches: n,
        waker_boost_dispatches: n,
        normal_dispatches: n,
        compute_dispatches: n,
        background_dispatches: n,
        preempts: n,
        kicks_idle: n,
        kicks_preempt: n,
        profile_transitions: n,
        waker_boosts: n,
        srpt_short_tasks: n,
        budget_refills: n,
        budget_exhaustions: n,
        contained_starvation_rounds: n,
        shared_starvation_rounds: n,
        high_priority_burst_rounds: n,
    }
}

#[test]
fn counters_of_all_cpus() {
    let m = aggregate(&[cpu_state(3), cpu_state(5)]);
    assert_eq!((m.preempts, m.budget_refills), (8, 8));
    assert_eq!((m.contained_starvation_rounds, m.high_priority_burst_rounds), (5, 5));
    let m2 = aggregate(&[cpu_state(u64::MAX), cpu_state(5)]);
    assert_eq!(m2.kicks_idle, u64::MAX);
    assert_eq!(aggregate(&[]), Metrics::default());
    let g = GlobalState {
        nr_running: 1,
        interactive_dispatches: 2,
        waker_boost_dispatches: 0,
        normal_dispatches: 0,
        compute_dispatches: 0,
        background_dispatches: 0,
        preempts: 1,
        kicks_idle: 0,
        kicks_preempt: 0,
        profile_transitions: 0,
        waker_boosts: 0,
        srpt_short_tasks: 0,
        budget_refills: 0,
        budget_exhaustions: 0,
        autotune_mode: 2,
        autotune_generation: 7,
        tune_interactive_slice_ns: 150_999,
        tune_normal_slice_ns: 1_000_000,
        tune_compute_slice_ns: 3_000_000,
        tune_background_slice_ns: 500_000,
    };
    let c = combine(&g, &m);
    assert_eq!((c.interactive_dispatches, c.preempts, c.tune_interactive_slice_us), (10, 9, 150));
    assert_eq!(c.shared_starvation_rounds, 5);
    assert_eq!(c.autotune_mode_name(), "throughput");
    assert_eq!(
        c.format(),
        "[scx_astro] mode=throughput gen=7 run=1 int_disp=10 boost_disp=8 norm_disp=8 comp_disp=8 bg_disp=8 preempt=9 kick_idle=8 kick_preempt=8 trans=8 boosts=8 srpt=8 refill=8 exhaust=8 bg_starve=5 shared_starve=5 hp_burst=5 int_slice=150us norm_slice=1000us comp_slice=3000us bg_slice=500us\n"
    );
}

#[test]
fn tunables_for_the_kernel() {
    let k = RuntimeTunables::default().to_kernel();
    assert_eq!(
        (k.interactive_slice_ns, k.normal_slice_ns, k.compute_slice_ns, k.background_slice_ns),
        (150_000, 1_000_000, 3_000_000, 500_000)
    );
}

#[test]
fn changes_are_told_in_a_line() {
    assert_eq!(
        change_line(AutoTuneMode::Latency, &RuntimeTunables::default(), 7),
        "autotune=latency gen=7 int_slice=150us norm_slice=1000us comp_slice=3000us bg_slice=500us"
    );
}

#[test]
fn states_of_cpus_from_bytes() {
    let data: Vec<u8> = (1..=16u64).flat_map(|n| (n * 300).to_le_bytes()).collect();
    let s = CpuState::from_bytes(&data).unwrap();
    assert_eq!((s.interactive_dispatches, s.waker_boost_dispatches), (300, 600));
    assert_eq!((s.preempts, s.high_priority_burst_rounds), (1800, 4800));
    assert!(CpuState::from_bytes(&data[..127]).is_none());
}
