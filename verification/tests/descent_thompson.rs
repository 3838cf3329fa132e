use rand_distr::{Distribution, Normal};
use scx_scheds::descent::debug::{DebugFormat, ThompsonDebugger};
use scx_scheds::descent::optimizer_thompson::{
    ThompsonSampler, ValuePosterior, MAX_OBSERVATIONS,
};
use scx_scheds::descent::profiles::Profile;
use scx_scheds::descent::stats::ThompsonStats;

/// A value in thousandths.
fn milli(x: f64) -> u64 {
    (x * 1000.0).round() as u64
}

fn posterior(mean: f64, min: f64, max: f64, factor: f64) -> ValuePosterior {
    ValuePosterior::new(milli(mean), milli(min), milli(max), milli(factor))
}

/// A value drawn around an estimate, in thousandths.
fn draw(p: &ValuePosterior) -> i128 {
    let normal = Normal::new(p.mean as f64, p.std as f64).unwrap();
    normal.sample(&mut rand::rng()) as i128
}

fn sample_params(sampler: &mut ThompsonSampler, cpu: u32, class: u32) -> [u64; 5] {
    let draws = [0, 1, 2, 3, 4].map(|p| draw(&sampler.get_posterior(cpu, class, p).unwrap()));
    sampler.sample_params(cpu, class, &draws)
}

#[test]
fn test_value_posterior_new() {
    let posterior = posterior(500.0, 0.0, 1000.0, 1.0);
    assert_eq!(posterior.mean, milli(500.0));
    assert!(posterior.std > 0);
    assert_eq!(posterior.std, milli(100.0));
    assert_eq!(posterior.n_observations, 0);
    assert_eq!(posterior.min, milli(0.0));
    assert_eq!(posterior.max, milli(1000.0));
}

#[test]
fn test_value_posterior_sample() {
    let posterior = posterior(500.0, 0.0, 1000.0, 1.0);
    for _ in 0..100 {
        let sample = posterior.clamp(draw(&posterior));
        assert!(sample <= milli(1000.0));
    }
    assert_eq!(posterior.clamp(-5), 0);
    assert_eq!(posterior.clamp(1_000_001), 1_000_000);
    assert_eq!(posterior.clamp(123_456), 123_456);
}

#[test]
fn test_value_posterior_update_success() {
    let mut posterior = posterior(500.0, 0.0, 1000.0, 1.0);
    let old_mean = posterior.mean;
    posterior.update(milli(600.0), true, 500_000);
    assert!(posterior.mean > old_mean);
    assert_eq!(posterior.mean, milli(505.0));
    assert_eq!(posterior.n_observations, 1);
    assert!(posterior.std < milli(100.0));
    assert_eq!(posterior.std, milli(95.0));
}

#[test]
fn test_value_posterior_update_failure() {
    let mut posterior = posterior(500.0, 0.0, 1000.0, 1.0);
    let old_std = posterior.std;
    posterior.update(milli(600.0), false, 0);
    assert_eq!(posterior.mean, milli(500.0));
    assert!(posterior.std > old_std);
    assert_eq!(posterior.std, milli(115.0));
    assert_eq!(posterior.n_observations, 1);
}

#[test]
fn test_value_posterior_mean_clamping() {
    let mut posterior = posterior(500.0, 100.0, 900.0, 1.0);
    posterior.update(milli(0.0), true, 1_000_000);
    assert!(posterior.mean >= milli(100.0));
    posterior.update(milli(1000.0), true, 1_000_000);
    assert!(posterior.mean <= milli(900.0));
    let mut at_the_end = ValuePosterior::new(milli(900.0), milli(100.0), milli(900.0), 1000);
    at_the_end.update(milli(9000.0), true, 1_000_000);
    assert_eq!(at_the_end.mean, milli(900.0));
}

#[test]
fn test_value_posterior_boost_exploration() {
    let mut posterior = posterior(500.0, 0.0, 1000.0, 1.0);
    let old_std = posterior.std;
    posterior.boost_exploration(2000);
    assert!(posterior.std > old_std);
    assert!(posterior.std <= milli(500.0));
    assert_eq!(posterior.std, milli(200.0));
    posterior.boost_exploration(9000);
    assert_eq!(posterior.std, milli(500.0));
    posterior.boost_exploration(0);
    assert_eq!(posterior.std, milli(10.0));
}

#[test]
fn test_thompson_sampler_new() {
    let profile = Profile::production();
    let sampler = ThompsonSampler::new(4, &profile);
    assert_eq!(sampler.cpu_count(), 4);
    assert_eq!(sampler.update_interval_ms, profile.response_ms);
    assert_eq!(sampler.exploration_factor, 1500);
    assert_eq!(ThompsonSampler::new(1, &Profile::gaming()).exploration_factor, 2000);
    assert_eq!(ThompsonSampler::new(1, &Profile::server()).exploration_factor, 1000);
    let (total, observations, uncertainty) = sampler.get_stats();
    assert_eq!(total, 80);
    assert_eq!(observations, 0);
    assert!(uncertainty > 0);
    assert_eq!(sampler.get_last_params(3, 2), Some(profile.default_params[2]));
    assert_eq!(sampler.get_last_params(4, 0), None);
    assert_eq!(sampler.get_baseline(0, 0), Some(0));
}

#[test]
fn test_thompson_sampler_sample() {
    let profile = Profile::production();
    let mut sampler = ThompsonSampler::new(2, &profile);
    let params = sample_params(&mut sampler, 0, 0);
    for (idx, &value) in params.iter().enumerate() {
        let (min, max) = profile.bounds[0][idx];
        assert!(value >= min && value <= max);
    }
    assert_eq!(sampler.get_last_params(0, 0), Some(params));
    let low = sampler.sample_params(0, 0, &[0; 5]);
    assert_eq!(low, profile.bounds[0].map(|b| b.0));
    let high = sampler.sample_params(1, 0, &[i64::MAX as i128; 5]);
    assert_eq!(high, profile.bounds[0].map(|b| b.1));
    assert_eq!(sampler.sample_params(9, 0, &[5; 5]), [0; 5]);
    assert_eq!(sampler.get_last_params(9, 0), Some([0; 5]));
}

#[test]
fn test_thompson_sampler_update() {
    let profile = Profile::production();
    let mut sampler = ThompsonSampler::new(1, &profile);
    let params = sample_params(&mut sampler, 0, 0);
    sampler.update(0, 0, params, milli(100.0));
    let baseline = sampler.get_baseline(0, 0);
    assert!(baseline.is_some());
    assert_eq!(baseline.unwrap(), milli(100.0));
    let posterior = sampler.get_posterior(0, 0, 0).unwrap();
    assert_eq!(posterior.n_observations, 1);
    assert_eq!(sampler.get_posterior(0, 1, 0).unwrap().n_observations, 0);
    assert!(sampler.get_posterior(0, 0, 5).is_none());
}

#[test]
fn test_thompson_sampler_update_improvement() {
    let profile = Profile::production();
    let mut sampler = ThompsonSampler::new(1, &profile);
    let params1 = sample_params(&mut sampler, 0, 0);
    sampler.update(0, 0, params1, milli(100.0));
    let initial_mean = sampler.get_posterior(0, 0, 0).unwrap().mean as i64;
    let params2 = sample_params(&mut sampler, 0, 0);
    sampler.update(0, 0, params2, milli(80.0));
    let new_mean = sampler.get_posterior(0, 0, 0).unwrap().mean as i64;
    let param_value = params2[0] as i64 * 1000;
    let shift_toward = (new_mean - initial_mean).signum() == (param_value - initial_mean).signum();
    assert!(shift_toward || (new_mean - initial_mean).abs() < 1);
    let baseline = sampler.get_baseline(0, 0).unwrap();
    assert!(baseline < milli(100.0) && baseline > milli(80.0));
    assert_eq!(baseline, milli(94.0));
}

#[test]
fn test_thompson_sampler_update_regression() {
    let profile = Profile::production();
    let mut sampler = ThompsonSampler::new(1, &profile);
    let params1 = sample_params(&mut sampler, 0, 0);
    sampler.update(0, 0, params1, milli(100.0));
    let initial_std = sampler.get_posterior(0, 0, 0).unwrap().std;
    let params2 = sample_params(&mut sampler, 0, 0);
    sampler.update(0, 0, params2, milli(200.0));
    let new_std = sampler.get_posterior(0, 0, 0).unwrap().std;
    assert!(new_std > initial_std);
    // 15% for the failure, and half again for the boost
    assert_eq!(new_std, initial_std * 115 / 100 * 3 / 2);
}

#[test]
fn test_exploration_boost_threshold() {
    let profile = Profile::production();
    let mut sampler = ThompsonSampler::new(1, &profile);
    let std_before = sampler.get_posterior(0, 0, 0).unwrap().std;
    let params = sample_params(&mut sampler, 0, 0);
    sampler.update(0, 0, params, milli(100.0));
    let first = sampler.get_posterior(0, 0, 0).unwrap().std;
    let params = sample_params(&mut sampler, 0, 0);
    sampler.update(0, 0, params, milli(140.0));
    let without_boost = sampler.get_posterior(0, 0, 0).unwrap().std;
    assert_eq!(without_boost, first * 115 / 100);
    let params = sample_params(&mut sampler, 0, 0);
    sampler.update(0, 0, params, milli(200.0));
    let after = sampler.get_posterior(0, 0, 0).unwrap();
    assert!(after.std >= std_before || after.n_observations > 0);
}

#[test]
fn test_observation_capping() {
    let mut posterior = posterior(500.0, 0.0, 1000.0, 1.0);
    for _ in 0..1005 {
        posterior.update(milli(500.0), true, 100_000);
    }
    assert!(posterior.n_observations <= MAX_OBSERVATIONS);
    assert_eq!(posterior.n_observations, 1000);
    assert_eq!(posterior.std, milli(10.0));
}

#[test]
fn test_posterior_reset() {
    let profile = Profile::production();
    let mut sampler = ThompsonSampler::new(1, &profile);
    for _ in 0..10 {
        let params = sample_params(&mut sampler, 0, 0);
        sampler.update(0, 0, params, milli(100.0));
    }
    let before = sampler.get_posterior(0, 0, 0).unwrap();
    assert!(before.n_observations > 0);
    sampler.reset_posterior(0, 0, 0, &profile.default_params, &profile.bounds);
    let after = sampler.get_posterior(0, 0, 0).unwrap();
    assert_eq!(after.n_observations, 0);
    assert!(after.mean.abs_diff(before.mean) < milli(1000.0));
    assert_eq!(after.mean, profile.default_params[0][0] * 1000);
    assert!(sampler.get_posterior(0, 0, 1).unwrap().n_observations > 0);
    sampler.reset_posteriors_for_cpu_class(0, 0, &profile.default_params, &profile.bounds);
    assert_eq!(sampler.get_posterior(0, 0, 4).unwrap().n_observations, 0);
    assert_eq!(sampler.get_baseline(0, 0), Some(milli(100.0)));
}

#[test]
fn test_learning_rate_decay() {
    let mut posterior = posterior(500.0, 0.0, 1000.0, 1.0);
    posterior.update(milli(600.0), true, 1_000_000);
    let shift_first = posterior.mean - milli(500.0);
    assert!(shift_first > milli(5.0) && shift_first < milli(15.0));
    assert_eq!(shift_first, milli(10.0));
    assert_eq!(posterior.n_observations, 1);
    for _ in 0..200 {
        posterior.update(milli(600.0), true, 100_000);
    }
    assert!(posterior.n_observations > 100);
    let initial_mean_for_test = posterior.mean;
    posterior.update(milli(100.0), true, 1_000_000);
    let shift_with_decay = posterior.mean.abs_diff(initial_mean_for_test);
    assert!(shift_with_decay < milli(50.0));
}

#[test]
fn details_of_a_class() {
    let profile = Profile::server();
    let mut sampler = ThompsonSampler::new(1, &profile);
    assert!(sampler.get_detailed_stats(1, 0).is_none());
    sampler.update(1, 0, [0; 5], 7);
    assert!(sampler.get_detailed_stats(1, 0).is_none());
    let params = profile.default_params[3];
    sampler.update(0, 3, params, milli(9.0));
    let d = sampler.get_detailed_stats(0, 3).unwrap();
    assert_eq!((d.total_samples, d.baseline_loss), (5, milli(9.0)));
    assert_eq!(d.posteriors[1].mean, params[1] * 1000);
    assert_eq!(d.posteriors[1].n_observations, 1);
}

#[test]
fn debug_output_is_paced() {
    let profile = Profile::server();
    let mut sampler = ThompsonSampler::new(1, &profile);
    sampler.update(0, 1, profile.default_params[1], 12_345);
    let mut d = ThompsonDebugger::new(2, 1_000_000);
    assert_eq!(d.maybe_output(&sampler, "noon", 2_999_999), None);
    let text = d.maybe_output(&sampler, "noon", 3_000_000).unwrap();
    assert!(text.starts_with("[scx_descent Thompson Sampling] State at noon\n  Total posteriors: 20 | Total observations: 5 | Avg uncertainty: "));
    assert!(text.contains(
        "  CPU 0 class LATENCY_CRITICAL param 0: mean=1000000 std=475000 n=0 [250000, 5000000]\n"
    ));
    // 475000 less 5%
    assert!(text.contains("  CPU 0 class NORMAL param 0: mean=1000000 std=451250 n=1 [250000, 5000000]\n"));
    assert!(text.contains("  CPU 0 class NORMAL baseline loss: 12.34\n"));
    assert!(text.ends_with("  CPU 0 class BACKGROUND baseline loss: 0.00\n"));
    assert_eq!(d.maybe_output(&sampler, "noon", 3_000_001), None);
    d.format = DebugFormat::Json;
    assert_eq!(d.output(&sampler, "noon"), "");
}

#[test]
fn statistics_of_the_sampler() {
    let profile = Profile::server();
    let mut sampler = ThompsonSampler::new(1, &profile);
    sampler.update(0, 1, profile.default_params[1], milli(9.0));
    let s = ThompsonStats::from_sampler(0, 1, &sampler, [1, 2, 3, 4, 5], milli(9.0)).unwrap();
    assert_eq!((s.cpu, s.class, s.last_loss, s.update_count), (0, 1, 9000, 0));
    assert_eq!(s.current_params, [1, 2, 3, 4, 5]);
    assert_eq!(s.param_means, profile.default_params[1].map(|p| p * 1000));
    assert_eq!(s.n_observations, [1; 5]);
    assert_eq!(s.param_stds[0], 451_250_000);
    let none = ThompsonStats::from_sampler(7, 1, &sampler, [0; 5], 0).unwrap();
    assert_eq!((none.param_means, none.n_observations), ([0; 5], [0; 5]));
}
