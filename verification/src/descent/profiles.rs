//! Scheduling profiles: the bounds and default values of the parameters of each
//! task class, the response interval, the PIE gains, the target latencies and
//! the autorate configuration.

use vstd::prelude::*;
use vstd::string::StringExecFns;
use vstd::utf8::is_ascii_chars;

use crate::descent::autorate::{default_share_configs, default_shares, AutorateConfig};
use crate::text::{ascii_lower, decimal, lowercase, push_decimal, same, to_lower};

verus! {

/// Games, audio, compositors, kernel threads.
pub const DESCENT_CLASS_LATENCY_CRITICAL: usize = 0;

/// Ordinary interactive tasks.
pub const DESCENT_CLASS_NORMAL: usize = 1;

/// Tasks with high CPU usage.
pub const DESCENT_CLASS_HOG: usize = 2;

/// Tasks of low priority.
pub const DESCENT_CLASS_BACKGROUND: usize = 3;

/// Number of task classes.
pub const DESCENT_CLASS_MAX: usize = 4;

/// Number of parameters per class.
pub const PARAM_COUNT: usize = 5;

/// Least and largest value of each parameter of each class. Classes: latency
/// critical, normal, hog, background. Parameters: latency weight, base slice in
/// nanoseconds, vruntime scale, preemption priority, migration cost.
pub type ParamBounds = [[(u64, u64); 5]; 4];

/// A value of each parameter of each class.
pub type DefaultParams = [[u64; 5]; 4];

/// Bounds of the gaming profile.
pub const GAMING_BOUNDS: ParamBounds = [
    [(500_000, 2_000_000), (1_000_000, 10_000_000), (1_024, 2_048), (100, 100), (50_000, 500_000)],
    [(500_000, 2_000_000), (1_000_000, 10_000_000), (1_024, 2_048), (100, 100), (50_000, 500_000)],
    [(500_000, 2_000_000), (1_000_000, 10_000_000), (1_024, 2_048), (100, 100), (50_000, 500_000)],
    [(500_000, 2_000_000), (1_000_000, 10_000_000), (1_024, 2_048), (100, 100), (50_000, 500_000)],
];

/// Parameters that the gaming profile starts from.
pub const GAMING_DEFAULTS: DefaultParams = [
    [500_000, 1_000_000, 1_024, 100, 50_000],
    [1_000_000, 1_000_000, 1_024, 100, 50_000],
    [2_000_000, 5_000_000, 1_536, 100, 100_000],
    [1_000_000, 2_000_000, 1_024, 100, 50_000],
];

/// Lowest autorate parameters of the gaming profile.
pub const GAMING_MIN_PARAMS: DefaultParams = [
    [500_000, 1_000_000, 1_024, 100, 50_000],
    [500_000, 1_000_000, 1_024, 100, 50_000],
    [1_000_000, 3_000_000, 1_280, 100, 50_000],
    [500_000, 1_000_000, 1_024, 100, 50_000],
];

/// Autorate parameters of the gaming profile at the base share.
pub const GAMING_BASELINE_PARAMS: DefaultParams = [
    [500_000, 1_000_000, 1_024, 100, 50_000],
    [1_000_000, 2_000_000, 1_024, 100, 50_000],
    [2_000_000, 5_000_000, 1_536, 100, 80_000],
    [1_000_000, 2_000_000, 1_024, 100, 50_000],
];

/// Highest autorate parameters of the gaming profile.
pub const GAMING_MAX_PARAMS: DefaultParams = [
    [1_000_000, 1_500_000, 1_024, 100, 200_000],
    [2_000_000, 5_000_000, 1_024, 100, 300_000],
    [2_000_000, 6_000_000, 1_792, 100, 400_000],
    [2_000_000, 4_000_000, 1_280, 100, 200_000],
];

/// Bounds of the production profile.
pub const PRODUCTION_BOUNDS: ParamBounds = [
    [(500_000, 2_000_000), (1_000_000, 10_000_000), (1_024, 2_048), (100, 100), (50_000, 500_000)],
    [(500_000, 2_000_000), (1_000_000, 10_000_000), (1_024, 2_048), (100, 100), (50_000, 500_000)],
    [(500_000, 2_000_000), (1_000_000, 10_000_000), (1_024, 2_048), (100, 100), (50_000, 500_000)],
    [(500_000, 2_000_000), (1_000_000, 10_000_000), (1_024, 2_048), (100, 100), (50_000, 500_000)],
];

/// Parameters that the production profile starts from.
pub const PRODUCTION_DEFAULTS: DefaultParams = [
    [500_000, 1_000_000, 1_024, 100, 50_000],
    [500_000, 1_000_000, 1_024, 100, 50_000],
    [2_000_000, 3_000_000, 1_536, 100, 50_000],
    [1_000_000, 2_000_000, 1_024, 100, 50_000],
];

/// Lowest autorate parameters of the production profile.
pub const PRODUCTION_MIN_PARAMS: DefaultParams = [
    [500_000, 1_000_000, 1_024, 100, 50_000],
    [500_000, 1_000_000, 1_024, 100, 50_000],
    [750_000, 4_000_000, 1_280, 100, 50_000],
    [500_000, 1_000_000, 1_024, 100, 50_000],
];

/// Autorate parameters of the production profile at the base share.
pub const PRODUCTION_BASELINE_PARAMS: DefaultParams = [
    [500_000, 1_000_000, 1_024, 100, 50_000],
    [500_000, 1_000_000, 1_024, 100, 50_000],
    [2_000_000, 5_000_000, 1_536, 100, 50_000],
    [1_000_000, 2_000_000, 1_024, 100, 50_000],
];

/// Highest autorate parameters of the production profile.
pub const PRODUCTION_MAX_PARAMS: DefaultParams = [
    [1_000_000, 4_000_000, 1_280, 100, 500_000],
    [2_000_000, 4_500_000, 1_408, 100, 500_000],
    [2_000_000, 4_800_000, 1_472, 100, 500_000],
    [2_000_000, 4_500_000, 1_408, 100, 500_000],
];

/// Bounds of the server profile.
pub const SERVER_BOUNDS: ParamBounds = [
    [(250_000, 5_000_000), (500_000, 20_000_000), (512, 3_072), (50, 150), (25_000, 1_000_000)],
    [(250_000, 5_000_000), (500_000, 20_000_000), (512, 3_072), (50, 150), (25_000, 1_000_000)],
    [(250_000, 5_000_000), (500_000, 20_000_000), (512, 3_072), (50, 150), (25_000, 1_000_000)],
    [(250_000, 5_000_000), (500_000, 20_000_000), (512, 3_072), (50, 150), (25_000, 1_000_000)],
];

/// Parameters that the server profile starts from.
pub const SERVER_DEFAULTS: DefaultParams = [
    [1_000_000, 2_000_000, 1_536, 100, 100_000],
    [1_000_000, 5_000_000, 1_536, 100, 100_000],
    [1_000_000, 8_000_000, 1_536, 100, 100_000],
    [1_000_000, 5_000_000, 1_536, 100, 100_000],
];

/// Lowest autorate parameters of the server profile.
pub const SERVER_MIN_PARAMS: DefaultParams = [
    [750_000, 1_500_000, 1_280, 100, 75_000],
    [750_000, 4_000_000, 1_280, 100, 75_000],
    [750_000, 6_000_000, 1_280, 100, 75_000],
    [750_000, 4_000_000, 1_280, 100, 75_000],
];

/// Autorate parameters of the server profile at the base share.
pub const SERVER_BASELINE_PARAMS: DefaultParams = [
    [1_000_000, 2_000_000, 1_536, 100, 100_000],
    [1_000_000, 5_000_000, 1_536, 100, 100_000],
    [1_000_000, 8_000_000, 1_536, 100, 100_000],
    [1_000_000, 5_000_000, 1_536, 100, 100_000],
];

/// Highest autorate parameters of the server profile.
pub const SERVER_MAX_PARAMS: DefaultParams = [
    [2_000_000, 5_000_000, 2_048, 100, 200_000],
    [2_000_000, 8_000_000, 2_048, 100, 200_000],
    [2_000_000, 10_000_000, 2_048, 100, 200_000],
    [2_000_000, 8_000_000, 2_048, 100, 200_000],
];

/// A scheduling profile.
pub struct Profile {
    /// Name of the profile.
    pub name: String,
    /// Parameters that each class starts from.
    pub default_params: DefaultParams,
    /// Bounds of the parameters of each class.
    pub bounds: ParamBounds,
    /// Update interval in milliseconds.
    pub response_ms: u64,
    /// Divisor of the proportional term.
    pub pie_alpha: u64,
    /// Divisor of the integral term.
    pub pie_beta: u64,
    /// Largest absolute value of the integral accumulator.
    pub pie_max_integral: i64,
    /// Target latency of each class in nanoseconds.
    pub target_latencies_ns: [u64; DESCENT_CLASS_MAX],
    /// Autorate configuration.
    pub autorate: AutorateConfig,
}

/// The share configurations of an autorate configuration are the default ones.
pub open spec fn has_default_shares(c: AutorateConfig) -> bool {
    forall|i: int| 0 <= i < DESCENT_CLASS_MAX ==> #[trigger] c.share_configs[i] == default_shares(i)
}

/// `p` is the gaming profile: quick response, tight latency targets.
pub open spec fn is_gaming(p: Profile) -> bool {
    &&& p.name@ == "gaming"@
    &&& p.default_params == GAMING_DEFAULTS
    &&& p.bounds == GAMING_BOUNDS
    &&& p.response_ms == 20
    &&& p.pie_alpha == 8
    &&& p.pie_beta == 4
    &&& p.pie_max_integral == 1_000_000
    &&& p.target_latencies_ns == [500_000u64, 2_000_000, 10_000_000, 50_000_000]
    &&& !p.autorate.enabled
    &&& p.autorate.min_params == GAMING_MIN_PARAMS
    &&& p.autorate.baseline_params == GAMING_BASELINE_PARAMS
    &&& p.autorate.max_params == GAMING_MAX_PARAMS
    &&& p.autorate.high_load_threshold == 750
    &&& p.autorate.low_load_threshold == 250
    &&& p.autorate.ramp_up_rate == 1080
    &&& p.autorate.ramp_down_rate == 750
    &&& p.autorate.decay_rate == 990
    &&& p.autorate.adjust_up_refractory_ms == 100
    &&& p.autorate.adjust_down_refractory_ms == 50
    &&& p.autorate.bufferbloat_threshold == 1600
    &&& has_default_shares(p.autorate)
}

/// `p` is the production profile: balanced response and targets.
pub open spec fn is_production(p: Profile) -> bool {
    &&& p.name@ == "production"@
    &&& p.default_params == PRODUCTION_DEFAULTS
    &&& p.bounds == PRODUCTION_BOUNDS
    &&& p.response_ms == 20
    &&& p.pie_alpha == 8
    &&& p.pie_beta == 4
    &&& p.pie_max_integral == 1_000_000
    &&& p.target_latencies_ns == [1_000_000u64, 5_000_000, 20_000_000, 100_000_000]
    &&& !p.autorate.enabled
    &&& p.autorate.min_params == PRODUCTION_MIN_PARAMS
    &&& p.autorate.baseline_params == PRODUCTION_BASELINE_PARAMS
    &&& p.autorate.max_params == PRODUCTION_MAX_PARAMS
    &&& p.autorate.high_load_threshold == 750
    &&& p.autorate.low_load_threshold == 300
    &&& p.autorate.ramp_up_rate == 1040
    &&& p.autorate.ramp_down_rate == 800
    &&& p.autorate.decay_rate == 990
    &&& p.autorate.adjust_up_refractory_ms == 75
    &&& p.autorate.adjust_down_refractory_ms == 25
    &&& p.autorate.bufferbloat_threshold == 1500
    &&& has_default_shares(p.autorate)
}

/// `p` is the server profile: slow, stable response and relaxed targets.
pub open spec fn is_server(p: Profile) -> bool {
    &&& p.name@ == "server"@
    &&& p.default_params == SERVER_DEFAULTS
    &&& p.bounds == SERVER_BOUNDS
    &&& p.response_ms == 50
    &&& p.pie_alpha == 16
    &&& p.pie_beta == 8
    &&& p.pie_max_integral == 1_000_000
    &&& p.target_latencies_ns == [2_000_000u64, 10_000_000, 50_000_000, 200_000_000]
    &&& !p.autorate.enabled
    &&& p.autorate.min_params == SERVER_MIN_PARAMS
    &&& p.autorate.baseline_params == SERVER_BASELINE_PARAMS
    &&& p.autorate.max_params == SERVER_MAX_PARAMS
    &&& p.autorate.high_load_threshold == 800
    &&& p.autorate.low_load_threshold == 300
    &&& p.autorate.ramp_up_rate == 1020
    &&& p.autorate.ramp_down_rate == 900
    &&& p.autorate.decay_rate == 995
    &&& p.autorate.adjust_up_refractory_ms == 200
    &&& p.autorate.adjust_down_refractory_ms == 100
    &&& p.autorate.bufferbloat_threshold == 1800
    &&& has_default_shares(p.autorate)
}

/// No lower bound exceeds its upper bound.
pub open spec fn bounds_ordered(b: ParamBounds) -> bool {
    forall|c: int, i: int|
        0 <= c < DESCENT_CLASS_MAX && 0 <= i < PARAM_COUNT ==> (#[trigger] b[c][i]).0 <= b[c][i].1
}

/// Every parameter lies within its bounds.
pub open spec fn within_bounds(params: DefaultParams, b: ParamBounds) -> bool {
    forall|c: int, i: int|
        0 <= c < DESCENT_CLASS_MAX && 0 <= i < PARAM_COUNT ==> b[c][i].0 <= #[trigger] params[c][i]
            <= b[c][i].1
}

impl Profile {
    /// The bounds of the profile are ordered, and everything it can set a
    /// parameter to lies within them.
    pub open spec fn consistent(self) -> bool {
        &&& bounds_ordered(self.bounds)
        &&& within_bounds(self.default_params, self.bounds)
        &&& within_bounds(self.autorate.min_params, self.bounds)
        &&& within_bounds(self.autorate.baseline_params, self.bounds)
        &&& within_bounds(self.autorate.max_params, self.bounds)
    }

    /// The gaming profile.
    pub fn gaming() -> (r: Self)
        ensures
            is_gaming(r),
    {
        Profile {
            name: "gaming".to_owned(),
            default_params: GAMING_DEFAULTS,
            bounds: GAMING_BOUNDS,
            response_ms: 20,
            pie_alpha: 8,
            pie_beta: 4,
            pie_max_integral: 1_000_000,
            target_latencies_ns: [500_000, 2_000_000, 10_000_000, 50_000_000],
            autorate: AutorateConfig {
                enabled: false,
                min_params: GAMING_MIN_PARAMS,
                baseline_params: GAMING_BASELINE_PARAMS,
                max_params: GAMING_MAX_PARAMS,
                high_load_threshold: 750,
                low_load_threshold: 250,
                ramp_up_rate: 1080,
                ramp_down_rate: 750,
                decay_rate: 990,
                adjust_up_refractory_ms: 100,
                adjust_down_refractory_ms: 50,
                bufferbloat_threshold: 1600,
                share_configs: default_share_configs(),
            },
        }
    }

    /// The production profile, which is the default one.
    pub fn production() -> (r: Self)
        ensures
            is_production(r),
    {
        Profile {
            name: "production".to_owned(),
            default_params: PRODUCTION_DEFAULTS,
            bounds: PRODUCTION_BOUNDS,
            response_ms: 20,
            pie_alpha: 8,
            pie_beta: 4,
            pie_max_integral: 1_000_000,
            target_latencies_ns: [1_000_000, 5_000_000, 20_000_000, 100_000_000],
            autorate: AutorateConfig {
                enabled: false,
                min_params: PRODUCTION_MIN_PARAMS,
                baseline_params: PRODUCTION_BASELINE_PARAMS,
                max_params: PRODUCTION_MAX_PARAMS,
                high_load_threshold: 750,
                low_load_threshold: 300,
                ramp_up_rate: 1040,
                ramp_down_rate: 800,
                decay_rate: 990,
                adjust_up_refractory_ms: 75,
                adjust_down_refractory_ms: 25,
                bufferbloat_threshold: 1500,
                share_configs: default_share_configs(),
            },
        }
    }

    /// The server profile.
    pub fn server() -> (r: Self)
        ensures
            is_server(r),
    {
        Profile {
            name: "server".to_owned(),
            default_params: SERVER_DEFAULTS,
            bounds: SERVER_BOUNDS,
            response_ms: 50,
            pie_alpha: 16,
            pie_beta: 8,
            pie_max_integral: 1_000_000,
            target_latencies_ns: [2_000_000, 10_000_000, 50_000_000, 200_000_000],
            autorate: AutorateConfig {
                enabled: false,
                min_params: SERVER_MIN_PARAMS,
                baseline_params: SERVER_BASELINE_PARAMS,
                max_params: SERVER_MAX_PARAMS,
                high_load_threshold: 800,
                low_load_threshold: 300,
                ramp_up_rate: 1020,
                ramp_down_rate: 900,
                decay_rate: 995,
                adjust_up_refractory_ms: 200,
                adjust_down_refractory_ms: 100,
                bufferbloat_threshold: 1800,
                share_configs: default_share_configs(),
            },
        }
    }

    /// The profile with the given name, whatever its case.
    pub fn from_str(s: &str) -> (r: Option<Self>)
        ensures
            names_gaming(lowercase(s@)) ==> (r matches Some(p) && is_gaming(p)),
            names_production(lowercase(s@)) ==> (r matches Some(p) && is_production(p)),
            names_server(lowercase(s@)) ==> (r matches Some(p) && is_server(p)),
            r is None <==> !names_gaming(lowercase(s@)) && !names_production(lowercase(s@))
                && !names_server(lowercase(s@)),
            is_ascii_chars(s@) ==> lowercase(s@) == s@.map_values(|c: char| ascii_lower(c)),
    {
        let name = to_lower(s);
        proof {
            lemma_names_differ(name@);
        }
        if same(name.as_str(), "gaming") || same(name.as_str(), "game") {
            Some(Profile::gaming())
        } else if same(name.as_str(), "production") || same(name.as_str(), "prod") || same(
            name.as_str(),
            "default",
        ) || same(name.as_str(), "productivity") {
            Some(Profile::production())
        } else if same(name.as_str(), "server") || same(name.as_str(), "srv") {
            Some(Profile::server())
        } else {
            None
        }
    }

    /// The bounds of a parameter of a class; none for what does not exist.
    pub fn get_bounds(&self, class_id: usize, param_idx: usize) -> (r: (u64, u64))
        ensures
            r == if class_id < DESCENT_CLASS_MAX && param_idx < PARAM_COUNT {
                self.bounds[class_id as int][param_idx as int]
            } else {
                (0, u64::MAX)
            },
    {
        if class_id >= DESCENT_CLASS_MAX || param_idx >= PARAM_COUNT {
            return (0, u64::MAX);
        }
        self.bounds[class_id][param_idx]
    }

    /// The value that a parameter of a class starts from; 0 for what does not exist.
    pub fn get_default(&self, class_id: usize, param_idx: usize) -> (r: u64)
        ensures
            r == if class_id < DESCENT_CLASS_MAX && param_idx < PARAM_COUNT {
                self.default_params[class_id as int][param_idx as int]
            } else {
                0
            },
    {
        if class_id >= DESCENT_CLASS_MAX || param_idx >= PARAM_COUNT {
            return 0;
        }
        self.default_params[class_id][param_idx]
    }

    /// The target latency of a class in nanoseconds; that of the normal class for
    /// one that does not exist.
    pub fn get_target_latency(&self, class_id: usize) -> (r: u64)
        ensures
            r == if class_id < DESCENT_CLASS_MAX {
                self.target_latencies_ns[class_id as int]
            } else {
                self.target_latencies_ns[DESCENT_CLASS_NORMAL as int]
            },
    {
        if class_id >= DESCENT_CLASS_MAX {
            return self.target_latencies_ns[DESCENT_CLASS_NORMAL];
        }
        self.target_latencies_ns[class_id]
    }

    /// Divisor of the proportional term, divisor of the integral term, largest
    /// integral.
    pub fn get_pie_config(&self) -> (r: (u64, u64, i64))
        ensures
            r == (self.pie_alpha, self.pie_beta, self.pie_max_integral),
    {
        (self.pie_alpha, self.pie_beta, self.pie_max_integral)
    }

    /// Whether autorate control is on.
    pub fn is_autorate_enabled(&self) -> (r: bool)
        ensures
            r == self.autorate.enabled,
    {
        self.autorate.enabled
    }

    /// One line that describes the profile.
    pub fn describe(&self) -> (r: String)
        ensures
            r@ == self.name@ + " (response: "@ + decimal(self.response_ms as nat) + "ms, PIE: α="@
                + decimal(self.pie_alpha as nat) + ", β="@ + decimal(self.pie_beta as nat) + ")"@,
    {
        let mut out: String = self.name.clone();
        out.append(" (response: ");
        push_decimal(&mut out, self.response_ms);
        out.append("ms, PIE: α=");
        push_decimal(&mut out, self.pie_alpha);
        out.append(", β=");
        push_decimal(&mut out, self.pie_beta);
        out.append(")");
        out
    }
}

impl Profile {
    /// The profile with the given name, or the text of an error.
    pub fn named(s: &str) -> (r: Result<Self, String>)
        ensures
            match r {
                Ok(p) => is_named(lowercase(s@), p),
                Err(e) => !names_gaming(lowercase(s@)) && !names_production(lowercase(s@))
                    && !names_server(lowercase(s@)) && e@ == "Unknown profile: "@ + s@,
            },
    {
        match Profile::from_str(s) {
            Some(profile) => Ok(profile),
            None => {
                let mut e: String = "Unknown profile: ".to_owned();
                e.append(s);
                Err(e)
            },
        }
    }
}

impl std::str::FromStr for Profile {
    type Err = String;

    fn from_str(s: &str) -> Result<Self, String> {
        Profile::named(s)
    }
}

/// `p` is the profile of a name.
pub open spec fn is_named(name: Seq<char>, p: Profile) -> bool {
    ||| names_gaming(name) && is_gaming(p)
    ||| names_production(name) && is_production(p)
    ||| names_server(name) && is_server(p)
}

impl Default for Profile {
    fn default() -> (r: Self)
        ensures
            is_production(r),
    {
        Profile::production()
    }
}

/// The names of the gaming profile.
pub open spec fn names_gaming(s: Seq<char>) -> bool {
    s == "gaming"@ || s == "game"@
}

/// The names of the production profile.
pub open spec fn names_production(s: Seq<char>) -> bool {
    s == "production"@ || s == "prod"@ || s == "default"@ || s == "productivity"@
}

/// The names of the server profile.
pub open spec fn names_server(s: Seq<char>) -> bool {
    s == "server"@ || s == "srv"@
}

/// No name belongs to two profiles.
pub proof fn lemma_names_differ(s: Seq<char>)
    ensures
        !(names_gaming(s) && names_production(s)),
        !(names_gaming(s) && names_server(s)),
        !(names_production(s) && names_server(s)),
{
    reveal_strlit("gaming");
    reveal_strlit("game");
    reveal_strlit("production");
    reveal_strlit("prod");
    reveal_strlit("default");
    reveal_strlit("productivity");
    reveal_strlit("server");
    reveal_strlit("srv");
    if names_gaming(s) {
        assert(s[0] == 'g');
    }
    if names_production(s) {
        assert(s[0] == 'p' || s[0] == 'd');
    }
    if names_server(s) {
        assert(s[0] == 's');
    }
}

/// Every profile keeps its default, smallest, baseline and largest parameters
/// within its own bounds, and those are ordered.
pub proof fn profiles_are_consistent(p: Profile)
    requires
        is_gaming(p) || is_production(p) || is_server(p),
    ensures
        p.consistent(),
{
    if is_gaming(p) {
        assert(bounds_ordered(GAMING_BOUNDS));
        assert(within_bounds(GAMING_DEFAULTS, GAMING_BOUNDS));
        assert(within_bounds(GAMING_MIN_PARAMS, GAMING_BOUNDS));
        assert(within_bounds(GAMING_BASELINE_PARAMS, GAMING_BOUNDS));
        assert(within_bounds(GAMING_MAX_PARAMS, GAMING_BOUNDS));
    } else if is_production(p) {
        assert(bounds_ordered(PRODUCTION_BOUNDS));
        assert(within_bounds(PRODUCTION_DEFAULTS, PRODUCTION_BOUNDS));
        assert(within_bounds(PRODUCTION_MIN_PARAMS, PRODUCTION_BOUNDS));
        assert(within_bounds(PRODUCTION_BASELINE_PARAMS, PRODUCTION_BOUNDS));
        assert(within_bounds(PRODUCTION_MAX_PARAMS, PRODUCTION_BOUNDS));
    } else {
        assert(bounds_ordered(SERVER_BOUNDS));
        assert(within_bounds(SERVER_DEFAULTS, SERVER_BOUNDS));
        assert(within_bounds(SERVER_MIN_PARAMS, SERVER_BOUNDS));
        assert(within_bounds(SERVER_BASELINE_PARAMS, SERVER_BOUNDS));
        assert(within_bounds(SERVER_MAX_PARAMS, SERVER_BOUNDS));
    }
}

/// The gaming profile has the tightest target latency for every class, the
/// server profile the most relaxed one.
pub proof fn targets_relax_from_gaming_to_server(g: Profile, p: Profile, s: Profile, class: int)
    requires
        is_gaming(g),
        is_production(p),
        is_server(s),
        0 <= class < DESCENT_CLASS_MAX,
    ensures
        g.target_latencies_ns[class] < p.target_latencies_ns[class] < s.target_latencies_ns[class],
{
}

} // verus!
