//! Control loops with a proportional, an integral and a derivative part.
//!
//! Gains are held in thousandths; errors and outputs in millionths.

use vstd::prelude::*;

verus! {

/// The largest error that a loop takes in, in millionths.
pub const MAX_ERROR: i128 = 0x20_0000_0000_0000_0000_0000;

/// The largest gain of a loop, in thousandths.
pub const MAX_GAIN: u64 = 1_000_000_000;

/// The least time between two errors, in nanoseconds.
pub const MIN_DT_NS: u64 = 1_000_000;

/// The quotient of `x` and a positive `d`, rounded down.
pub(crate) fn floor_div(x: i128, d: i128) -> (r: i128)
    requires
        0 < d,
        -0x4000_0000_0000_0000_0000_0000_0000_0000 <= x - d,
        x + d <= 0x4000_0000_0000_0000_0000_0000_0000_0000,
    ensures
        r == x as int / d as int,
{
    if x >= 0 {
        x / d
    } else {
        let up: i128 = (d - 1 - x) / d;
        proof {
            let (xi, di, u) = (x as int, d as int, up as int);
            let rest = (di - 1 - xi) % di;
            assert(di - 1 - xi == di * u + rest && 0 <= rest < di) by {
                vstd::arithmetic::div_mod::lemma_fundamental_div_mod(di - 1 - xi, di);
                vstd::arithmetic::div_mod::lemma_mod_bound(di - 1 - xi, di);
            }
            assert(xi == (-u) * di + (di - 1 - rest)) by (nonlinear_arith)
                requires
                    di - 1 - xi == di * u + rest,
            ;
            vstd::arithmetic::div_mod::lemma_fundamental_div_mod_converse(xi, di, -u, di - 1 - rest);
            assert(0 <= u <= di - 1 - xi) by (nonlinear_arith)
                requires
                    di - 1 - xi == di * u + rest,
                    0 <= rest < di,
                    di > 0,
                    di - 1 - xi >= 0,
            ;
        }
        -up
    }
}

/// `v` brought between `lo` and `hi`.
pub open spec fn limited(v: int, lo: int, hi: int) -> int {
    if v < lo {
        lo
    } else if v > hi {
        hi
    } else {
        v
    }
}

fn limit(v: i128, lo: i128, hi: i128) -> (r: i128)
    ensures
        r == limited(v as int, lo as int, hi as int),
{
    if v < lo {
        lo
    } else if v > hi {
        hi
    } else {
        v
    }
}

/// The time between two errors, not less than a millisecond.
pub open spec fn time_step(dt_ns: u64) -> int {
    if dt_ns < MIN_DT_NS {
        MIN_DT_NS as int
    } else {
        dt_ns as int
    }
}

fn step_of(dt_ns: u64) -> (r: u64)
    ensures
        r == time_step(dt_ns),
        r >= MIN_DT_NS,
{
    if dt_ns < MIN_DT_NS {
        MIN_DT_NS
    } else {
        dt_ns
    }
}

/// The change of the error per second, rounded down.
pub open spec fn derivative(error: int, prev: int, dt_ns: u64) -> int {
    (error - prev) * 1_000_000_000 / time_step(dt_ns)
}

fn rate_of_change(error: i128, prev: i128, dt_ns: u64) -> (r: i128)
    requires
        -MAX_ERROR <= error <= MAX_ERROR,
        -MAX_ERROR <= prev <= MAX_ERROR,
    ensures
        r == derivative(error as int, prev as int, dt_ns),
        -0x1_0000_0000_0000_0000_0000_0000 <= r <= 0x1_0000_0000_0000_0000_0000_0000,
{
    let dt: i128 = step_of(dt_ns) as i128;
    let rise: i128 = (error - prev) * 1_000_000_000;
    let r: i128 = floor_div(rise, dt);
    proof {
        let (n, d) = (rise as int, dt as int);
        assert(-0x1_0000_0000_0000_0000_0000_0000 <= n / d <= 0x1_0000_0000_0000_0000_0000_0000)
            by (nonlinear_arith)
            requires
                -0x1_0000_0000_0000_0000_0000_0000 * 1_000_000 <= n
                    <= 0x1_0000_0000_0000_0000_0000_0000 * 1_000_000,
                d >= 1_000_000,
        ;
    }
    r
}

/// A part of the output: a gain times a value, rounded down.
pub open spec fn gained(gain: u64, x: int) -> int {
    gain * x / 1000
}

fn gain_part(gain: u64, x: i128) -> (r: i128)
    requires
        gain <= MAX_GAIN,
        -0x1_0000_0000_0000_0000_0000_0000 <= x <= 0x1_0000_0000_0000_0000_0000_0000,
    ensures
        r == gained(gain, x as int),
        -0x1000_0000_0000_0000_0000_0000_0000_0000 <= r <= 0x1000_0000_0000_0000_0000_0000_0000_0000,
{
    let g: i128 = gain as i128;
    proof {
        let (a, b) = (g as int, x as int);
        assert(-1_000_000_000 * 0x1_0000_0000_0000_0000_0000_0000 <= a * b <= 1_000_000_000
            * 0x1_0000_0000_0000_0000_0000_0000) by (nonlinear_arith)
            requires
                0 <= a <= 1_000_000_000,
                -0x1_0000_0000_0000_0000_0000_0000 <= b <= 0x1_0000_0000_0000_0000_0000_0000,
        ;
    }
    floor_div(g * x, 1000)
}

/// The product of an error and a time in seconds, rounded down.
fn error_over_time(error: i128, dt_ns: u64) -> (r: i128)
    requires
        -MAX_ERROR <= error <= MAX_ERROR,
    ensures
        r == error * dt_ns / 1_000_000_000,
        -0x1000_0000_0000_0000_0000_0000_0000_0000 <= r <= 0x1000_0000_0000_0000_0000_0000_0000_0000,
{
    let seconds: i128 = (dt_ns / 1_000_000_000) as i128;
    let rest: i128 = (dt_ns % 1_000_000_000) as i128;
    proof {
        let (e, s, n, m) = (error as int, seconds as int, rest as int, MAX_ERROR as int);
        assert(-m * 0x8_0000_0000 <= e * s <= m * 0x8_0000_0000) by (nonlinear_arith)
            requires
                -m <= e <= m,
                0 <= s <= 0x8_0000_0000,
        ;
        assert(-m * 1_000_000_000 <= e * n <= m * 1_000_000_000) by (nonlinear_arith)
            requires
                -m <= e <= m,
                0 <= n <= 1_000_000_000,
        ;
        assert(e * dt_ns == e * n + (e * s) * 1_000_000_000) by (nonlinear_arith)
            requires
                dt_ns == s * 1_000_000_000 + n,
        ;
        vstd::arithmetic::div_mod::lemma_hoist_over_denominator(e * n, e * s, 1_000_000_000);
    }
    error * seconds + floor_div(error * rest, 1_000_000_000)
}

/// A loop whose integral part is kept within a limit.
#[derive(Clone, Copy, Debug, PartialEq, Eq, Structural)]
pub struct PidController {
    pub kp: u64,
    pub ki: u64,
    pub kd: u64,
    pub integral_error: i128,
    pub prev_error: i128,
    pub min_output: i64,
    pub max_output: i64,
    pub integral_limit: i128,
}

/// The limit of the integral part of a loop: what fills the range of outputs.
pub open spec fn integral_limit_of(ki: u64, min_output: i64, max_output: i64) -> int {
    (max_output - min_output) * 1000 / (if ki < 10 {
        10
    } else {
        ki as int
    })
}

impl PidController {
    /// The range of outputs is one, and state and gains are within their limits.
    pub open spec fn wf(self) -> bool {
        &&& self.kp <= MAX_GAIN
        &&& self.ki <= MAX_GAIN
        &&& self.kd <= MAX_GAIN
        &&& self.min_output <= self.max_output
        &&& 0 <= self.integral_limit <= 0x1_0000_0000_0000_0000_0000
        &&& -self.integral_limit <= self.integral_error <= self.integral_limit
        &&& -MAX_ERROR <= self.prev_error <= MAX_ERROR
    }

    /// A loop with the given gains and range of outputs.
    pub fn new(kp: u64, ki: u64, kd: u64, min_output: i64, max_output: i64) -> (r: Self)
        requires
            kp <= MAX_GAIN,
            ki <= MAX_GAIN,
            kd <= MAX_GAIN,
            min_output <= max_output,
        ensures
            r.wf(),
            r == (PidController {
                kp,
                ki,
                kd,
                integral_error: 0,
                prev_error: 0,
                min_output,
                max_output,
                integral_limit: integral_limit_of(ki, min_output, max_output) as i128,
            }),
    {
        let span: i128 = (max_output as i128 - min_output as i128) * 1000;
        let divisor: i128 = if ki < 10 {
            10
        } else {
            ki as i128
        };
        proof {
            let (s, d) = (span as int, divisor as int);
            assert(0 <= s / d <= s) by (nonlinear_arith)
                requires
                    s >= 0,
                    d >= 1,
            ;
        }
        PidController {
            kp,
            ki,
            kd,
            integral_error: 0,
            prev_error: 0,
            min_output,
            max_output,
            integral_limit: span / divisor,
        }
    }

    /// Forgets all errors.
    pub fn reset(&mut self)
        ensures
            *final(self) == (PidController { integral_error: 0, prev_error: 0, ..*old(self) }),
    {
        self.integral_error = 0;
        self.prev_error = 0;
    }

    /// The integral of the error after one more.
    pub open spec fn next_integral(self, error: i128, dt_ns: u64) -> int {
        limited(
            self.integral_error + error * time_step(dt_ns) / 1_000_000_000,
            -(self.integral_limit as int),
            self.integral_limit as int,
        )
    }

    /// The output for an error.
    pub open spec fn output(self, error: i128, dt_ns: u64) -> int {
        limited(
            gained(self.kp, error as int) + gained(self.ki, self.next_integral(error, dt_ns)) + gained(
                self.kd,
                derivative(error as int, self.prev_error as int, dt_ns),
            ),
            self.min_output as int,
            self.max_output as int,
        )
    }

    /// Takes in an error and returns the output.
    pub fn compute(&mut self, error: i128, dt_ns: u64) -> (r: i64)
        requires
            old(self).wf(),
            -MAX_ERROR <= error <= MAX_ERROR,
        ensures
            final(self).wf(),
            r == old(self).output(error, dt_ns),
            *final(self) == (PidController {
                integral_error: old(self).next_integral(error, dt_ns) as i128,
                prev_error: error,
                ..*old(self)
            }),
    {
        let grown: i128 = self.integral_error + error_over_time(error, step_of(dt_ns));
        self.integral_error = limit(grown, -self.integral_limit, self.integral_limit);
        let d: i128 = rate_of_change(error, self.prev_error, dt_ns);
        self.prev_error = error;
        let sum: i128 = gain_part(self.kp, error) + gain_part(self.ki, self.integral_error)
            + gain_part(self.kd, d);
        limit(sum, self.min_output as i128, self.max_output as i128) as i64
    }

    /// The gains.
    pub fn get_gains(&self) -> (r: (u64, u64, u64))
        ensures
            r == (self.kp, self.ki, self.kd),
    {
        (self.kp, self.ki, self.kd)
    }
}

/// A loop whose integral part forgets old errors.
#[derive(Clone, Copy, Debug, PartialEq, Eq, Structural)]
pub struct EmaPidController {
    pub kp: u64,
    pub ki: u64,
    pub kd: u64,
    pub ema_error: i128,
    pub prev_error: i128,
    pub min_output: i64,
    pub max_output: i64,
}

impl EmaPidController {
    /// The range of outputs is one, and state and gains are within their limits.
    pub open spec fn wf(self) -> bool {
        &&& self.kp <= MAX_GAIN
        &&& self.ki <= MAX_GAIN
        &&& self.kd <= MAX_GAIN
        &&& self.min_output <= self.max_output
        &&& -MAX_ERROR <= self.ema_error <= MAX_ERROR
        &&& -MAX_ERROR <= self.prev_error <= MAX_ERROR
    }

    /// A loop with the given gains and range of outputs.
    pub fn new(kp: u64, ki: u64, kd: u64, min_output: i64, max_output: i64) -> (r: Self)
        ensures
            r == (EmaPidController {
                kp,
                ki,
                kd,
                ema_error: 0,
                prev_error: 0,
                min_output,
                max_output,
            }),
    {
        EmaPidController { kp, ki, kd, ema_error: 0, prev_error: 0, min_output, max_output }
    }

    /// Forgets all errors.
    pub fn reset(&mut self)
        ensures
            *final(self) == (EmaPidController { ema_error: 0, prev_error: 0, ..*old(self) }),
    {
        self.ema_error = 0;
        self.prev_error = 0;
    }

    /// The weight of a new error, in millionths: the integral gain times the time since the
    /// last one, within 1% and 95%.
    pub open spec fn weight(self, dt_ns: u64) -> int {
        limited(self.ki * time_step(dt_ns) / 1_000_000, 10_000, 950_000)
    }

    /// The smoothed error after one more, rounded down.
    pub open spec fn next_ema(self, error: i128, dt_ns: u64) -> int {
        let w = self.weight(dt_ns);
        (self.ema_error * (1_000_000 - w) + error * w) / 1_000_000
    }

    /// The output for an error.
    pub open spec fn output(self, error: i128, dt_ns: u64) -> int {
        limited(
            gained(self.kp, error as int) + gained(self.ki, self.next_ema(error, dt_ns)) + gained(
                self.kd,
                derivative(error as int, self.prev_error as int, dt_ns),
            ),
            self.min_output as int,
            self.max_output as int,
        )
    }

    /// The loop after an error.
    pub open spec fn after(self, error: i128, dt_ns: u64) -> EmaPidController {
        EmaPidController {
            ema_error: self.next_ema(error, dt_ns) as i128,
            prev_error: error,
            ..self
        }
    }

    /// Takes in an error and returns the output.
    pub fn compute(&mut self, error: i128, dt_ns: u64) -> (r: i64)
        requires
            old(self).wf(),
            -MAX_ERROR <= error <= MAX_ERROR,
        ensures
            final(self).wf(),
            r == old(self).output(error, dt_ns),
            *final(self) == old(self).after(error, dt_ns),
    {
        let dt: i128 = step_of(dt_ns) as i128;
        proof {
            let (k, d) = (self.ki as int, dt as int);
            assert(0 <= k * d <= 1_000_000_000 * 0x1_0000_0000_0000_0000) by (nonlinear_arith)
                requires
                    0 <= k <= 1_000_000_000,
                    0 <= d <= 0x1_0000_0000_0000_0000,
            ;
        }
        let w: i128 = limit(self.ki as i128 * dt / 1_000_000, 10_000, 950_000);
        proof {
            lemma_mean_stays_between(self.ema_error as int, error as int, w as int);
        }
        let ema: i128 = floor_div(self.ema_error * (1_000_000 - w) + error * w, 1_000_000);
        self.ema_error = ema;
        let d: i128 = rate_of_change(error, self.prev_error, dt_ns);
        self.prev_error = error;
        let sum: i128 = gain_part(self.kp, error) + gain_part(self.ki, ema) + gain_part(self.kd, d);
        limit(sum, self.min_output as i128, self.max_output as i128) as i64
    }

    /// The smoothed error.
    pub fn ema_error(&self) -> (r: i128)
        ensures
            r == self.ema_error,
    {
        self.ema_error
    }

    /// The gains.
    pub fn get_gains(&self) -> (r: (u64, u64, u64))
        ensures
            r == (self.kp, self.ki, self.kd),
    {
        (self.kp, self.ki, self.kd)
    }
}

proof fn lemma_mean_stays_between(a: int, b: int, w: int)
    requires
        0 <= w <= 1_000_000,
        -MAX_ERROR <= a <= MAX_ERROR,
        -MAX_ERROR <= b <= MAX_ERROR,
    ensures
        ({
            let m = (a * (1_000_000 - w) + b * w) / 1_000_000;
            &&& a <= b ==> a <= m <= b
            &&& b <= a ==> b <= m <= a
        }),
        -MAX_ERROR * 1_000_000 <= a * (1_000_000 - w) <= MAX_ERROR * 1_000_000,
        -MAX_ERROR * 1_000_000 <= b * w <= MAX_ERROR * 1_000_000,
{
    let m = MAX_ERROR as int;
    assert(-m * 1_000_000 <= a * (1_000_000 - w) <= m * 1_000_000) by (nonlinear_arith)
        requires
            -m <= a <= m,
            0 <= w <= 1_000_000,
            m > 0,
    ;
    assert(-m * 1_000_000 <= b * w <= m * 1_000_000) by (nonlinear_arith)
        requires
            -m <= b <= m,
            0 <= w <= 1_000_000,
            m > 0,
    ;
    let sum = a * (1_000_000 - w) + b * w;
    assert(sum == a * 1_000_000 + (b - a) * w) by (nonlinear_arith)
        requires
            sum == a * (1_000_000 - w) + b * w,
    ;
    if a <= b {
        assert(0 <= (b - a) * w <= (b - a) * 1_000_000) by (nonlinear_arith)
            requires
                a <= b,
                0 <= w <= 1_000_000,
        ;
    } else {
        assert((b - a) * 1_000_000 <= (b - a) * w <= 0) by (nonlinear_arith)
            requires
                b <= a,
                0 <= w <= 1_000_000,
        ;
    }
}

proof fn lemma_gain_keeps_order(gain: u64, x: int, y: int)
    requires
        x <= y,
    ensures
        gained(gain, x) <= gained(gain, y),
{
    let g = gain as int;
    assert(g * x <= g * y) by (nonlinear_arith)
        requires
            x <= y,
            g >= 0,
    ;
    vstd::arithmetic::div_mod::lemma_div_is_ordered(g * x, g * y, 1000);
}

/// A larger error never gives a smaller output.
pub proof fn outputs_follow_the_error(c: EmaPidController, error: i128, larger: i128, dt_ns: u64)
    requires
        error <= larger,
        c.min_output <= c.max_output,
    ensures
        c.output(error, dt_ns) <= c.output(larger, dt_ns),
{
    let w = c.weight(dt_ns);
    let (a, b) = (error as int, larger as int);
    assert(a * w <= b * w) by (nonlinear_arith)
        requires
            a <= b,
            w >= 0,
    ;
    vstd::arithmetic::div_mod::lemma_div_is_ordered(
        c.ema_error * (1_000_000 - w) + a * w,
        c.ema_error * (1_000_000 - w) + b * w,
        1_000_000,
    );
    vstd::arithmetic::div_mod::lemma_div_is_ordered(
        (a - c.prev_error) * 1_000_000_000,
        (b - c.prev_error) * 1_000_000_000,
        time_step(dt_ns),
    );
    lemma_gain_keeps_order(c.kp, a, b);
    lemma_gain_keeps_order(c.ki, c.next_ema(error, dt_ns), c.next_ema(larger, dt_ns));
    lemma_gain_keeps_order(
        c.kd,
        derivative(a, c.prev_error as int, dt_ns),
        derivative(b, c.prev_error as int, dt_ns),
    );
}

/// The integral of a loop stays within its limit, however long an error lasts, and every
/// output lies within the range of outputs.
pub proof fn integrals_do_not_wind_up(c: PidController, error: i128, dt_ns: u64)
    requires
        c.wf(),
    ensures
        -c.integral_limit <= c.next_integral(error, dt_ns) <= c.integral_limit,
        c.min_output <= c.output(error, dt_ns) <= c.max_output,
{
}

/// The smoothed error lies between the smoothed error so far and the new error, and every
/// output lies within the range of outputs.
pub proof fn smoothed_errors_stay_between(c: EmaPidController, error: i128, dt_ns: u64)
    requires
        c.wf(),
        -MAX_ERROR <= error <= MAX_ERROR,
    ensures
        c.ema_error <= error ==> c.ema_error <= c.next_ema(error, dt_ns) <= error,
        error <= c.ema_error ==> error <= c.next_ema(error, dt_ns) <= c.ema_error,
        c.min_output <= c.output(error, dt_ns) <= c.max_output,
{
    lemma_mean_stays_between(c.ema_error as int, error as int, c.weight(dt_ns));
}

/// A part of the output is its gain times its value, in thousandths and rounded down.
pub proof fn gains_are_thousandths(gain: u64, x: int)
    ensures
        1000 * gained(gain, x) <= gain * x < 1000 * gained(gain, x) + 1000,
{
}

/// A loop whose error rests, with the smoothed error at it, answers with the sum of its
/// proportional and its integral gain times the error, within the range of outputs.
pub proof fn steady_errors_are_answered_in_proportion(c: EmaPidController, dt_ns: u64)
    requires
        c.wf(),
        c.ema_error == c.prev_error,
    ensures
        ({
            let e = c.prev_error;
            let out = c.output(e, dt_ns);
            &&& c.after(e, dt_ns) == c
            &&& c.min_output < out < c.max_output ==> 1000 * out <= (c.kp + c.ki) * e < 1000 * out + 2000
            &&& out == c.max_output > c.min_output ==> 1000 * out <= (c.kp + c.ki) * e
            &&& out == c.min_output < c.max_output ==> (c.kp + c.ki) * e < 1000 * out + 2000
        }),
{
    let e = c.prev_error as int;
    let w = c.weight(dt_ns);
    assert(e * (1_000_000 - w) + e * w == e * 1_000_000) by (nonlinear_arith);
    assert(c.next_ema(c.prev_error, dt_ns) == e);
    let step = time_step(dt_ns);
    assert(0int / step == 0) by (nonlinear_arith)
        requires
            step > 0,
    ;
    assert(derivative(e, e, dt_ns) == 0);
    assert(c.kd * 0 == 0);
    assert((c.kp + c.ki) * e == c.kp * e + c.ki * e) by (nonlinear_arith);
}

/// An error that has risen further since the last look never gives a smaller output.
pub proof fn rising_errors_are_answered_harder(
    c: EmaPidController,
    lower_prev: i128,
    error: i128,
    dt_ns: u64,
)
    requires
        c.min_output <= c.max_output,
        lower_prev <= c.prev_error,
    ensures
        (EmaPidController { prev_error: lower_prev, ..c }).output(error, dt_ns) >= c.output(
            error,
            dt_ns,
        ),
{
    let d = EmaPidController { prev_error: lower_prev, ..c };
    vstd::arithmetic::div_mod::lemma_div_is_ordered(
        (error - c.prev_error) * 1_000_000_000,
        (error - lower_prev) * 1_000_000_000,
        time_step(dt_ns),
    );
    lemma_gain_keeps_order(
        c.kd,
        derivative(error as int, c.prev_error as int, dt_ns),
        derivative(error as int, lower_prev as int, dt_ns),
    );
    assert(d.next_ema(error, dt_ns) == c.next_ema(error, dt_ns));
}

/// The weight of a new error is the integral gain times the time in seconds, between a
/// hundredth and 95 hundredths; less than a millisecond counts as a millisecond.
pub proof fn weights_follow_the_time(c: EmaPidController, dt_ns: u64)
    ensures
        ({
            let w = c.weight(dt_ns);
            let t = if dt_ns < 1_000_000 { 1_000_000 } else { dt_ns as int };
            &&& 10_000 <= w <= 950_000
            &&& 10_000 < w < 950_000 ==> w * 1_000_000 <= c.ki * t < w * 1_000_000 + 1_000_000
            &&& w == 10_000 ==> c.ki * t < 10_001 * 1_000_000
            &&& w == 950_000 ==> c.ki * t >= 950_000 * 1_000_000
        }),
{
}

/// The integral of a plain loop gathers the error times the time in seconds, as far as its
/// limit goes, and with the sign of the error.
pub proof fn integrals_gather_the_error(c: PidController, error: i128, dt_ns: u64)
    requires
        c.wf(),
    ensures
        ({
            let t = if dt_ns < 1_000_000 { 1_000_000 } else { dt_ns as int };
            let gathered = c.next_integral(error, dt_ns) - c.integral_error;
            &&& error >= 0 ==> gathered >= 0 && gathered * 1_000_000_000 <= error * t
            &&& error <= 0 ==> gathered <= 0 && error * t < gathered * 1_000_000_000 + 1_000_000_000
            &&& -c.integral_limit < c.next_integral(error, dt_ns) < c.integral_limit ==> gathered
                * 1_000_000_000 <= error * t < gathered * 1_000_000_000 + 1_000_000_000
        }),
{
    let t = time_step(dt_ns);
    let e = error as int;
    if e >= 0 {
        assert(e * t >= 0) by (nonlinear_arith)
            requires
                e >= 0,
                t > 0,
        ;
    }
    if e <= 0 {
        assert(e * t <= 0) by (nonlinear_arith)
            requires
                e <= 0,
                t > 0,
        ;
    }
}

/// A larger error never gives a smaller output of a plain loop.
pub proof fn plain_outputs_follow_the_error(c: PidController, error: i128, larger: i128, dt_ns: u64)
    requires
        error <= larger,
        c.wf(),
    ensures
        c.output(error, dt_ns) <= c.output(larger, dt_ns),
{
    let (a, b, t) = (error as int, larger as int, time_step(dt_ns));
    assert(a * t <= b * t) by (nonlinear_arith)
        requires
            a <= b,
            t > 0,
    ;
    vstd::arithmetic::div_mod::lemma_div_is_ordered(a * t, b * t, 1_000_000_000);
    vstd::arithmetic::div_mod::lemma_div_is_ordered(
        (a - c.prev_error) * 1_000_000_000,
        (b - c.prev_error) * 1_000_000_000,
        t,
    );
    lemma_gain_keeps_order(c.kp, a, b);
    lemma_gain_keeps_order(c.ki, c.next_integral(error, dt_ns), c.next_integral(larger, dt_ns));
    lemma_gain_keeps_order(
        c.kd,
        derivative(a, c.prev_error as int, dt_ns),
        derivative(b, c.prev_error as int, dt_ns),
    );
}

/// A derivative is the change of the error per second; less than a millisecond counts as a
/// millisecond.
pub proof fn derivatives_are_changes_per_second(error: int, prev: int, dt_ns: u64)
    ensures
        ({
            let t = if dt_ns < 1_000_000 {
                1_000_000
            } else {
                dt_ns as int
            };
            let d = derivative(error, prev, dt_ns);
            d * t <= (error - prev) * 1_000_000_000 < d * t + t
        }),
{
    let t = time_step(dt_ns);
    let x = (error - prev) * 1_000_000_000;
    vstd::arithmetic::div_mod::lemma_fundamental_div_mod(x, t);
    vstd::arithmetic::div_mod::lemma_mod_bound(x, t);
    assert(t * (x / t) == (x / t) * t) by (nonlinear_arith);
}

/// The limit of the integral is the most that its gain turns into no more than the range of
/// outputs; a gain below ten thousandths counts as ten.
pub proof fn integral_limits_fill_the_outputs(ki: u64, min_output: i64, max_output: i64)
    requires
        min_output <= max_output,
    ensures
        ({
            let (limit, range) = (
                integral_limit_of(ki, min_output, max_output),
                1000 * (max_output - min_output),
            );
            &&& limit >= 0
            &&& ki >= 10 ==> limit * ki <= range < limit * ki + ki
            &&& ki <= 10 ==> 10 * limit <= range < 10 * limit + 10
        }),
{
    let range = (max_output - min_output) * 1000;
    let k: int = if ki < 10 {
        10
    } else {
        ki as int
    };
    let q = range / k;
    vstd::arithmetic::div_mod::lemma_fundamental_div_mod(range, k);
    vstd::arithmetic::div_mod::lemma_mod_bound(range, k);
    assert(k * q == q * k) by (nonlinear_arith);
    assert(q >= 0) by (nonlinear_arith)
        requires
            q == range / k,
            range >= 0,
            k > 0,
    ;
}

} // verus!
