use vstd::prelude::*;

verus! {

/// Raw steps in one unit of an animated quantity (values are micro-units).
pub const UNIT: i64 = 1_000_000;

/// Distance from the target and speed below which a value counts as settled
/// (a thousandth of a unit, and a thousandth of a unit per second).
pub const SETTLE_EPSILON: i64 = 1_000;

/// Largest magnitude a position or a velocity may take; larger results are clamped.
pub const VALUE_LIMIT: i64 = 1_000_000_000_000_000;

/// Longest single integration step, in microseconds (about 1/30 s).
pub const MAX_SUBSTEP_US: u64 = 33_333;

/// Microseconds in one second.
pub const MICROS_PER_SECOND: u64 = 1_000_000;

/// Why a spring configuration was rejected.
#[derive(Clone, Copy, Debug, PartialEq, Eq, Structural)]
pub enum ConfigError {
    /// The stiffness was zero.
    NonPositiveStiffness,
    /// The mass was zero.
    NonPositiveMass,
}

/// Physical parameters of a spring, each in thousandths of a unit.
#[derive(Clone, Copy, Debug, PartialEq, Eq, Structural)]
pub struct SpringConfig {
    stiffness: u32,
    damping: u32,
    mass: u32,
}

impl SpringConfig {
    /// A configuration that a spring can run with: positive stiffness and mass.
    pub open spec fn wf(&self) -> bool {
        self.spec_stiffness() > 0 && self.spec_mass() > 0
    }

    pub closed spec fn spec_stiffness(&self) -> int {
        self.stiffness as int
    }

    pub closed spec fn spec_damping(&self) -> int {
        self.damping as int
    }

    pub closed spec fn spec_mass(&self) -> int {
        self.mass as int
    }

    /// Builds a configuration from stiffness, damping and mass in thousandths;
    /// a zero stiffness or mass is rejected, stiffness first.
    pub fn new(stiffness: u32, damping: u32, mass: u32) -> (r: Result<SpringConfig, ConfigError>)
        ensures
            stiffness == 0 ==> r == Err::<SpringConfig, ConfigError>(ConfigError::NonPositiveStiffness),
            stiffness > 0 && mass == 0 ==> r == Err::<SpringConfig, ConfigError>(ConfigError::NonPositiveMass),
            stiffness > 0 && mass > 0 ==> r.is_ok() && r.unwrap().wf()
                && r.unwrap().spec_stiffness() == stiffness && r.unwrap().spec_damping() == damping
                && r.unwrap().spec_mass() == mass,
    {
        if stiffness == 0 {
            Err(ConfigError::NonPositiveStiffness)
        } else if mass == 0 {
            Err(ConfigError::NonPositiveMass)
        } else {
            Ok(SpringConfig { stiffness, damping, mass })
        }
    }

    pub fn stiffness(&self) -> (r: u32)
        ensures
            r == self.spec_stiffness(),
    {
        self.stiffness
    }

    pub fn damping(&self) -> (r: u32)
        ensures
            r == self.spec_damping(),
    {
        self.damping
    }

    pub fn mass(&self) -> (r: u32)
        ensures
            r == self.spec_mass(),
    {
        self.mass
    }

    /// Quick response with little overshoot (stiffness 400, damping 30, mass 1).
    pub fn snappy() -> (r: SpringConfig)
        ensures
            r.wf(),
            r.spec_stiffness() == 400_000 && r.spec_damping() == 30_000 && r.spec_mass() == 1_000,
    {
        SpringConfig { stiffness: 400_000, damping: 30_000, mass: 1_000 }
    }

    /// Slow, soft motion (stiffness 120, damping 14, mass 1).
    pub fn gentle() -> (r: SpringConfig)
        ensures
            r.wf(),
            r.spec_stiffness() == 120_000 && r.spec_damping() == 14_000 && r.spec_mass() == 1_000,
    {
        SpringConfig { stiffness: 120_000, damping: 14_000, mass: 1_000 }
    }

    /// Bouncy motion with visible overshoot (stiffness 180, damping 12, mass 1).
    pub fn wobbly() -> (r: SpringConfig)
        ensures
            r.wf(),
            r.spec_stiffness() == 180_000 && r.spec_damping() == 12_000 && r.spec_mass() == 1_000,
    {
        SpringConfig { stiffness: 180_000, damping: 12_000, mass: 1_000 }
    }
}

/// `x` clamped to `[-VALUE_LIMIT, VALUE_LIMIT]`.
pub open spec fn clamp_value(x: int) -> int {
    if x > VALUE_LIMIT {
        VALUE_LIMIT as int
    } else if x < -VALUE_LIMIT {
        -VALUE_LIMIT
    } else {
        x
    }
}

/// Division that rounds toward zero, as integer division does in Rust.
pub open spec fn div_trunc(a: int, b: int) -> int {
    if a >= 0 {
        a / b
    } else {
        -((-a) / b)
    }
}

/// Whether a position or velocity lies within the clamping range.
pub open spec fn in_range(x: int) -> bool {
    -VALUE_LIMIT <= x <= VALUE_LIMIT
}

/// Acceleration of the damped oscillator, in raw steps per second squared.
pub open spec fn spring_accel(current: int, velocity: int, target: int, cfg: SpringConfig) -> int {
    div_trunc(
        cfg.spec_stiffness() * (target - current) - cfg.spec_damping() * velocity,
        cfg.spec_mass(),
    )
}

/// Velocity after one semi-implicit Euler step of `dt` microseconds.
pub open spec fn next_velocity(current: int, velocity: int, target: int, cfg: SpringConfig, dt: int) -> int {
    clamp_value(velocity + div_trunc(spring_accel(current, velocity, target, cfg) * dt, MICROS_PER_SECOND as int))
}

/// Position after one semi-implicit Euler step: it moves with the new velocity.
pub open spec fn next_position(current: int, velocity: int, target: int, cfg: SpringConfig, dt: int) -> int {
    clamp_value(current + div_trunc(next_velocity(current, velocity, target, cfg, dt) * dt, MICROS_PER_SECOND as int))
}

/// Length of the next substep when `remaining` microseconds are left.
pub open spec fn substep_len(remaining: int) -> int {
    if remaining > MAX_SUBSTEP_US {
        MAX_SUBSTEP_US as int
    } else {
        remaining
    }
}

/// Position and velocity after integrating `remaining` microseconds in substeps
/// of at most `MAX_SUBSTEP_US`.
pub open spec fn integrate(current: int, velocity: int, target: int, cfg: SpringConfig, remaining: nat) -> (int, int)
    decreases remaining,
{
    if remaining == 0 {
        (current, velocity)
    } else {
        let h = substep_len(remaining as int);
        integrate(
            next_position(current, velocity, target, cfg, h),
            next_velocity(current, velocity, target, cfg, h),
            target,
            cfg,
            (remaining - h) as nat,
        )
    }
}

/// Whether a value at `current` moving at `velocity` is at rest on `target`.
pub open spec fn at_rest(current: int, velocity: int, target: int) -> bool {
    -SETTLE_EPSILON < current - target < SETTLE_EPSILON && -SETTLE_EPSILON < velocity < SETTLE_EPSILON
}

fn clamp_i128(x: i128) -> (r: i64)
    ensures
        r == clamp_value(x as int),
{
    if x > VALUE_LIMIT as i128 {
        VALUE_LIMIT
    } else if x < -(VALUE_LIMIT as i128) {
        -VALUE_LIMIT
    } else {
        x as i64
    }
}

fn div_trunc_i128(a: i128, b: i128) -> (r: i128)
    requires
        b > 0,
        a > i128::MIN,
    ensures
        r == div_trunc(a as int, b as int),
{
    if a >= 0 {
        a / b
    } else {
        let n: i128 = -a;
        proof {
            lemma_div_le(n as int, b as int);
        }
        -(n / b)
    }
}

proof fn lemma_div_le(a: int, b: int)
    requires
        a >= 0,
        b > 0,
    ensures
        0 <= a / b <= a,
{
    assert(0 <= a / b <= a) by (nonlinear_arith)
        requires a >= 0, b > 0;
}

proof fn lemma_div_trunc_bound(a: int, b: int, bound: int)
    requires
        b > 0,
        -bound <= a <= bound,
    ensures
        -bound <= div_trunc(a, b) <= bound,
{
    if a >= 0 {
        lemma_div_le(a, b);
    } else {
        lemma_div_le(-a, b);
    }
}

/// Substeps are never longer than `MAX_SUBSTEP_US`, and never longer than what is left.
pub fn substep(remaining: u64) -> (r: u64)
    ensures
        r == substep_len(remaining as int),
        r <= MAX_SUBSTEP_US,
        r <= remaining,
        remaining > 0 ==> r > 0,
{
    if remaining > MAX_SUBSTEP_US {
        MAX_SUBSTEP_US
    } else {
        remaining
    }
}

/// One semi-implicit Euler step of the damped spring toward `target`:
/// `accel = (k·(target − current) − d·velocity) / m`, the velocity moves by
/// `accel·dt`, then the position by the new velocity times `dt`. `dt_us` is
/// clamped to `MAX_SUBSTEP_US`; results are clamped to `VALUE_LIMIT`.
pub fn step(current: i64, velocity: i64, target: i64, cfg: &SpringConfig, dt_us: u64) -> (r: (i64, i64))
    requires
        cfg.wf(),
        in_range(current as int),
        in_range(velocity as int),
        in_range(target as int),
    ensures
        r.0 == next_position(current as int, velocity as int, target as int, *cfg, substep_len(dt_us as int)),
        r.1 == next_velocity(current as int, velocity as int, target as int, *cfg, substep_len(dt_us as int)),
        in_range(r.0 as int),
        in_range(r.1 as int),
{
    let dt = substep(dt_us);
    let k = cfg.stiffness as i128;
    let d = cfg.damping as i128;
    let m = cfg.mass as i128;
    let disp = target as i128 - current as i128;
    let v = velocity as i128;
    proof {
        let bk = 0x1_0000_0000int;
        let bd = 2 * VALUE_LIMIT as int;
        assert(-bk * bd <= k * disp <= bk * bd) by (nonlinear_arith)
            requires 0 <= k < bk, -bd <= disp <= bd;
        assert(-bk * bd <= d * v <= bk * bd) by (nonlinear_arith)
            requires 0 <= d < bk, -bd <= v <= bd;
    }
    let num = k * disp - d * v;
    let accel = div_trunc_i128(num, m);
    proof {
        lemma_div_trunc_bound(num as int, m as int, 2 * 0x1_0000_0000int * 2 * VALUE_LIMIT as int);
        let ba = 2 * 0x1_0000_0000int * 2 * VALUE_LIMIT as int;
        assert(-ba * (MAX_SUBSTEP_US as int) <= accel * dt <= ba * (MAX_SUBSTEP_US as int)) by (nonlinear_arith)
            requires -ba <= accel <= ba, 0 <= dt <= MAX_SUBSTEP_US as int;
    }
    let dv = div_trunc_i128(accel * (dt as i128), MICROS_PER_SECOND as i128);
    proof {
        let bb = 2 * 0x1_0000_0000int * 2 * VALUE_LIMIT as int * (MAX_SUBSTEP_US as int);
        lemma_div_trunc_bound(accel * dt, MICROS_PER_SECOND as int, bb);
    }
    let new_v = clamp_i128(v + dv);
    proof {
        assert(-(VALUE_LIMIT as int) * (MAX_SUBSTEP_US as int) <= new_v * dt <= (VALUE_LIMIT as int) * (MAX_SUBSTEP_US as int)) by (nonlinear_arith)
            requires -VALUE_LIMIT <= new_v <= VALUE_LIMIT, 0 <= dt <= MAX_SUBSTEP_US as int;
        lemma_div_trunc_bound(new_v * dt, MICROS_PER_SECOND as int, (VALUE_LIMIT as int) * (MAX_SUBSTEP_US as int));
    }
    let dc = div_trunc_i128(new_v as i128 * (dt as i128), MICROS_PER_SECOND as i128);
    let new_c = clamp_i128(current as i128 + dc);
    (new_c, new_v)
}

/// A spring resting exactly on its target, without velocity, stays there for
/// any length of integration.
pub proof fn law_equilibrium_is_kept(target: int, cfg: SpringConfig, dt: nat)
    requires
        cfg.wf(),
        in_range(target),
    ensures
        integrate(target, 0, target, cfg, dt) == (target, 0int),
    decreases dt,
{
    if dt > 0 {
        let h = substep_len(dt as int);
        assert(spring_accel(target, 0, target, cfg) == 0) by {
            assert(cfg.spec_stiffness() * (target - target) == 0);
            assert(cfg.spec_damping() * 0 == 0);
        }
        assert(next_velocity(target, 0, target, cfg, h) == 0);
        assert(div_trunc(0 * h, MICROS_PER_SECOND as int) == 0);
        assert(next_position(target, 0, target, cfg, h) == target);
        law_equilibrium_is_kept(target, cfg, (dt - h) as nat);
    }
}

} // verus!
