use vstd::prelude::*;
use crate::spring::{
    at_rest, clamp_value, in_range, integrate, step, substep, substep_len, SpringConfig,
    SETTLE_EPSILON, VALUE_LIMIT,
};

verus! {

/// One spring-driven scalar: where it is, how fast it moves, and where it is headed.
#[derive(Clone, Copy, Debug)]
pub struct AnimatedValue {
    current: i64,
    velocity: i64,
    target: i64,
    config: SpringConfig,
    settled: bool,
}

/// The mathematical state of an animated value.
pub struct ValueState {
    pub current: int,
    pub velocity: int,
    pub target: int,
    pub config: SpringConfig,
    pub settled: bool,
}

impl View for AnimatedValue {
    type V = ValueState;

    closed spec fn view(&self) -> ValueState {
        ValueState {
            current: self.current as int,
            velocity: self.velocity as int,
            target: self.target as int,
            config: self.config,
            settled: self.settled,
        }
    }
}

fn clamp_i64(x: i64) -> (r: i64)
    ensures
        r == clamp_value(x as int),
{
    if x > VALUE_LIMIT {
        VALUE_LIMIT
    } else if x < -VALUE_LIMIT {
        -VALUE_LIMIT
    } else {
        x
    }
}

fn abs_below_epsilon(x: i64) -> (r: bool)
    requires
        -2 * VALUE_LIMIT <= x <= 2 * VALUE_LIMIT,
    ensures
        r == (-SETTLE_EPSILON < x < SETTLE_EPSILON),
{
    -SETTLE_EPSILON < x && x < SETTLE_EPSILON
}

impl AnimatedValue {
    /// A value resting at `initial` (clamped to the value range), headed nowhere else.
    pub closed spec fn resting_at(initial: i64, config: SpringConfig) -> AnimatedValue {
        let v = clamp_value(initial as int) as i64;
        AnimatedValue { current: v, velocity: 0, target: v, config, settled: true }
    }

    /// Positions and velocity lie in range, the configuration is valid, and the
    /// settled flag says whether the value is at rest on its target.
    pub open spec fn wf(&self) -> bool {
        &&& in_range(self@.current)
        &&& in_range(self@.velocity)
        &&& in_range(self@.target)
        &&& self@.config.wf()
        &&& self@.settled == at_rest(self@.current, self@.velocity, self@.target)
    }

    /// A value resting at `initial` (clamped to the value range), with target `initial`.
    pub fn new(initial: i64, config: SpringConfig) -> (r: AnimatedValue)
        requires
            config.wf(),
        ensures
            r == AnimatedValue::resting_at(initial, config),
            r.wf(),
            r@.current == clamp_value(initial as int),
            r@.target == clamp_value(initial as int),
            r@.velocity == 0,
            r@.config == config,
            r@.settled,
    {
        let v = clamp_i64(initial);
        AnimatedValue { current: v, velocity: 0, target: v, config, settled: true }
    }

    /// The value after retargeting to `target` (clamped): same position,
    /// velocity and configuration, settled only if it already rests there.
    pub closed spec fn retargeted(self, target: i64) -> AnimatedValue {
        let t = clamp_value(target as int) as i64;
        AnimatedValue { target: t, settled: at_rest(self.current as int, self.velocity as int, t as int), ..self }
    }

    /// Current position.
    pub fn get(&self) -> (r: i64)
        ensures
            r == self@.current,
    {
        self.current
    }

    /// Current velocity, in raw steps per second.
    pub fn velocity(&self) -> (r: i64)
        ensures
            r == self@.velocity,
    {
        self.velocity
    }

    /// The target the spring pulls toward.
    pub fn target(&self) -> (r: i64)
        ensures
            r == self@.target,
    {
        self.target
    }

    pub fn config(&self) -> (r: SpringConfig)
        ensures
            r == self@.config,
    {
        self.config
    }

    /// Whether the value rests on its target.
    pub fn is_settled(&self) -> (r: bool)
        ensures
            r == self@.settled,
    {
        self.settled
    }

    /// Retargets the spring. Position and velocity are kept as they are, so a value
    /// in flight carries on without a jump; the value is unsettled unless it already
    /// rests on the new target.
    pub fn set_target(&mut self, target: i64)
        requires
            old(self).wf(),
        ensures
            *final(self) == old(self).retargeted(target),
            final(self).wf(),
            final(self)@.target == clamp_value(target as int),
            final(self)@.current == old(self)@.current,
            final(self)@.velocity == old(self)@.velocity,
            final(self)@.config == old(self)@.config,
    {
        let t = clamp_i64(target);
        self.target = t;
        self.settled = abs_below_epsilon(self.current - t) && abs_below_epsilon(self.velocity);
    }

    /// Moves the value and sets it at rest on `position`, as a jump without motion.
    pub fn snap_to(&mut self, position: i64)
        requires
            old(self).wf(),
        ensures
            final(self).wf(),
            final(self)@.current == clamp_value(position as int),
            final(self)@.target == clamp_value(position as int),
            final(self)@.velocity == 0,
            final(self)@.config == old(self)@.config,
            final(self)@.settled,
    {
        let p = clamp_i64(position);
        self.current = p;
        self.target = p;
        self.velocity = 0;
        self.settled = true;
    }

    /// Advances the spring by `dt_us` microseconds, in substeps of at most
    /// `MAX_SUBSTEP_US`, then recomputes whether it is settled.
    pub fn tick(&mut self, dt_us: u64)
        requires
            old(self).wf(),
        ensures
            final(self).wf(),
            (final(self)@.current, final(self)@.velocity) == integrate(
                old(self)@.current,
                old(self)@.velocity,
                old(self)@.target,
                old(self)@.config,
                dt_us as nat,
            ),
            final(self)@.target == old(self)@.target,
            final(self)@.config == old(self)@.config,
    {
        let mut remaining: u64 = dt_us;
        while remaining > 0
            invariant
                in_range(self.current as int),
                in_range(self.velocity as int),
                in_range(self.target as int),
                self.config.wf(),
                self.target == old(self).target,
                self.config == old(self).config,
                integrate(self.current as int, self.velocity as int, self.target as int, self.config, remaining as nat)
                    == integrate(
                    old(self)@.current,
                    old(self)@.velocity,
                    old(self)@.target,
                    old(self)@.config,
                    dt_us as nat,
                ),
            decreases remaining,
        {
            let h = substep(remaining);
            let (c, v) = step(self.current, self.velocity, self.target, &self.config, h);
            proof {
                assert(substep_len(h as int) == h);
            }
            self.current = c;
            self.velocity = v;
            remaining = remaining - h;
        }
        self.settled = abs_below_epsilon(self.current - self.target) && abs_below_epsilon(self.velocity);
    }
}

/// Retargeting never makes a value jump: right after `set_target`, before any
/// tick, `get` reads the position from before the call, the velocity is kept,
/// and only the target has changed.
pub proof fn law_retarget_keeps_position(v: AnimatedValue, target: i64)
    requires
        v.wf(),
    ensures
        v.retargeted(target).wf(),
        v.retargeted(target)@.current == v@.current,
        v.retargeted(target)@.velocity == v@.velocity,
        v.retargeted(target)@.config == v@.config,
        v.retargeted(target)@.target == clamp_value(target as int),
{
}

} // verus!
