use vstd::prelude::*;
use crate::timeline::Easing;

verus! {

/// Keys of the animation durations a theme defines.
#[derive(Clone, Copy, Debug, Hash, PartialEq, Eq, Structural)]
pub enum AnimationToken {
    DurationFastest,
    DurationFaster,
    DurationFast,
    DurationNormal,
    DurationSlow,
    DurationSlower,
    DurationSlowest,
}

/// Durations (in milliseconds) and easings of a theme's animations.
#[derive(Clone, Copy, Debug, PartialEq, Eq, Structural)]
pub struct AnimationTokens {
    pub duration_fastest: u64,
    pub duration_faster: u64,
    pub duration_fast: u64,
    pub duration_normal: u64,
    pub duration_slow: u64,
    pub duration_slower: u64,
    pub duration_slowest: u64,
    pub ease_default: Easing,
    pub ease_in: Easing,
    pub ease_out: Easing,
    pub ease_in_out: Easing,
}

/// The duration `tokens` give for `token`.
pub open spec fn token_duration(tokens: AnimationTokens, token: AnimationToken) -> u64 {
    match token {
        AnimationToken::DurationFastest => tokens.duration_fastest,
        AnimationToken::DurationFaster => tokens.duration_faster,
        AnimationToken::DurationFast => tokens.duration_fast,
        AnimationToken::DurationNormal => tokens.duration_normal,
        AnimationToken::DurationSlow => tokens.duration_slow,
        AnimationToken::DurationSlower => tokens.duration_slower,
        AnimationToken::DurationSlowest => tokens.duration_slowest,
    }
}

impl AnimationTokens {
    /// Duration of `token`, in milliseconds.
    pub fn get(&self, token: AnimationToken) -> (r: u64)
        ensures
            r == token_duration(*self, token),
    {
        match token {
            AnimationToken::DurationFastest => self.duration_fastest,
            AnimationToken::DurationFaster => self.duration_faster,
            AnimationToken::DurationFast => self.duration_fast,
            AnimationToken::DurationNormal => self.duration_normal,
            AnimationToken::DurationSlow => self.duration_slow,
            AnimationToken::DurationSlower => self.duration_slower,
            AnimationToken::DurationSlowest => self.duration_slowest,
        }
    }
}

impl Default for AnimationTokens {
    /// 75, 100, 150, 200, 300, 400 and 500 ms; easing out by default.
    fn default() -> (r: AnimationTokens)
        ensures
            r == (AnimationTokens {
                duration_fastest: 75,
                duration_faster: 100,
                duration_fast: 150,
                duration_normal: 200,
                duration_slow: 300,
                duration_slower: 400,
                duration_slowest: 500,
                ease_default: Easing::EaseOut,
                ease_in: Easing::EaseIn,
                ease_out: Easing::EaseOut,
                ease_in_out: Easing::EaseInOut,
            }),
    {
        AnimationTokens {
            duration_fastest: 75,
            duration_faster: 100,
            duration_fast: 150,
            duration_normal: 200,
            duration_slow: 300,
            duration_slower: 400,
            duration_slowest: 500,
            ease_default: Easing::EaseOut,
            ease_in: Easing::EaseIn,
            ease_out: Easing::EaseOut,
            ease_in_out: Easing::EaseInOut,
        }
    }
}

} // verus!
