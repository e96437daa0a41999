use vstd::prelude::*;
use crate::spring::{clamp_value, UNIT};
use crate::timeline::{AnimatedTimeline, Easing, KeyframeEntry};

verus! {

/// A visual property that a keyframe animation drives.
#[derive(Clone, Copy, Debug, PartialEq, Eq, Structural)]
pub enum AnimatedProperty {
    /// From 0 (transparent) to `UNIT` (opaque).
    Opacity,
    /// `UNIT` is the natural size.
    Scale,
    /// Horizontal offset, in raw steps of a pixel.
    TranslateX,
    /// Vertical offset, in raw steps of a pixel.
    TranslateY,
}

/// One property moving from `from` to `to`, starting `offset_ms` into the animation.
#[derive(Clone, Copy, Debug, PartialEq, Eq, Structural)]
pub struct PropertyTrack {
    pub property: AnimatedProperty,
    pub offset_ms: u32,
    pub duration_ms: u32,
    pub from: i64,
    pub to: i64,
    pub easing: Easing,
}

/// Several properties animated together, after an optional delay.
#[derive(Clone, Debug)]
pub struct MultiKeyframeAnimation {
    pub delay_ms: u32,
    pub tracks: Vec<PropertyTrack>,
}

/// A track of the whole duration.
pub open spec fn full_track(property: AnimatedProperty, duration_ms: u32, from: i64, to: i64, easing: Easing) -> PropertyTrack {
    PropertyTrack { property, offset_ms: 0, duration_ms, from, to, easing }
}

fn track(property: AnimatedProperty, duration_ms: u32, from: i64, to: i64, easing: Easing) -> (r: PropertyTrack)
    ensures
        r == full_track(property, duration_ms, from, to, easing),
{
    PropertyTrack { property, offset_ms: 0, duration_ms, from, to, easing }
}

/// `a + b`, or `u32::MAX` where that overflows.
pub open spec fn sat_add_u32(a: int, b: int) -> int {
    if a + b > u32::MAX {
        u32::MAX as int
    } else {
        a + b
    }
}

/// The timeline entry that plays track `t` of an animation delayed by `delay_ms`.
pub open spec fn track_entry(t: PropertyTrack, delay_ms: u32, id: int) -> KeyframeEntry {
    KeyframeEntry {
        id: id as u64,
        start_ms: sat_add_u32(delay_ms as int, t.offset_ms as int) as u32,
        duration_ms: t.duration_ms,
        from: clamp_value(t.from as int) as i64,
        to: clamp_value(t.to as int) as i64,
        easing: t.easing,
    }
}

impl MultiKeyframeAnimation {
    /// An animation of the given tracks, without delay.
    pub fn new(tracks: Vec<PropertyTrack>) -> (r: MultiKeyframeAnimation)
        ensures
            r.delay_ms == 0,
            r.tracks@ == tracks@,
    {
        MultiKeyframeAnimation { delay_ms: 0, tracks }
    }

    /// The same animation, starting `delay_ms` later than it is triggered.
    pub fn delay(self, delay_ms: u32) -> (r: MultiKeyframeAnimation)
        ensures
            r.delay_ms == delay_ms,
            r.tracks@ == self.tracks@,
    {
        MultiKeyframeAnimation { delay_ms, tracks: self.tracks }
    }

    /// When the last track ends, delay included (saturating).
    pub fn total_duration_ms(&self) -> (r: u32)
        ensures
            forall|i: int| 0 <= i < self.tracks@.len() ==> r >= sat_add_u32(
                self.delay_ms as int,
                #[trigger] self.tracks@[i].offset_ms + self.tracks@[i].duration_ms,
            ),
            r == self.delay_ms || exists|i: int| 0 <= i < self.tracks@.len() && r == sat_add_u32(
                self.delay_ms as int,
                #[trigger] self.tracks@[i].offset_ms + self.tracks@[i].duration_ms,
            ),
    {
        let mut best: u32 = self.delay_ms;
        let mut i: usize = 0;
        while i < self.tracks.len()
            invariant
                i <= self.tracks@.len(),
                best >= self.delay_ms,
                forall|k: int| 0 <= k < i ==> best >= sat_add_u32(
                    self.delay_ms as int,
                    #[trigger] self.tracks@[k].offset_ms + self.tracks@[k].duration_ms,
                ),
                best == self.delay_ms || exists|k: int| 0 <= k < i && best == sat_add_u32(
                    self.delay_ms as int,
                    #[trigger] self.tracks@[k].offset_ms + self.tracks@[k].duration_ms,
                ),
            decreases self.tracks@.len() - i,
        {
            let t = self.tracks[i];
            let span = t.offset_ms as u64 + t.duration_ms as u64 + self.delay_ms as u64;
            let end: u32 = if span > u32::MAX as u64 {
                u32::MAX
            } else {
                span as u32
            };
            if end > best {
                best = end;
            }
            i = i + 1;
        }
        best
    }

    /// A stopped timeline with one entry per track, in track order: entry `i`
    /// plays track `i`, starting after the delay plus the track's offset.
    pub fn to_timeline(&self) -> (r: AnimatedTimeline)
        ensures
            r.wf(),
            r@.entries.len() == self.tracks@.len(),
            forall|i: int| 0 <= i < self.tracks@.len() ==> #[trigger] r@.entries[i] == track_entry(self.tracks@[i], self.delay_ms, i),
            r@.elapsed_us == 0,
            !r@.playing,
    {
        let mut t = AnimatedTimeline::new();
        let mut i: usize = 0;
        while i < self.tracks.len()
            invariant
                t.wf(),
                i <= self.tracks@.len(),
                t@.entries.len() == i,
                forall|k: int| 0 <= k < i ==> #[trigger] t@.entries[k] == track_entry(self.tracks@[k], self.delay_ms, k),
                t@.elapsed_us == 0,
                !t@.playing,
            decreases self.tracks@.len() - i,
        {
            let tr = self.tracks[i];
            let s = self.delay_ms as u64 + tr.offset_ms as u64;
            let start: u32 = if s > u32::MAX as u64 {
                u32::MAX
            } else {
                s as u32
            };
            let ghost before = t@.entries;
            t.add_eased(start, tr.duration_ms, tr.from, tr.to, tr.easing);
            proof {
                assert forall|k: int| 0 <= k < i + 1 implies #[trigger] t@.entries[k] == track_entry(self.tracks@[k], self.delay_ms, k) by {
                    if k < i {
                        assert(t@.entries[k] == before[k]);
                    }
                }
            }
            i = i + 1;
        }
        t
    }
}

/// Tracks of `AnimationPreset::fade_in`.
pub open spec fn fade_in_tracks(duration_ms: u32) -> Seq<PropertyTrack> {
    seq![full_track(AnimatedProperty::Opacity, duration_ms, 0, UNIT, Easing::EaseOut)]
}

/// Tracks of `AnimationPreset::fade_out`.
pub open spec fn fade_out_tracks(duration_ms: u32) -> Seq<PropertyTrack> {
    seq![full_track(AnimatedProperty::Opacity, duration_ms, UNIT, 0, Easing::EaseIn)]
}

/// Tracks of `AnimationPreset::scale_in`.
pub open spec fn scale_in_tracks(duration_ms: u32) -> Seq<PropertyTrack> {
    seq![
                full_track(AnimatedProperty::Scale, duration_ms, 950_000, UNIT, Easing::EaseOut),
                full_track(AnimatedProperty::Opacity, duration_ms, 0, UNIT, Easing::EaseOut),
            ]
}

/// Tracks of `AnimationPreset::scale_out`.
pub open spec fn scale_out_tracks(duration_ms: u32) -> Seq<PropertyTrack> {
    seq![
                full_track(AnimatedProperty::Scale, duration_ms, UNIT, 950_000, Easing::EaseIn),
                full_track(AnimatedProperty::Opacity, duration_ms, UNIT, 0, Easing::EaseIn),
            ]
}

/// Tracks of `AnimationPreset::bounce_in`.
pub open spec fn bounce_in_tracks(duration_ms: u32) -> Seq<PropertyTrack> {
    seq![
                PropertyTrack { property: AnimatedProperty::Scale, offset_ms: 0, duration_ms: (duration_ms * 7 / 10) as u32, from: 300_000, to: 1_100_000, easing: Easing::EaseOut },
                PropertyTrack { property: AnimatedProperty::Scale, offset_ms: (duration_ms * 7 / 10) as u32, duration_ms: (duration_ms - duration_ms * 7 / 10) as u32, from: 1_100_000, to: UNIT, easing: Easing::EaseInOut },
                PropertyTrack { property: AnimatedProperty::Opacity, offset_ms: 0, duration_ms: (duration_ms * 7 / 10) as u32, from: 0, to: UNIT, easing: Easing::EaseOut },
            ]
}

/// Tracks of `AnimationPreset::bounce_out`.
pub open spec fn bounce_out_tracks(duration_ms: u32) -> Seq<PropertyTrack> {
    seq![
                full_track(AnimatedProperty::Scale, duration_ms, UNIT, 300_000, Easing::EaseIn),
                full_track(AnimatedProperty::Opacity, duration_ms, UNIT, 0, Easing::EaseIn),
            ]
}

/// Tracks of `AnimationPreset::pop_in`.
pub open spec fn pop_in_tracks(duration_ms: u32) -> Seq<PropertyTrack> {
    seq![
                PropertyTrack { property: AnimatedProperty::Scale, offset_ms: 0, duration_ms: (duration_ms * 7 / 10) as u32, from: 500_000, to: 1_100_000, easing: Easing::EaseOut },
                PropertyTrack { property: AnimatedProperty::Scale, offset_ms: (duration_ms * 7 / 10) as u32, duration_ms: (duration_ms - duration_ms * 7 / 10) as u32, from: 1_100_000, to: UNIT, easing: Easing::EaseInOut },
                PropertyTrack { property: AnimatedProperty::Opacity, offset_ms: 0, duration_ms: (duration_ms * 7 / 10) as u32, from: 0, to: UNIT, easing: Easing::EaseOut },
            ]
}

/// Tracks of a slide along `property`.
pub open spec fn slide_in_tracks(property: AnimatedProperty, start: i64, duration_ms: u32) -> Seq<PropertyTrack> {
    seq![
                full_track(property, duration_ms, start, 0, Easing::EaseOut),
                full_track(AnimatedProperty::Opacity, duration_ms, 0, UNIT, Easing::EaseOut),
            ]
}

/// Tracks of a slide along `property`.
pub open spec fn slide_out_tracks(property: AnimatedProperty, end: i64, duration_ms: u32) -> Seq<PropertyTrack> {
    seq![
                full_track(property, duration_ms, 0, end, Easing::EaseIn),
                full_track(AnimatedProperty::Opacity, duration_ms, UNIT, 0, Easing::EaseIn),
            ]
}

/// Distance that the slide presets travel: fifty pixels.
pub const SLIDE_DISTANCE: i64 = 50 * UNIT;

/// Ready-made entry and exit animations.
pub struct AnimationPreset;

impl AnimationPreset {
    /// Opacity from 0 to 1, easing out.
    pub fn fade_in(duration_ms: u32) -> (r: MultiKeyframeAnimation)
        ensures
            r.delay_ms == 0,
            r.tracks@ == fade_in_tracks(duration_ms),
    {
        MultiKeyframeAnimation { delay_ms: 0, tracks: vec![track(AnimatedProperty::Opacity, duration_ms, 0, UNIT, Easing::EaseOut)] }
    }

    /// Opacity from 1 to 0, easing in.
    pub fn fade_out(duration_ms: u32) -> (r: MultiKeyframeAnimation)
        ensures
            r.delay_ms == 0,
            r.tracks@ == fade_out_tracks(duration_ms),
    {
        MultiKeyframeAnimation { delay_ms: 0, tracks: vec![track(AnimatedProperty::Opacity, duration_ms, UNIT, 0, Easing::EaseIn)] }
    }

    /// Grows from 0.95 to full size while fading in, easing out.
    pub fn scale_in(duration_ms: u32) -> (r: MultiKeyframeAnimation)
        ensures
            r.delay_ms == 0,
            r.tracks@ == scale_in_tracks(duration_ms),
    {
        MultiKeyframeAnimation {
            delay_ms: 0,
            tracks: vec![
                track(AnimatedProperty::Scale, duration_ms, 950_000, UNIT, Easing::EaseOut),
                track(AnimatedProperty::Opacity, duration_ms, 0, UNIT, Easing::EaseOut),
            ],
        }
    }

    /// Shrinks from full size to 0.95 while fading out, easing in.
    pub fn scale_out(duration_ms: u32) -> (r: MultiKeyframeAnimation)
        ensures
            r.delay_ms == 0,
            r.tracks@ == scale_out_tracks(duration_ms),
    {
        MultiKeyframeAnimation {
            delay_ms: 0,
            tracks: vec![
                track(AnimatedProperty::Scale, duration_ms, UNIT, 950_000, Easing::EaseIn),
                track(AnimatedProperty::Opacity, duration_ms, UNIT, 0, Easing::EaseIn),
            ],
        }
    }

    /// Grows from 0.3 past full size (1.1) in the first 70% of the time, then
    /// settles back to full size; fades in over the first 70%.
    pub fn bounce_in(duration_ms: u32) -> (r: MultiKeyframeAnimation)
        ensures
            r.delay_ms == 0,
            r.tracks@ == bounce_in_tracks(duration_ms),
    {
        let first = (duration_ms as u64 * 7 / 10) as u32;
        let rest = duration_ms - first;
        MultiKeyframeAnimation {
            delay_ms: 0,
            tracks: vec![
                PropertyTrack { property: AnimatedProperty::Scale, offset_ms: 0, duration_ms: first, from: 300_000, to: 1_100_000, easing: Easing::EaseOut },
                PropertyTrack { property: AnimatedProperty::Scale, offset_ms: first, duration_ms: rest, from: 1_100_000, to: UNIT, easing: Easing::EaseInOut },
                PropertyTrack { property: AnimatedProperty::Opacity, offset_ms: 0, duration_ms: first, from: 0, to: UNIT, easing: Easing::EaseOut },
            ],
        }
    }

    /// Shrinks from full size to 0.3 while fading out, easing in.
    pub fn bounce_out(duration_ms: u32) -> (r: MultiKeyframeAnimation)
        ensures
            r.delay_ms == 0,
            r.tracks@ == bounce_out_tracks(duration_ms),
    {
        MultiKeyframeAnimation {
            delay_ms: 0,
            tracks: vec![
                track(AnimatedProperty::Scale, duration_ms, UNIT, 300_000, Easing::EaseIn),
                track(AnimatedProperty::Opacity, duration_ms, UNIT, 0, Easing::EaseIn),
            ],
        }
    }

    /// Grows from half size past full size (1.1) in the first 70% of the time,
    /// then settles back; fades in over the first 70%.
    pub fn pop_in(duration_ms: u32) -> (r: MultiKeyframeAnimation)
        ensures
            r.delay_ms == 0,
            r.tracks@ == pop_in_tracks(duration_ms),
    {
        let first = (duration_ms as u64 * 7 / 10) as u32;
        let rest = duration_ms - first;
        MultiKeyframeAnimation {
            delay_ms: 0,
            tracks: vec![
                PropertyTrack { property: AnimatedProperty::Scale, offset_ms: 0, duration_ms: first, from: 500_000, to: 1_100_000, easing: Easing::EaseOut },
                PropertyTrack { property: AnimatedProperty::Scale, offset_ms: first, duration_ms: rest, from: 1_100_000, to: UNIT, easing: Easing::EaseInOut },
                PropertyTrack { property: AnimatedProperty::Opacity, offset_ms: 0, duration_ms: first, from: 0, to: UNIT, easing: Easing::EaseOut },
            ],
        }
    }

    /// Slides along `property` from `start` to rest while fading in, easing out.
    fn slide_in(property: AnimatedProperty, start: i64, duration_ms: u32) -> (r: MultiKeyframeAnimation)
        ensures
            r.delay_ms == 0,
            r.tracks@ == slide_in_tracks(property, start, duration_ms),
    {
        MultiKeyframeAnimation {
            delay_ms: 0,
            tracks: vec![
                track(property, duration_ms, start, 0, Easing::EaseOut),
                track(AnimatedProperty::Opacity, duration_ms, 0, UNIT, Easing::EaseOut),
            ],
        }
    }

    /// Slides along `property` from rest to `end` while fading out, easing in.
    fn slide_out(property: AnimatedProperty, end: i64, duration_ms: u32) -> (r: MultiKeyframeAnimation)
        ensures
            r.delay_ms == 0,
            r.tracks@ == slide_out_tracks(property, end, duration_ms),
    {
        MultiKeyframeAnimation {
            delay_ms: 0,
            tracks: vec![
                track(property, duration_ms, 0, end, Easing::EaseIn),
                track(AnimatedProperty::Opacity, duration_ms, UNIT, 0, Easing::EaseIn),
            ],
        }
    }

    /// Enters from `distance` to the left.
    pub fn slide_in_left(duration_ms: u32, distance: i64) -> (r: MultiKeyframeAnimation)
        requires
            distance > i64::MIN,
        ensures
            r.delay_ms == 0,
            r.tracks@ == slide_in_tracks(AnimatedProperty::TranslateX, -distance as i64, duration_ms),
    {
        Self::slide_in(AnimatedProperty::TranslateX, -distance, duration_ms)
    }

    /// Enters from `distance` to the right.
    pub fn slide_in_right(duration_ms: u32, distance: i64) -> (r: MultiKeyframeAnimation)
        ensures
            r.delay_ms == 0,
            r.tracks@ == slide_in_tracks(AnimatedProperty::TranslateX, distance, duration_ms),
    {
        Self::slide_in(AnimatedProperty::TranslateX, distance, duration_ms)
    }

    /// Enters from `distance` above.
    pub fn slide_in_top(duration_ms: u32, distance: i64) -> (r: MultiKeyframeAnimation)
        requires
            distance > i64::MIN,
        ensures
            r.delay_ms == 0,
            r.tracks@ == slide_in_tracks(AnimatedProperty::TranslateY, -distance as i64, duration_ms),
    {
        Self::slide_in(AnimatedProperty::TranslateY, -distance, duration_ms)
    }

    /// Enters from `distance` below.
    pub fn slide_in_bottom(duration_ms: u32, distance: i64) -> (r: MultiKeyframeAnimation)
        ensures
            r.delay_ms == 0,
            r.tracks@ == slide_in_tracks(AnimatedProperty::TranslateY, distance, duration_ms),
    {
        Self::slide_in(AnimatedProperty::TranslateY, distance, duration_ms)
    }

    /// Leaves `distance` to the left.
    pub fn slide_out_left(duration_ms: u32, distance: i64) -> (r: MultiKeyframeAnimation)
        requires
            distance > i64::MIN,
        ensures
            r.delay_ms == 0,
            r.tracks@ == slide_out_tracks(AnimatedProperty::TranslateX, -distance as i64, duration_ms),
    {
        Self::slide_out(AnimatedProperty::TranslateX, -distance, duration_ms)
    }

    /// Leaves `distance` to the right.
    pub fn slide_out_right(duration_ms: u32, distance: i64) -> (r: MultiKeyframeAnimation)
        ensures
            r.delay_ms == 0,
            r.tracks@ == slide_out_tracks(AnimatedProperty::TranslateX, distance, duration_ms),
    {
        Self::slide_out(AnimatedProperty::TranslateX, distance, duration_ms)
    }

    /// Leaves `distance` upward.
    pub fn slide_out_top(duration_ms: u32, distance: i64) -> (r: MultiKeyframeAnimation)
        requires
            distance > i64::MIN,
        ensures
            r.delay_ms == 0,
            r.tracks@ == slide_out_tracks(AnimatedProperty::TranslateY, -distance as i64, duration_ms),
    {
        Self::slide_out(AnimatedProperty::TranslateY, -distance, duration_ms)
    }

    /// Leaves `distance` downward.
    pub fn slide_out_bottom(duration_ms: u32, distance: i64) -> (r: MultiKeyframeAnimation)
        ensures
            r.delay_ms == 0,
            r.tracks@ == slide_out_tracks(AnimatedProperty::TranslateY, distance, duration_ms),
    {
        Self::slide_out(AnimatedProperty::TranslateY, distance, duration_ms)
    }
}

} // verus!
