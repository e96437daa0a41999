use vstd::prelude::*;
use crate::registry::{Handle, Registry, RegistryError, RegistryView};
use crate::spring::{clamp_value, integrate, SpringConfig};
use crate::timeline::{AnimatedTimeline, KeyframeEntry, Easing, entry_value_at};
use crate::value::AnimatedValue;

verus! {

/// Whether a change that leaves something `moving` must wake the host: only on
/// the edge from idle to active.
pub open spec fn wake_edge(active: bool, moving: bool) -> bool {
    !active && moving
}

/// Something observed by the scheduler: a change made by the UI (`Activity`),
/// or the end of a tick. `moving` says whether motion remains afterwards.
pub enum SchedulerEvent {
    Activity { moving: bool },
    Tick { moving: bool },
}

/// Activity flag after an event.
pub open spec fn next_active(active: bool, event: SchedulerEvent) -> bool {
    match event {
        SchedulerEvent::Activity { moving } => active || moving,
        SchedulerEvent::Tick { moving } => moving,
    }
}

/// Whether an event makes the scheduler call the wake callback.
pub open spec fn wakes_on(active: bool, event: SchedulerEvent) -> bool {
    match event {
        SchedulerEvent::Activity { moving } => wake_edge(active, moving),
        SchedulerEvent::Tick { .. } => false,
    }
}

/// Number of wake calls over a run of events, starting from `active`.
pub open spec fn count_wakes(active: bool, events: Seq<SchedulerEvent>) -> nat
    decreases events.len(),
{
    if events.len() == 0 {
        0
    } else {
        (if wakes_on(active, events[0]) { 1nat } else { 0nat }) + count_wakes(
            next_active(active, events[0]),
            events.skip(1),
        )
    }
}

/// Whether every tick in `events` ends with motion remaining.
pub open spec fn ticks_keep_moving(events: Seq<SchedulerEvent>) -> bool {
    forall|i: int| 0 <= i < events.len() ==> match #[trigger] events[i] {
        SchedulerEvent::Tick { moving } => moving,
        SchedulerEvent::Activity { .. } => true,
    }
}

/// While the scheduler is active and each tick leaves something moving, no
/// further wake call is made, whatever the UI does in between.
pub proof fn lemma_no_wake_while_active(events: Seq<SchedulerEvent>)
    requires
        ticks_keep_moving(events),
    ensures
        count_wakes(true, events) == 0,
    decreases events.len(),
{
    if events.len() > 0 {
        let rest = events.skip(1);
        assert forall|i: int| 0 <= i < rest.len() implies match #[trigger] rest[i] {
            SchedulerEvent::Tick { moving } => moving,
            SchedulerEvent::Activity { .. } => true,
        } by {
            assert(rest[i] == events[i + 1]);
        }
        assert(events[0] == events[0]);
        lemma_no_wake_while_active(rest);
    }
}

/// The wake callback fires exactly once for an idle-to-active edge: starting
/// idle, a change that sets something moving wakes the host once, and nothing
/// after it wakes the host again while every tick leaves something moving.
pub proof fn law_wake_once_per_edge(events: Seq<SchedulerEvent>)
    requires
        events.len() >= 1,
        events[0] == (SchedulerEvent::Activity { moving: true }),
        ticks_keep_moving(events),
    ensures
        count_wakes(false, events) == 1,
{
    let rest = events.skip(1);
    assert forall|i: int| 0 <= i < rest.len() implies match #[trigger] rest[i] {
        SchedulerEvent::Tick { moving } => moving,
        SchedulerEvent::Activity { .. } => true,
    } by {
        assert(rest[i] == events[i + 1]);
    }
    lemma_no_wake_while_active(rest);
}

/// A change to an idle scheduler that leaves nothing moving wakes nobody.
pub proof fn law_no_wake_without_motion(active: bool)
    ensures
        !wakes_on(active, SchedulerEvent::Activity { moving: false }),
        next_active(active, SchedulerEvent::Activity { moving: false }) == active,
{
}

/// Owns every animated value and timeline, ticks them, and tracks whether any of
/// them still moves.
pub struct SchedulerCore {
    registry: Registry<AnimatedValue, AnimatedTimeline>,
    tick_count: u64,
    active: bool,
}

/// Whether anything in the registry still moves.
pub open spec fn any_moving(r: RegistryView<AnimatedValue, AnimatedTimeline>) -> bool {
    (exists|i: int| 0 <= i < r.values.len() && !(#[trigger] r.values[i])@.settled)
        || (exists|j: int| 0 <= j < r.timelines.len() && (#[trigger] r.timelines[j])@.active())
}

impl SchedulerCore {
    pub closed spec fn spec_registry(&self) -> RegistryView<AnimatedValue, AnimatedTimeline> {
        self.registry@
    }

    pub closed spec fn spec_active(&self) -> bool {
        self.active
    }

    pub closed spec fn spec_tick_count(&self) -> int {
        self.tick_count as int
    }

    /// The registry is well formed and so is every value and timeline in it.
    pub open spec fn wf(&self) -> bool {
        &&& self.spec_registry().wf()
        &&& forall|i: int| 0 <= i < self.spec_registry().values.len() ==> (#[trigger] self.spec_registry().values[i]).wf()
        &&& forall|j: int| 0 <= j < self.spec_registry().timelines.len() ==> (#[trigger] self.spec_registry().timelines[j]).wf()
    }

    /// An idle scheduler with nothing registered.
    pub fn new() -> (r: SchedulerCore)
        ensures
            r.wf(),
            r.spec_registry().keys.len() == 0,
            r.spec_registry().values.len() == 0,
            r.spec_registry().timelines.len() == 0,
            !r.spec_active(),
            r.spec_tick_count() == 0,
    {
        SchedulerCore { registry: Registry::new(), tick_count: 0, active: false }
    }

    /// Whether some entry was still moving after the last change or tick.
    pub fn is_active(&self) -> (r: bool)
        ensures
            r == self.spec_active(),
    {
        self.active
    }

    /// Ticks run so far (saturating).
    pub fn tick_count(&self) -> (r: u64)
        ensures
            r == self.spec_tick_count(),
    {
        self.tick_count
    }

    /// The value under `key`, created resting at `initial` when `key` is unseen.
    /// First registration wins: a later call ignores `initial` and `config`.
    pub fn value_for(&mut self, key: &str, initial: i64, config: SpringConfig) -> (r: Result<usize, RegistryError>)
        requires
            old(self).wf(),
            config.wf(),
        ensures
            final(self).wf(),
            (final(self).spec_registry(), r) == old(self).spec_registry().value_for(key@, AnimatedValue::resting_at(initial, config)),
            final(self).spec_active() == old(self).spec_active(),
            final(self).spec_tick_count() == old(self).spec_tick_count(),
    {
        let v = AnimatedValue::new(initial, config);
        let ghost before = self.registry@;
        let r = self.registry.value_for(key, v);
        proof {
            assert forall|i: int| 0 <= i < self.spec_registry().values.len() implies (#[trigger] self.spec_registry().values[i]).wf() by {
                if i < before.values.len() {
                    assert(self.spec_registry().values[i] == before.values[i]);
                }
            }
            assert forall|j: int| 0 <= j < self.spec_registry().timelines.len() implies (#[trigger] self.spec_registry().timelines[j]).wf() by {
                assert(self.spec_registry().timelines[j] == before.timelines[j]);
            }
        }
        r
    }

    /// The timeline under `key`, created empty when `key` is unseen; an existing
    /// timeline is returned as it is, and a value under `key` is refused.
    pub fn timeline_for(&mut self, key: &str) -> (r: Result<usize, RegistryError>)
        requires
            old(self).wf(),
        ensures
            final(self).wf(),
            exists|t: AnimatedTimeline|
                t@.entries.len() == 0 && t@.elapsed_us == 0 && !t@.playing
                && (final(self).spec_registry(), r) == old(self).spec_registry().timeline_for(key@, t),
            final(self).spec_active() == old(self).spec_active(),
            final(self).spec_tick_count() == old(self).spec_tick_count(),
    {
        let t = AnimatedTimeline::new();
        let ghost before = self.registry@;
        let r = self.registry.timeline_for(key, t);
        proof {
            assert forall|i: int| 0 <= i < self.spec_registry().values.len() implies (#[trigger] self.spec_registry().values[i]).wf() by {
                assert(self.spec_registry().values[i] == before.values[i]);
            }
            assert forall|j: int| 0 <= j < self.spec_registry().timelines.len() implies (#[trigger] self.spec_registry().timelines[j]).wf() by {
                if j < before.timelines.len() {
                    assert(self.spec_registry().timelines[j] == before.timelines[j]);
                }
            }
        }
        r
    }

    /// The entry `key` names, if any.
    pub fn lookup(&self, key: &str) -> (r: Option<Handle>)
        requires
            self.wf(),
        ensures
            r == self.spec_registry().lookup(key@),
    {
        self.registry.lookup(key)
    }

    /// Forgets `key`. A value it named comes to rest where it is and a timeline it
    /// named stops, so neither keeps the scheduler awake; handles stay usable.
    pub fn remove(&mut self, key: &str) -> (r: Option<Handle>)
        requires
            old(self).wf(),
        ensures
            final(self).wf(),
            r == old(self).spec_registry().lookup(key@),
            final(self).spec_registry().lookup(key@).is_none(),
            forall|k: Seq<char>| k != key@ ==> #[trigger] final(self).spec_registry().lookup(k) == old(self).spec_registry().lookup(k),
            final(self).spec_registry().values.len() == old(self).spec_registry().values.len(),
            final(self).spec_registry().timelines.len() == old(self).spec_registry().timelines.len(),
            r matches Some(Handle::Value(n)) ==> final(self).spec_registry().values[n as int]@.settled,
            r matches Some(Handle::Timeline(n)) ==> !final(self).spec_registry().timelines[n as int]@.playing,
            final(self).spec_active() == old(self).spec_active(),
    {
        let r = self.registry.remove(key);
        let ghost mid = self.registry@;
        match r {
            Some(Handle::Value(n)) => {
                let mut v = *self.registry.value(n);
                let c = v.get();
                v.snap_to(c);
                let ghost before = self.registry@;
                self.registry.set_value(n, v);
                proof {
                    assert forall|i: int| 0 <= i < self.spec_registry().values.len() implies (#[trigger] self.spec_registry().values[i]).wf() by {
                        if i != n {
                            assert(self.spec_registry().values[i] == before.values[i]);
                        }
                    }
                }
            },
            Some(Handle::Timeline(n)) => {
                let ghost before = self.registry@;
                let t = self.registry.timeline_mut(n);
                t.stop();
                proof {
                    assert forall|j: int| 0 <= j < self.spec_registry().timelines.len() implies (#[trigger] self.spec_registry().timelines[j]).wf() by {
                        if j != n {
                            assert(self.spec_registry().timelines[j] == before.timelines[j]);
                        }
                    }
                }
            },
            None => {},
        }
        proof {
            assert(self.registry@.keys == mid.keys);
            assert forall|k: Seq<char>| k != key@ implies #[trigger] self.spec_registry().lookup(k) == old(self).spec_registry().lookup(k) by {
                assert(mid.lookup(k) == old(self).spec_registry().lookup(k));
            }
        }
        r
    }

    /// Current position of value `h`; `None` for a handle never given out.
    pub fn get(&self, h: usize) -> (r: Option<i64>)
        ensures
            h < self.spec_registry().values.len() ==> r == Some(self.spec_registry().values[h as int]@.current as i64),
            h >= self.spec_registry().values.len() ==> r.is_none(),
    {
        if h < self.registry.value_count() {
            Some(self.registry.value(h).get())
        } else {
            None
        }
    }

    /// A copy of value `h`; `None` for a handle never given out.
    pub fn value(&self, h: usize) -> (r: Option<AnimatedValue>)
        ensures
            h < self.spec_registry().values.len() ==> r == Some(self.spec_registry().values[h as int]),
            h >= self.spec_registry().values.len() ==> r.is_none(),
    {
        if h < self.registry.value_count() {
            Some(*self.registry.value(h))
        } else {
            None
        }
    }

    /// Retargets value `h` (see `AnimatedValue::set_target`). Returns whether the
    /// host must be woken: the value now moves and the scheduler was idle. A handle
    /// never given out changes nothing.
    pub fn set_target(&mut self, h: usize, target: i64) -> (wake: bool)
        requires
            old(self).wf(),
        ensures
            final(self).wf(),
            final(self).spec_tick_count() == old(self).spec_tick_count(),
            final(self).spec_registry().keys == old(self).spec_registry().keys,
            final(self).spec_registry().timelines == old(self).spec_registry().timelines,
            final(self).spec_registry().values.len() == old(self).spec_registry().values.len(),
            forall|i: int| 0 <= i < old(self).spec_registry().values.len() && i != h ==>
                #[trigger] final(self).spec_registry().values[i] == old(self).spec_registry().values[i],
            h >= old(self).spec_registry().values.len() ==> !wake && final(self).spec_active() == old(self).spec_active(),
            h < old(self).spec_registry().values.len() ==> ({
                let before = old(self).spec_registry().values[h as int]@;
                let after = final(self).spec_registry().values[h as int]@;
                &&& after.target == clamp_value(target as int)
                &&& after.current == before.current
                &&& after.velocity == before.velocity
                &&& after.config == before.config
                &&& wake == wake_edge(old(self).spec_active(), !after.settled)
                &&& final(self).spec_active() == next_active(
                    old(self).spec_active(),
                    SchedulerEvent::Activity { moving: !after.settled },
                )
            }),
    {
        if h >= self.registry.value_count() {
            return false;
        }
        let mut v = *self.registry.value(h);
        v.set_target(target);
        let ghost before = self.registry@;
        self.registry.set_value(h, v);
        proof {
            assert forall|i: int| 0 <= i < self.spec_registry().values.len() implies (#[trigger] self.spec_registry().values[i]).wf() by {
                if i != h {
                    assert(self.spec_registry().values[i] == before.values[i]);
                }
            }
        }
        let moving = !v.is_settled();
        let wake = !self.active && moving;
        self.active = self.active || moving;
        wake
    }

    /// A copy of the entry `id` of timeline `h`, if both exist.
    pub fn timeline_entry(&self, h: usize, id: u64) -> (r: Option<KeyframeEntry>)
        requires
            self.wf(),
        ensures
            h < self.spec_registry().timelines.len() && id < self.spec_registry().timelines[h as int]@.entries.len()
                ==> r == Some(self.spec_registry().timelines[h as int]@.entries[id as int]),
            !(h < self.spec_registry().timelines.len() && id < self.spec_registry().timelines[h as int]@.entries.len())
                ==> r.is_none(),
    {
        if h < self.registry.timeline_count() {
            self.registry.timeline(h).entry(id)
        } else {
            None
        }
    }

    /// Current value of entry `id` of timeline `h`, if both exist.
    pub fn timeline_value_at(&self, h: usize, id: u64) -> (r: Option<i64>)
        requires
            self.wf(),
        ensures
            h < self.spec_registry().timelines.len() && id < self.spec_registry().timelines[h as int]@.entries.len()
                ==> r == Some(entry_value_at(
                    self.spec_registry().timelines[h as int]@.entries[id as int],
                    self.spec_registry().timelines[h as int]@.elapsed_ms(),
                ) as i64),
            !(h < self.spec_registry().timelines.len() && id < self.spec_registry().timelines[h as int]@.entries.len())
                ==> r.is_none(),
    {
        if h < self.registry.timeline_count() {
            self.registry.timeline(h).value_at(id)
        } else {
            None
        }
    }

    /// Whether timeline `h` has entries; `false` for a handle never given out.
    pub fn timeline_has_entries(&self, h: usize) -> (r: bool)
        ensures
            r == (h < self.spec_registry().timelines.len() && self.spec_registry().timelines[h as int]@.entries.len() > 0),
    {
        h < self.registry.timeline_count() && self.registry.timeline(h).has_entries()
    }

    /// Appends a segment to timeline `h` and returns its id; `None` for a handle
    /// never given out (or a timeline holding `u64::MAX` entries).
    pub fn timeline_add(&mut self, h: usize, start_ms: u32, duration_ms: u32, from: i64, to: i64, easing: Easing) -> (r: Option<u64>)
        requires
            old(self).wf(),
        ensures
            final(self).wf(),
            final(self).spec_active() == old(self).spec_active(),
            final(self).spec_tick_count() == old(self).spec_tick_count(),
            final(self).spec_registry().keys == old(self).spec_registry().keys,
            final(self).spec_registry().values == old(self).spec_registry().values,
            final(self).spec_registry().timelines.len() == old(self).spec_registry().timelines.len(),
            forall|j: int| 0 <= j < old(self).spec_registry().timelines.len() && j != h ==>
                #[trigger] final(self).spec_registry().timelines[j] == old(self).spec_registry().timelines[j],
            h < old(self).spec_registry().timelines.len() && old(self).spec_registry().timelines[h as int]@.entries.len() < u64::MAX
                ==> r == Some(old(self).spec_registry().timelines[h as int]@.entries.len() as u64)
                && final(self).spec_registry().timelines[h as int]@.entries == old(self).spec_registry().timelines[h as int]@.entries.push(
                    KeyframeEntry {
                        id: r.unwrap(),
                        start_ms,
                        duration_ms,
                        from: clamp_value(from as int) as i64,
                        to: clamp_value(to as int) as i64,
                        easing,
                    },
                ) && final(self).spec_registry().timelines[h as int]@.playing == old(self).spec_registry().timelines[h as int]@.playing
                && final(self).spec_registry().timelines[h as int]@.elapsed_us == old(self).spec_registry().timelines[h as int]@.elapsed_us,
            !(h < old(self).spec_registry().timelines.len() && old(self).spec_registry().timelines[h as int]@.entries.len() < u64::MAX)
                ==> r.is_none() && final(self).spec_registry() == old(self).spec_registry(),
    {
        if h >= self.registry.timeline_count() {
            return None;
        }
        if !self.registry.timeline(h).has_room() {
            return None;
        }
        let ghost before = self.registry@;
        let t = self.registry.timeline_mut(h);
        let id = t.add_eased(start_ms, duration_ms, from, to, easing);
        proof {
            assert forall|j: int| 0 <= j < self.spec_registry().timelines.len() implies (#[trigger] self.spec_registry().timelines[j]).wf() by {
                if j != h {
                    assert(self.spec_registry().timelines[j] == before.timelines[j]);
                }
            }
        }
        Some(id)
    }

    /// Plays timeline `h` from the beginning. Returns whether the host must be
    /// woken: the timeline now moves and the scheduler was idle.
    pub fn timeline_start(&mut self, h: usize) -> (wake: bool)
        requires
            old(self).wf(),
        ensures
            final(self).wf(),
            final(self).spec_tick_count() == old(self).spec_tick_count(),
            final(self).spec_registry().keys == old(self).spec_registry().keys,
            final(self).spec_registry().values == old(self).spec_registry().values,
            final(self).spec_registry().timelines.len() == old(self).spec_registry().timelines.len(),
            forall|j: int| 0 <= j < old(self).spec_registry().timelines.len() && j != h ==>
                #[trigger] final(self).spec_registry().timelines[j] == old(self).spec_registry().timelines[j],
            h >= old(self).spec_registry().timelines.len() ==> !wake && final(self).spec_active() == old(self).spec_active(),
            h < old(self).spec_registry().timelines.len() ==> ({
                let before = old(self).spec_registry().timelines[h as int]@;
                let after = final(self).spec_registry().timelines[h as int]@;
                &&& after.entries == before.entries
                &&& after.elapsed_us == 0
                &&& after.playing
                &&& wake == wake_edge(old(self).spec_active(), after.active())
                &&& final(self).spec_active() == next_active(
                    old(self).spec_active(),
                    SchedulerEvent::Activity { moving: after.active() },
                )
            }),
    {
        if h >= self.registry.timeline_count() {
            return false;
        }
        let ghost before = self.registry@;
        let t = self.registry.timeline_mut(h);
        t.start();
        let moving = t.is_active();
        proof {
            assert forall|j: int| 0 <= j < self.spec_registry().timelines.len() implies (#[trigger] self.spec_registry().timelines[j]).wf() by {
                if j != h {
                    assert(self.spec_registry().timelines[j] == before.timelines[j]);
                }
            }
        }
        let wake = !self.active && moving;
        self.active = self.active || moving;
        wake
    }

    /// Stops timeline `h`, keeping its time played; nothing else changes. The
    /// scheduler turns idle at the next tick if nothing else moves.
    pub fn timeline_stop(&mut self, h: usize)
        requires
            old(self).wf(),
        ensures
            final(self).wf(),
            final(self).spec_active() == old(self).spec_active(),
            final(self).spec_tick_count() == old(self).spec_tick_count(),
            final(self).spec_registry().keys == old(self).spec_registry().keys,
            final(self).spec_registry().values == old(self).spec_registry().values,
            final(self).spec_registry().timelines.len() == old(self).spec_registry().timelines.len(),
            forall|j: int| 0 <= j < old(self).spec_registry().timelines.len() && j != h ==>
                #[trigger] final(self).spec_registry().timelines[j] == old(self).spec_registry().timelines[j],
            h < old(self).spec_registry().timelines.len() ==> ({
                let before = old(self).spec_registry().timelines[h as int]@;
                let after = final(self).spec_registry().timelines[h as int]@;
                &&& after.entries == before.entries
                &&& after.elapsed_us == before.elapsed_us
                &&& !after.playing
            }),
    {
        if h >= self.registry.timeline_count() {
            return;
        }
        let ghost before = self.registry@;
        let t = self.registry.timeline_mut(h);
        t.stop();
        proof {
            assert forall|j: int| 0 <= j < self.spec_registry().timelines.len() implies (#[trigger] self.spec_registry().timelines[j]).wf() by {
                if j != h {
                    assert(self.spec_registry().timelines[j] == before.timelines[j]);
                }
            }
        }
    }

    /// One tick: every value integrates `dt_us` microseconds (see
    /// `AnimatedValue::tick`), every playing timeline gains `dt_us` of play time,
    /// and the scheduler is active afterwards exactly when something still moves.
    /// A tick never wakes the host.
    pub fn tick_once(&mut self, dt_us: u64)
        requires
            old(self).wf(),
        ensures
            final(self).wf(),
            final(self).spec_tick_count() == if old(self).spec_tick_count() == u64::MAX {
                u64::MAX as int
            } else {
                old(self).spec_tick_count() + 1
            },
            final(self).spec_registry().keys == old(self).spec_registry().keys,
            final(self).spec_registry().values.len() == old(self).spec_registry().values.len(),
            final(self).spec_registry().timelines.len() == old(self).spec_registry().timelines.len(),
            forall|i: int| 0 <= i < old(self).spec_registry().values.len() ==> ({
                let before = old(self).spec_registry().values[i]@;
                let after = (#[trigger] final(self).spec_registry().values[i])@;
                &&& (after.current, after.velocity) == integrate(before.current, before.velocity, before.target, before.config, dt_us as nat)
                &&& after.target == before.target
                &&& after.config == before.config
            }),
            forall|j: int| 0 <= j < old(self).spec_registry().timelines.len() ==> ({
                let before = old(self).spec_registry().timelines[j]@;
                let after = (#[trigger] final(self).spec_registry().timelines[j])@;
                &&& after.entries == before.entries
                &&& after.playing == before.playing
                &&& after.elapsed_us == if before.playing {
                    let t = before.elapsed_us + dt_us;
                    if t > u64::MAX { u64::MAX as int } else { t }
                } else {
                    before.elapsed_us
                }
            }),
            final(self).spec_active() == any_moving(final(self).spec_registry()),
    {
        let ghost start = self.registry@;
        let ghost count = self.tick_count;
        let mut moving_value = false;
        let n = self.registry.value_count();
        let mut i: usize = 0;
        while i < n
            invariant
                self.wf(),
                n == start.values.len(),
                self.tick_count == count,
                i <= n,
                self.registry@.keys == start.keys,
                self.registry@.timelines == start.timelines,
                self.registry@.values.len() == n,
                forall|k: int| i <= k < n ==> #[trigger] self.registry@.values[k] == start.values[k],
                forall|k: int| 0 <= k < i ==> ({
                    let before = start.values[k]@;
                    let after = (#[trigger] self.registry@.values[k])@;
                    &&& (after.current, after.velocity) == integrate(before.current, before.velocity, before.target, before.config, dt_us as nat)
                    &&& after.target == before.target
                    &&& after.config == before.config
                }),
                moving_value == exists|k: int| 0 <= k < i && !(#[trigger] self.registry@.values[k])@.settled,
            decreases n - i,
        {
            let mut v = *self.registry.value(i);
            v.tick(dt_us);
            let ghost before = self.registry@;
            self.registry.set_value(i, v);
            proof {
                assert forall|k: int| 0 <= k < self.spec_registry().values.len() implies (#[trigger] self.spec_registry().values[k]).wf() by {
                    if k != i {
                        assert(self.spec_registry().values[k] == before.values[k]);
                    }
                }
                assert forall|k: int| 0 <= k < i implies #[trigger] self.registry@.values[k] == before.values[k] by {}
            }
            if !v.is_settled() {
                moving_value = true;
            }
            proof {
                assert(self.registry@.values[i as int] == v);
                if exists|k: int| 0 <= k < i && !(#[trigger] before.values[k])@.settled {
                    let k = choose|k: int| 0 <= k < i && !(#[trigger] before.values[k])@.settled;
                    assert(self.registry@.values[k] == before.values[k]);
                }
            }
            i = i + 1;
        }
        let ghost ticked = self.registry@;
        let mut moving_timeline = false;
        let m = self.registry.timeline_count();
        let mut j: usize = 0;
        while j < m
            invariant
                self.wf(),
                m == start.timelines.len(),
                self.tick_count == count,
                j <= m,
                self.registry@.keys == start.keys,
                self.registry@.values == ticked.values,
                self.registry@.timelines.len() == m,
                ticked.timelines == start.timelines,
                forall|k: int| j <= k < m ==> #[trigger] self.registry@.timelines[k] == start.timelines[k],
                forall|k: int| 0 <= k < j ==> ({
                    let before = start.timelines[k]@;
                    let after = (#[trigger] self.registry@.timelines[k])@;
                    &&& after.entries == before.entries
                    &&& after.playing == before.playing
                    &&& after.elapsed_us == if before.playing {
                        let t = before.elapsed_us + dt_us;
                        if t > u64::MAX { u64::MAX as int } else { t }
                    } else {
                        before.elapsed_us
                    }
                }),
                moving_timeline == exists|k: int| 0 <= k < j && (#[trigger] self.registry@.timelines[k])@.active(),
            decreases m - j,
        {
            let ghost before = self.registry@;
            let t = self.registry.timeline_mut(j);
            t.advance_us(dt_us);
            let active = t.is_active();
            proof {
                assert forall|k: int| 0 <= k < self.spec_registry().timelines.len() implies (#[trigger] self.spec_registry().timelines[k]).wf() by {
                    if k != j {
                        assert(self.spec_registry().timelines[k] == before.timelines[k]);
                    } else {
                        assert(self.spec_registry().timelines[k]@.entries == before.timelines[k]@.entries);
                    }
                }
                assert forall|k: int| 0 <= k < j implies #[trigger] self.registry@.timelines[k] == before.timelines[k] by {}
            }
            if active {
                moving_timeline = true;
            }
            proof {
                assert(self.registry@.timelines[j as int]@.active() == active);
                if exists|k: int| 0 <= k < j && (#[trigger] before.timelines[k])@.active() {
                    let k = choose|k: int| 0 <= k < j && (#[trigger] before.timelines[k])@.active();
                    assert(self.registry@.timelines[k] == before.timelines[k]);
                }
            }
            j = j + 1;
        }
        self.active = moving_value || moving_timeline;
        if self.tick_count < u64::MAX {
            self.tick_count = self.tick_count + 1;
        }
    }
}

/// Guards the background tick loop so that it is started at most once.
pub struct BackgroundControl {
    running: bool,
}

impl BackgroundControl {
    pub closed spec fn spec_running(&self) -> bool {
        self.running
    }

    /// No loop running.
    pub fn new() -> (r: BackgroundControl)
        ensures
            !r.spec_running(),
    {
        BackgroundControl { running: false }
    }

    /// Marks the loop as running; returns whether the caller must spawn it,
    /// which is only when it was not running already.
    pub fn start(&mut self) -> (spawn: bool)
        ensures
            spawn == !old(self).spec_running(),
            final(self).spec_running(),
    {
        let spawn = !self.running;
        self.running = true;
        spawn
    }

    /// Marks the loop as stopped; returns whether it was running.
    pub fn stop(&mut self) -> (was_running: bool)
        ensures
            was_running == old(self).spec_running(),
            !final(self).spec_running(),
    {
        let was = self.running;
        self.running = false;
        was
    }

    pub fn is_running(&self) -> (r: bool)
        ensures
            r == self.spec_running(),
    {
        self.running
    }
}

} // verus!
