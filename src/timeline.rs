use vstd::prelude::*;
use vstd::arithmetic::div_mod::{lemma_div_by_multiple, lemma_div_is_ordered};
use crate::spring::{clamp_value, div_trunc, in_range, VALUE_LIMIT};

verus! {

/// Shape of the progress curve of a keyframe entry.
#[derive(Clone, Copy, Debug, PartialEq, Eq, Structural)]
pub enum Easing {
    /// Constant speed.
    Linear,
    /// Quadratic: starts slowly.
    EaseIn,
    /// Quadratic: ends slowly.
    EaseOut,
    /// Quadratic at both ends.
    EaseInOut,
}

impl Default for Easing {
    fn default() -> (r: Easing)
        ensures
            r == Easing::EaseOut,
    {
        Easing::EaseOut
    }
}

/// Eased progress, over `den * den`, of a segment `num / den` of the way through.
pub open spec fn eased(easing: Easing, num: int, den: int) -> int {
    match easing {
        Easing::Linear => num * den,
        Easing::EaseIn => num * num,
        Easing::EaseOut => den * den - (den - num) * (den - num),
        Easing::EaseInOut => if 2 * num < den {
            2 * num * num
        } else {
            den * den - 2 * (den - num) * (den - num)
        },
    }
}

proof fn lemma_eased_bounds(easing: Easing, num: int, den: int)
    requires
        0 <= num <= den,
        den > 0,
    ensures
        0 <= eased(easing, num, den) <= den * den,
{
    match easing {
        Easing::Linear => {
            assert(0 <= num * den <= den * den) by (nonlinear_arith)
                requires 0 <= num <= den;
        },
        Easing::EaseIn => {
            assert(0 <= num * num <= den * den) by (nonlinear_arith)
                requires 0 <= num <= den;
        },
        Easing::EaseOut => {
            let r = den - num;
            assert(0 <= r * r <= den * den) by (nonlinear_arith)
                requires 0 <= r <= den;
        },
        Easing::EaseInOut => {
            if 2 * num < den {
                assert(0 <= 2 * num * num <= den * den) by (nonlinear_arith)
                    requires 0 <= num, 2 * num < den;
            } else {
                let r = den - num;
                assert(0 <= 2 * r * r <= den * den) by (nonlinear_arith)
                    requires 0 <= r, 2 * r <= den;
            }
        },
    }
}

/// One interpolation segment of a timeline.
#[derive(Clone, Copy, Debug, PartialEq, Eq, Structural)]
pub struct KeyframeEntry {
    pub id: u64,
    pub start_ms: u32,
    pub duration_ms: u32,
    pub from: i64,
    pub to: i64,
    pub easing: Easing,
}

/// Where the segment ends, in milliseconds since the timeline started.
pub open spec fn entry_end(e: KeyframeEntry) -> int {
    e.start_ms + e.duration_ms
}

/// Progress through `e`, in thousandths: 0 up to its start, 1000 from its end on.
pub open spec fn progress_permille_at(e: KeyframeEntry, elapsed_ms: int) -> int {
    if elapsed_ms <= e.start_ms {
        0
    } else if elapsed_ms >= entry_end(e) {
        1000
    } else {
        (elapsed_ms - e.start_ms) * 1000 / (e.duration_ms as int)
    }
}

/// Value of `e` after `elapsed_ms`: `from` up to its start, `to` from its end on,
/// and between them `from + (to − from)·easing(progress)`, rounded toward `from`.
pub open spec fn entry_value_at(e: KeyframeEntry, elapsed_ms: int) -> int {
    if elapsed_ms <= e.start_ms {
        e.from as int
    } else if elapsed_ms >= entry_end(e) {
        e.to as int
    } else {
        let den = e.duration_ms as int;
        e.from + div_trunc((e.to - e.from) * eased(e.easing, elapsed_ms - e.start_ms, den), den * den)
    }
}

/// The latest end among `entries`, or 0 when there are none.
pub open spec fn latest_end(entries: Seq<KeyframeEntry>) -> int
    decreases entries.len(),
{
    if entries.len() == 0 {
        0
    } else {
        let rest = latest_end(entries.drop_last());
        let e = entry_end(entries.last());
        if e > rest {
            e
        } else {
            rest
        }
    }
}

/// A keyframe timeline: segments, the time played so far, and whether it plays.
#[derive(Clone, Debug)]
pub struct AnimatedTimeline {
    entries: Vec<KeyframeEntry>,
    elapsed_us: u64,
    playing: bool,
}

/// The mathematical state of a timeline.
pub struct TimelineState {
    pub entries: Seq<KeyframeEntry>,
    pub elapsed_us: int,
    pub playing: bool,
}

impl View for AnimatedTimeline {
    type V = TimelineState;

    closed spec fn view(&self) -> TimelineState {
        TimelineState { entries: self.entries@, elapsed_us: self.elapsed_us as int, playing: self.playing }
    }
}

impl TimelineState {
    /// Whole milliseconds played.
    pub open spec fn elapsed_ms(&self) -> int {
        self.elapsed_us / 1000
    }

    /// Settled once the time played reaches the end of the latest segment.
    pub open spec fn settled(&self) -> bool {
        self.elapsed_ms() >= latest_end(self.entries)
    }

    /// Still moving: playing, with some segment not yet over.
    pub open spec fn active(&self) -> bool {
        self.playing && !self.settled()
    }
}

proof fn lemma_scaled_bound(a: int, e: int, d: int)
    requires
        a >= 0,
        0 <= e <= d,
        d > 0,
    ensures
        0 <= (a * e) / d <= a,
{
    assert(0 <= a * e <= a * d) by (nonlinear_arith)
        requires a >= 0, 0 <= e <= d;
    lemma_div_is_ordered(a * e, a * d, d);
    lemma_div_is_ordered(0, a * e, d);
    lemma_div_by_multiple(a, d);
}

proof fn lemma_entry_value_in_range(e: KeyframeEntry, elapsed_ms: int)
    requires
        in_range(e.from as int),
        in_range(e.to as int),
    ensures
        in_range(entry_value_at(e, elapsed_ms)),
{
    if elapsed_ms > e.start_ms && elapsed_ms < entry_end(e) {
        let den = e.duration_ms as int;
        let num = elapsed_ms - e.start_ms;
        let w = eased(e.easing, num, den);
        lemma_eased_bounds(e.easing, num, den);
        assert(den * den > 0) by (nonlinear_arith)
            requires den > 0;
        let diff = e.to - e.from;
        if diff >= 0 {
            lemma_scaled_bound(diff, w, den * den);
        } else {
            lemma_scaled_bound(-diff, w, den * den);
            assert((-diff) * w == -(diff * w)) by (nonlinear_arith);
        }
    }
}

fn clamp_i64(x: i64) -> (r: i64)
    ensures
        r == clamp_value(x as int),
{
    if x > VALUE_LIMIT {
        VALUE_LIMIT
    } else if x < -VALUE_LIMIT {
        -VALUE_LIMIT
    } else {
        x
    }
}

fn eased_exec(easing: Easing, num: u64, den: u64) -> (r: u128)
    requires
        0 <= num <= den,
        0 < den <= u32::MAX,
    ensures
        r == eased(easing, num as int, den as int),
{
    let n = num as u128;
    let d = den as u128;
    proof {
        assert(n * d <= d * d && n * n <= d * d && d * d <= 0x1_0000_0000_0000_0000) by (nonlinear_arith)
            requires n <= d, d <= u32::MAX;
        let r = d - n;
        assert(r * r <= d * d) by (nonlinear_arith)
            requires 0 <= r <= d;
    }
    match easing {
        Easing::Linear => n * d,
        Easing::EaseIn => n * n,
        Easing::EaseOut => d * d - (d - n) * (d - n),
        Easing::EaseInOut => {
            if 2 * n < d {
                proof {
                    assert(0 <= 2 * n * n <= d * d) by (nonlinear_arith)
                        requires 0 <= n, 2 * n < d;
                }
                2 * n * n
            } else {
                proof {
                    let r = d - n;
                    assert(0 <= 2 * r * r <= d * d) by (nonlinear_arith)
                        requires 0 <= r, 2 * r <= d;
                }
                d * d - 2 * (d - n) * (d - n)
            }
        },
    }
}

/// Value of one entry after `elapsed_ms`.
pub fn entry_value(e: &KeyframeEntry, elapsed_ms: u64) -> (r: i64)
    requires
        in_range(e.from as int),
        in_range(e.to as int),
    ensures
        r == entry_value_at(*e, elapsed_ms as int),
        in_range(r as int),
{
    proof {
        lemma_entry_value_in_range(*e, elapsed_ms as int);
    }
    let start = e.start_ms as u64;
    let end = start + e.duration_ms as u64;
    if elapsed_ms <= start {
        e.from
    } else if elapsed_ms >= end {
        e.to
    } else {
        let num = elapsed_ms - start;
        let den = e.duration_ms as u64;
        let w = eased_exec(e.easing, num, den);
        proof {
            lemma_eased_bounds(e.easing, num as int, den as int);
        }
        let diff = e.to as i128 - e.from as i128;
        proof {
            assert(0 < den * den <= 0x1_0000_0000_0000_0000) by (nonlinear_arith)
                requires 0 < den <= u32::MAX;
            assert(-2 * VALUE_LIMIT * 0x1_0000_0000_0000_0000 <= diff * w <= 2 * VALUE_LIMIT * 0x1_0000_0000_0000_0000)
                by (nonlinear_arith)
                requires -2 * VALUE_LIMIT <= diff <= 2 * VALUE_LIMIT, 0 <= w <= 0x1_0000_0000_0000_0000;
        }
        let dd = (den as i128) * (den as i128);
        let prod = diff * (w as i128);
        let q: i128 = if prod >= 0 {
            prod / dd
        } else {
            let p: i128 = -prod;
            -(p / dd)
        };
        (e.from as i128 + q) as i64
    }
}

/// Progress of one entry after `elapsed_ms`, in thousandths.
pub fn entry_progress_permille(e: &KeyframeEntry, elapsed_ms: u64) -> (r: u32)
    ensures
        r == progress_permille_at(*e, elapsed_ms as int),
        r <= 1000,
{
    let start = e.start_ms as u64;
    let end = start + e.duration_ms as u64;
    if elapsed_ms <= start {
        0
    } else if elapsed_ms >= end {
        1000
    } else {
        let num = elapsed_ms - start;
        let den = e.duration_ms as u64;
        proof {
            assert(num * 1000 <= den * 1000) by (nonlinear_arith)
                requires num <= den;
            lemma_div_is_ordered(num * 1000, den * 1000, den as int);
            lemma_div_by_multiple(1000, den as int);
            assert(den * 1000 == 1000 * den) by (nonlinear_arith);
        }
        ((num * 1000) / den) as u32
    }
}

impl AnimatedTimeline {
    /// Entry `i` has id `i`, and every endpoint lies in the value range.
    pub open spec fn wf(&self) -> bool {
        &&& forall|i: int| 0 <= i < self@.entries.len() ==> #[trigger] self@.entries[i].id == i
        &&& forall|i: int| 0 <= i < self@.entries.len() ==> in_range(#[trigger] self@.entries[i].from as int)
        &&& forall|i: int| 0 <= i < self@.entries.len() ==> in_range(#[trigger] self@.entries[i].to as int)
    }

    /// An empty, stopped timeline.
    pub fn new() -> (r: AnimatedTimeline)
        ensures
            r.wf(),
            r@.entries.len() == 0,
            r@.elapsed_us == 0,
            !r@.playing,
    {
        AnimatedTimeline { entries: Vec::new(), elapsed_us: 0, playing: false }
    }

    /// Appends a linear segment and returns its id; allowed while playing.
    pub fn add(&mut self, start_ms: u32, duration_ms: u32, from: i64, to: i64) -> (id: u64)
        requires
            old(self).wf(),
            old(self)@.entries.len() < u64::MAX,
        ensures
            final(self).wf(),
            id == old(self)@.entries.len(),
            final(self)@.entries == old(self)@.entries.push(
                KeyframeEntry {
                    id,
                    start_ms,
                    duration_ms,
                    from: clamp_value(from as int) as i64,
                    to: clamp_value(to as int) as i64,
                    easing: Easing::Linear,
                },
            ),
            final(self)@.elapsed_us == old(self)@.elapsed_us,
            final(self)@.playing == old(self)@.playing,
    {
        self.add_eased(start_ms, duration_ms, from, to, Easing::Linear)
    }

    /// Appends a segment with the given easing and returns its id.
    pub fn add_eased(&mut self, start_ms: u32, duration_ms: u32, from: i64, to: i64, easing: Easing) -> (id: u64)
        requires
            old(self).wf(),
            old(self)@.entries.len() < u64::MAX,
        ensures
            final(self).wf(),
            id == old(self)@.entries.len(),
            final(self)@.entries == old(self)@.entries.push(
                KeyframeEntry {
                    id,
                    start_ms,
                    duration_ms,
                    from: clamp_value(from as int) as i64,
                    to: clamp_value(to as int) as i64,
                    easing,
                },
            ),
            final(self)@.elapsed_us == old(self)@.elapsed_us,
            final(self)@.playing == old(self)@.playing,
    {
        let id = self.entries.len() as u64;
        let entry = KeyframeEntry {
            id,
            start_ms,
            duration_ms,
            from: clamp_i64(from),
            to: clamp_i64(to),
            easing,
        };
        self.entries.push(entry);
        proof {
            assert forall|i: int| 0 <= i < self@.entries.len() implies #[trigger] self@.entries[i].id == i by {
                if i < old(self)@.entries.len() {
                    assert(self@.entries[i] == old(self)@.entries[i]);
                }
            }
            assert forall|i: int| 0 <= i < self@.entries.len() implies in_range(#[trigger] self@.entries[i].from as int) by {
                if i < old(self)@.entries.len() {
                    assert(self@.entries[i] == old(self)@.entries[i]);
                }
            }
            assert forall|i: int| 0 <= i < self@.entries.len() implies in_range(#[trigger] self@.entries[i].to as int) by {
                if i < old(self)@.entries.len() {
                    assert(self@.entries[i] == old(self)@.entries[i]);
                }
            }
        }
        id
    }

    /// Plays from the beginning.
    pub fn start(&mut self)
        ensures
            final(self)@.entries == old(self)@.entries,
            final(self)@.elapsed_us == 0,
            final(self)@.playing,
    {
        self.elapsed_us = 0;
        self.playing = true;
    }

    /// Stops playing; the time played so far is kept.
    pub fn stop(&mut self)
        ensures
            final(self)@.entries == old(self)@.entries,
            final(self)@.elapsed_us == old(self)@.elapsed_us,
            !final(self)@.playing,
    {
        self.playing = false;
    }

    /// Same as `stop`: playing stops and the time played is kept.
    pub fn pause(&mut self)
        ensures
            final(self)@.entries == old(self)@.entries,
            final(self)@.elapsed_us == old(self)@.elapsed_us,
            !final(self)@.playing,
    {
        self.stop();
    }

    /// Continues playing from where it stopped.
    pub fn resume(&mut self)
        ensures
            final(self)@.entries == old(self)@.entries,
            final(self)@.elapsed_us == old(self)@.elapsed_us,
            final(self)@.playing,
    {
        self.playing = true;
    }

    /// Whether another entry can be added (ids are `u64`).
    pub fn has_room(&self) -> (r: bool)
        ensures
            r == (self@.entries.len() < u64::MAX),
    {
        (self.entries.len() as u64) < u64::MAX
    }

    pub fn is_playing(&self) -> (r: bool)
        ensures
            r == self@.playing,
    {
        self.playing
    }

    pub fn has_entries(&self) -> (r: bool)
        ensures
            r == (self@.entries.len() > 0),
    {
        self.entries.len() > 0
    }

    /// The ids of all entries, in the order they were added.
    pub fn entry_ids(&self) -> (r: Vec<u64>)
        requires
            self.wf(),
        ensures
            r@.len() == self@.entries.len(),
            forall|i: int| 0 <= i < r@.len() ==> #[trigger] r@[i] == self@.entries[i].id,
    {
        let mut ids: Vec<u64> = Vec::new();
        let mut i: usize = 0;
        while i < self.entries.len()
            invariant
                i <= self@.entries.len(),
                ids@.len() == i,
                forall|j: int| 0 <= j < i ==> #[trigger] ids@[j] == self@.entries[j].id,
            decreases self@.entries.len() - i,
        {
            ids.push(self.entries[i].id);
            i = i + 1;
        }
        ids
    }

    /// The entry with this id, if there is one.
    pub fn entry(&self, id: u64) -> (r: Option<KeyframeEntry>)
        requires
            self.wf(),
        ensures
            id < self@.entries.len() ==> r == Some(self@.entries[id as int]),
            id >= self@.entries.len() ==> r.is_none(),
    {
        if id < self.entries.len() as u64 {
            Some(self.entries[id as usize])
        } else {
            None
        }
    }

    /// Whole milliseconds played since the last `start`.
    pub fn elapsed_ms(&self) -> (r: u64)
        ensures
            r == self@.elapsed_ms(),
    {
        self.elapsed_us / 1000
    }

    /// Current value of entry `id`; `None` for an id that was never handed out.
    pub fn value_at(&self, id: u64) -> (r: Option<i64>)
        requires
            self.wf(),
        ensures
            id < self@.entries.len() ==> r == Some(
                entry_value_at(self@.entries[id as int], self@.elapsed_ms()) as i64,
            ),
            id >= self@.entries.len() ==> r.is_none(),
    {
        if id < self.entries.len() as u64 {
            Some(entry_value(&self.entries[id as usize], self.elapsed_us / 1000))
        } else {
            None
        }
    }

    /// Progress of entry `id` in thousandths, from 0 to 1000.
    pub fn progress_permille(&self, id: u64) -> (r: Option<u32>)
        requires
            self.wf(),
        ensures
            id < self@.entries.len() ==> r == Some(
                progress_permille_at(self@.entries[id as int], self@.elapsed_ms()) as u32,
            ),
            id >= self@.entries.len() ==> r.is_none(),
            r matches Some(p) ==> p <= 1000,
    {
        if id < self.entries.len() as u64 {
            Some(entry_progress_permille(&self.entries[id as usize], self.elapsed_us / 1000))
        } else {
            None
        }
    }

    /// The end of the latest entry, in milliseconds; 0 for an empty timeline.
    pub fn end_ms(&self) -> (r: u64)
        ensures
            r == latest_end(self@.entries),
    {
        let mut best: u64 = 0;
        let mut i: usize = 0;
        while i < self.entries.len()
            invariant
                i <= self@.entries.len(),
                best == latest_end(self@.entries.subrange(0, i as int)),
                best <= 2 * (u32::MAX as int),
            decreases self@.entries.len() - i,
        {
            let e = self.entries[i];
            let end = e.start_ms as u64 + e.duration_ms as u64;
            proof {
                let s = self@.entries.subrange(0, i + 1);
                assert(s.drop_last() =~= self@.entries.subrange(0, i as int));
                assert(s.last() == e);
            }
            if end > best {
                best = end;
            }
            i = i + 1;
        }
        proof {
            assert(self@.entries.subrange(0, self@.entries.len() as int) =~= self@.entries);
        }
        best
    }

    /// Whether the time played has reached the end of every entry.
    pub fn is_settled(&self) -> (r: bool)
        ensures
            r == self@.settled(),
    {
        self.elapsed_us / 1000 >= self.end_ms()
    }

    /// Whether the timeline still moves: playing, with an entry not yet over.
    pub fn is_active(&self) -> (r: bool)
        ensures
            r == self@.active(),
    {
        self.playing && !self.is_settled()
    }

    /// Adds `dt_ms` milliseconds of play time (saturating), only while playing.
    pub fn advance(&mut self, dt_ms: u64)
        ensures
            final(self)@.entries == old(self)@.entries,
            final(self)@.playing == old(self)@.playing,
            final(self)@.elapsed_us == if old(self)@.playing {
                let t = old(self)@.elapsed_us + dt_ms * 1000;
                if t > u64::MAX { u64::MAX as int } else { t }
            } else {
                old(self)@.elapsed_us
            },
    {
        let us: u64 = if dt_ms > u64::MAX / 1000 {
            u64::MAX
        } else {
            dt_ms * 1000
        };
        self.advance_us(us);
    }

    /// Adds `dt_us` microseconds of play time (saturating), only while playing.
    pub fn advance_us(&mut self, dt_us: u64)
        ensures
            final(self)@.entries == old(self)@.entries,
            final(self)@.playing == old(self)@.playing,
            final(self)@.elapsed_us == if old(self)@.playing {
                let t = old(self)@.elapsed_us + dt_us;
                if t > u64::MAX { u64::MAX as int } else { t }
            } else {
                old(self)@.elapsed_us
            },
    {
        if self.playing {
            self.elapsed_us = self.elapsed_us.saturating_add(dt_us);
        }
    }
}

} // verus!
