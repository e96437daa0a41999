use vstd::prelude::*;
use crate::keyframes::{
    bounce_in_tracks, bounce_out_tracks, fade_in_tracks, fade_out_tracks, pop_in_tracks, scale_in_tracks,
    scale_out_tracks, slide_in_tracks, slide_out_tracks, AnimatedProperty, AnimationPreset,
    MultiKeyframeAnimation, PropertyTrack, SLIDE_DISTANCE,
};

verus! {

/// Animation played when an element enters or leaves the tree.
#[derive(Clone, Debug)]
pub struct ElementAnimation {
    pub animation: MultiKeyframeAnimation,
}

impl ElementAnimation {
    pub fn new(animation: MultiKeyframeAnimation) -> (r: ElementAnimation)
        ensures
            r.animation == animation,
    {
        ElementAnimation { animation }
    }

    /// The same animation, starting `delay_ms` after it is triggered.
    pub fn with_delay(self, delay_ms: u32) -> (r: ElementAnimation)
        ensures
            r.animation.delay_ms == delay_ms,
            r.animation.tracks@ == self.animation.tracks@,
    {
        ElementAnimation { animation: self.animation.delay(delay_ms) }
    }
}

impl From<MultiKeyframeAnimation> for ElementAnimation {
    fn from(animation: MultiKeyframeAnimation) -> (r: ElementAnimation)
        ensures
            r.animation == animation,
    {
        ElementAnimation::new(animation)
    }
}

impl vstd::std_specs::convert::FromSpecImpl<MultiKeyframeAnimation> for ElementAnimation {
    open spec fn obeys_from_spec() -> bool {
        true
    }

    open spec fn from_spec(v: MultiKeyframeAnimation) -> ElementAnimation {
        ElementAnimation { animation: v }
    }
}

/// Order in which staggered children start.
#[derive(Clone, Copy, Debug, PartialEq, Eq, Structural)]
pub enum StaggerDirection {
    /// First to last.
    Forward,
    /// Last to first.
    Reverse,
    /// From the middle child outward.
    FromCenter,
}

impl Default for StaggerDirection {
    fn default() -> (r: StaggerDirection)
        ensures
            r == StaggerDirection::Forward,
    {
        StaggerDirection::Forward
    }
}

/// Side from which an element slides.
#[derive(Clone, Copy, Debug, PartialEq, Eq, Structural)]
pub enum SlideDirection {
    Left,
    Right,
    Top,
    Bottom,
}

/// How the children of a motion container are staggered.
#[derive(Clone, Debug)]
pub struct StaggerConfig {
    /// Delay between the starts of consecutive children, in milliseconds.
    pub delay_ms: u32,
    /// Animation each child plays.
    pub animation: ElementAnimation,
    pub direction: StaggerDirection,
    /// Children past this many steps all start with the same delay.
    pub limit: Option<usize>,
}

/// How many delay steps the child at `index` of `total` waits, before the limit.
pub open spec fn stagger_steps(direction: StaggerDirection, index: int, total: int) -> int {
    match direction {
        StaggerDirection::Forward => index,
        StaggerDirection::Reverse => {
            let last = if total >= 1 { total - 1 } else { 0 };
            if last >= index { last - index } else { 0 }
        },
        StaggerDirection::FromCenter => {
            let center = total / 2;
            if index <= center { center - index } else { index - center }
        },
    }
}

/// Delay of the child at `index` of `total`: the steps, capped by the limit,
/// times the per-child delay, saturating at `u32::MAX`.
pub open spec fn stagger_delay(config: StaggerConfig, index: int, total: int) -> int {
    let steps = stagger_steps(config.direction, index, total);
    let capped = match config.limit {
        Some(l) => if steps < l { steps } else { l as int },
        None => steps,
    };
    let d = config.delay_ms * capped;
    if d > u32::MAX { u32::MAX as int } else { d }
}

impl StaggerConfig {
    /// Forward stagger without limit.
    pub fn new(delay_ms: u32, animation: MultiKeyframeAnimation) -> (r: StaggerConfig)
        ensures
            r.delay_ms == delay_ms,
            r.animation.animation == animation,
            r.direction == StaggerDirection::Forward,
            r.limit.is_none(),
    {
        StaggerConfig { delay_ms, animation: ElementAnimation::new(animation), direction: StaggerDirection::Forward, limit: None }
    }

    /// Last child first.
    pub fn reverse(self) -> (r: StaggerConfig)
        ensures
            r == (StaggerConfig { direction: StaggerDirection::Reverse, ..self }),
    {
        StaggerConfig { direction: StaggerDirection::Reverse, ..self }
    }

    /// Middle child first, then outward.
    pub fn from_center(self) -> (r: StaggerConfig)
        ensures
            r == (StaggerConfig { direction: StaggerDirection::FromCenter, ..self }),
    {
        StaggerConfig { direction: StaggerDirection::FromCenter, ..self }
    }

    /// Children past `n` steps share the delay of step `n`.
    pub fn limit(self, n: usize) -> (r: StaggerConfig)
        ensures
            r == (StaggerConfig { limit: Some(n), ..self }),
    {
        StaggerConfig { limit: Some(n), ..self }
    }

    /// Start delay, in milliseconds, of the child at `index` among `total`.
    pub fn delay_for_index(&self, index: usize, total: usize) -> (r: u32)
        ensures
            r == stagger_delay(*self, index as int, total as int),
    {
        let steps: usize = match self.direction {
            StaggerDirection::Forward => index,
            StaggerDirection::Reverse => {
                let last = if total >= 1 { total - 1 } else { 0 };
                if last >= index { last - index } else { 0 }
            },
            StaggerDirection::FromCenter => {
                let center = total / 2;
                if index <= center { center - index } else { index - center }
            },
        };
        let capped: usize = match self.limit {
            Some(l) => if steps < l { steps } else { l },
            None => steps,
        };
        proof {
            assert(self.delay_ms * capped <= 0xffff_ffff * 0xffff_ffff_ffff_ffff) by (nonlinear_arith)
                requires 0 <= self.delay_ms <= 0xffff_ffff, 0 <= capped <= 0xffff_ffff_ffff_ffff;
        }
        let d: u128 = self.delay_ms as u128 * capped as u128;
        if d > u32::MAX as u128 {
            u32::MAX
        } else {
            d as u32
        }
    }
}

/// A container without styling of its own that animates its children as they
/// enter and leave; `E` is the kind of child element.
pub struct Motion<E> {
    child: Option<E>,
    children: Vec<E>,
    enter: Option<ElementAnimation>,
    exit: Option<ElementAnimation>,
    stagger_config: Option<StaggerConfig>,
}

/// An empty motion container.
pub fn motion<E>() -> (r: Motion<E>)
    ensures
        r.spec_child().is_none(),
        r.spec_children().len() == 0,
        r.spec_enter().is_none(),
        r.spec_exit().is_none(),
        r.spec_stagger().is_none(),
{
    Motion { child: None, children: Vec::new(), enter: None, exit: None, stagger_config: None }
}

impl<E> Motion<E> {
    pub closed spec fn spec_child(&self) -> Option<E> {
        self.child
    }

    pub closed spec fn spec_children(&self) -> Seq<E> {
        self.children@
    }

    pub closed spec fn spec_enter(&self) -> Option<ElementAnimation> {
        self.enter
    }

    pub closed spec fn spec_exit(&self) -> Option<ElementAnimation> {
        self.exit
    }

    pub closed spec fn spec_stagger(&self) -> Option<StaggerConfig> {
        self.stagger_config
    }

    /// Sets the single child to animate.
    pub fn child(self, child: E) -> (r: Motion<E>)
        ensures
            r.spec_child() == Some(child),
            r.spec_children() == self.spec_children(),
            r.spec_enter() == self.spec_enter(),
            r.spec_exit() == self.spec_exit(),
            r.spec_stagger() == self.spec_stagger(),
    {
        Motion { child: Some(child), ..self }
    }

    /// Sets the children to stagger, replacing any earlier list.
    pub fn children(self, children: Vec<E>) -> (r: Motion<E>)
        ensures
            r.spec_child() == self.spec_child(),
            r.spec_children() == children@,
            r.spec_enter() == self.spec_enter(),
            r.spec_exit() == self.spec_exit(),
            r.spec_stagger() == self.spec_stagger(),
    {
        Motion { children, ..self }
    }

    /// Animation played when the element enters the tree.
    pub fn enter_animation(self, animation: MultiKeyframeAnimation) -> (r: Motion<E>)
        ensures
            r.spec_child() == self.spec_child(),
            r.spec_children() == self.spec_children(),
            r.spec_enter() == Some(ElementAnimation { animation }),
            r.spec_exit() == self.spec_exit(),
            r.spec_stagger() == self.spec_stagger(),
    {
        Motion { enter: Some(ElementAnimation::new(animation)), ..self }
    }

    /// Animation played when the element leaves the tree.
    pub fn exit_animation(self, animation: MultiKeyframeAnimation) -> (r: Motion<E>)
        ensures
            r.spec_child() == self.spec_child(),
            r.spec_children() == self.spec_children(),
            r.spec_enter() == self.spec_enter(),
            r.spec_exit() == Some(ElementAnimation { animation }),
            r.spec_stagger() == self.spec_stagger(),
    {
        Motion { exit: Some(ElementAnimation::new(animation)), ..self }
    }

    /// Staggers the children with `config`.
    pub fn stagger(self, config: StaggerConfig) -> (r: Motion<E>)
        ensures
            r.spec_child() == self.spec_child(),
            r.spec_children() == self.spec_children(),
            r.spec_enter() == self.spec_enter(),
            r.spec_exit() == self.spec_exit(),
            r.spec_stagger() == Some(config),
    {
        Motion { stagger_config: Some(config), ..self }
    }

    /// Everything but the entry animation is as in `old`.
    pub open spec fn same_but_enter(&self, old: &Motion<E>) -> bool {
        &&& self.spec_child() == old.spec_child()
        &&& self.spec_children() == old.spec_children()
        &&& self.spec_exit() == old.spec_exit()
        &&& self.spec_stagger() == old.spec_stagger()
    }

    /// Everything but the exit animation is as in `old`.
    pub open spec fn same_but_exit(&self, old: &Motion<E>) -> bool {
        &&& self.spec_child() == old.spec_child()
        &&& self.spec_children() == old.spec_children()
        &&& self.spec_enter() == old.spec_enter()
        &&& self.spec_stagger() == old.spec_stagger()
    }

    /// Fades in on entry.
    pub fn fade_in(self, duration_ms: u32) -> (r: Motion<E>)
        ensures
            r.same_but_enter(&self),
            plays(r.spec_enter(), fade_in_tracks(duration_ms)),
    {
        self.enter_animation(AnimationPreset::fade_in(duration_ms))
    }

    /// Fades out on exit.
    pub fn fade_out(self, duration_ms: u32) -> (r: Motion<E>)
        ensures
            r.same_but_exit(&self),
            plays(r.spec_exit(), fade_out_tracks(duration_ms)),
    {
        self.exit_animation(AnimationPreset::fade_out(duration_ms))
    }

    /// Scales in on entry.
    pub fn scale_in(self, duration_ms: u32) -> (r: Motion<E>)
        ensures
            r.same_but_enter(&self),
            plays(r.spec_enter(), scale_in_tracks(duration_ms)),
    {
        self.enter_animation(AnimationPreset::scale_in(duration_ms))
    }

    /// Scales out on exit.
    pub fn scale_out(self, duration_ms: u32) -> (r: Motion<E>)
        ensures
            r.same_but_exit(&self),
            plays(r.spec_exit(), scale_out_tracks(duration_ms)),
    {
        self.exit_animation(AnimationPreset::scale_out(duration_ms))
    }

    /// Bounces in on entry.
    pub fn bounce_in(self, duration_ms: u32) -> (r: Motion<E>)
        ensures
            r.same_but_enter(&self),
            plays(r.spec_enter(), bounce_in_tracks(duration_ms)),
    {
        self.enter_animation(AnimationPreset::bounce_in(duration_ms))
    }

    /// Bounces out on exit.
    pub fn bounce_out(self, duration_ms: u32) -> (r: Motion<E>)
        ensures
            r.same_but_exit(&self),
            plays(r.spec_exit(), bounce_out_tracks(duration_ms)),
    {
        self.exit_animation(AnimationPreset::bounce_out(duration_ms))
    }

    /// Pops in on entry: grows past full size, then settles.
    pub fn pop_in(self, duration_ms: u32) -> (r: Motion<E>)
        ensures
            r.same_but_enter(&self),
            plays(r.spec_enter(), pop_in_tracks(duration_ms)),
    {
        self.enter_animation(AnimationPreset::pop_in(duration_ms))
    }

    /// Slides in on entry from `direction`, fifty pixels away.
    pub fn slide_in(self, direction: SlideDirection, duration_ms: u32) -> (r: Motion<E>)
        ensures
            r.same_but_enter(&self),
            plays(r.spec_enter(), slide_in_tracks(slide_property(direction), slide_offset(direction), duration_ms)),
    {
        let anim = match direction {
            SlideDirection::Left => AnimationPreset::slide_in_left(duration_ms, SLIDE_DISTANCE),
            SlideDirection::Right => AnimationPreset::slide_in_right(duration_ms, SLIDE_DISTANCE),
            SlideDirection::Top => AnimationPreset::slide_in_top(duration_ms, SLIDE_DISTANCE),
            SlideDirection::Bottom => AnimationPreset::slide_in_bottom(duration_ms, SLIDE_DISTANCE),
        };
        self.enter_animation(anim)
    }

    /// Slides out on exit toward `direction`, fifty pixels away.
    pub fn slide_out(self, direction: SlideDirection, duration_ms: u32) -> (r: Motion<E>)
        ensures
            r.same_but_exit(&self),
            plays(r.spec_exit(), slide_out_tracks(slide_property(direction), slide_offset(direction), duration_ms)),
    {
        let anim = match direction {
            SlideDirection::Left => AnimationPreset::slide_out_left(duration_ms, SLIDE_DISTANCE),
            SlideDirection::Right => AnimationPreset::slide_out_right(duration_ms, SLIDE_DISTANCE),
            SlideDirection::Top => AnimationPreset::slide_out_top(duration_ms, SLIDE_DISTANCE),
            SlideDirection::Bottom => AnimationPreset::slide_out_bottom(duration_ms, SLIDE_DISTANCE),
        };
        self.exit_animation(anim)
    }

    pub fn get_enter_animation(&self) -> (r: Option<&ElementAnimation>)
        ensures
            r.is_some() == self.spec_enter().is_some(),
            r matches Some(a) ==> *a == self.spec_enter().unwrap(),
    {
        self.enter.as_ref()
    }

    pub fn get_exit_animation(&self) -> (r: Option<&ElementAnimation>)
        ensures
            r.is_some() == self.spec_exit().is_some(),
            r matches Some(a) ==> *a == self.spec_exit().unwrap(),
    {
        self.exit.as_ref()
    }

    pub fn get_stagger_config(&self) -> (r: Option<&StaggerConfig>)
        ensures
            r.is_some() == self.spec_stagger().is_some(),
            r matches Some(a) ==> *a == self.spec_stagger().unwrap(),
    {
        self.stagger_config.as_ref()
    }

    /// The children to lay out: the list of children when there is one, else
    /// the single child, if any.
    pub fn all_children(&self) -> (r: Vec<&E>)
        ensures
            self.spec_children().len() > 0 ==> r@.len() == self.spec_children().len()
                && forall|i: int| 0 <= i < r@.len() ==> *#[trigger] r@[i] == self.spec_children()[i],
            self.spec_children().len() == 0 ==> match self.spec_child() {
                Some(c) => r@.len() == 1 && *r@[0] == c,
                None => r@.len() == 0,
            },
    {
        let mut out: Vec<&E> = Vec::new();
        if self.children.len() > 0 {
            let mut i: usize = 0;
            while i < self.children.len()
                invariant
                    i <= self.children@.len(),
                    out@.len() == i,
                    forall|k: int| 0 <= k < i ==> *#[trigger] out@[k] == self.children@[k],
                decreases self.children@.len() - i,
            {
                out.push(&self.children[i]);
                i = i + 1;
            }
        } else {
            match &self.child {
                Some(c) => out.push(c),
                None => {},
            }
        }
        out
    }

    /// Start delay of each child to lay out, in order: the stagger delay of each
    /// child of the list when staggering, zero otherwise.
    pub fn child_delays(&self) -> (r: Vec<u32>)
        ensures
            match self.spec_stagger() {
                Some(cfg) => r@.len() == self.spec_children().len()
                    && forall|i: int| 0 <= i < r@.len() ==> #[trigger] r@[i] == stagger_delay(cfg, i, r@.len() as int),
                None => forall|i: int| 0 <= i < r@.len() ==> #[trigger] r@[i] == 0,
            },
            self.spec_stagger().is_none() ==> r@.len() == if self.spec_children().len() > 0 {
                self.spec_children().len() as int
            } else if self.spec_child().is_some() {
                1int
            } else {
                0int
            },
    {
        let mut out: Vec<u32> = Vec::new();
        match &self.stagger_config {
            Some(cfg) => {
                let total = self.children.len();
                let mut i: usize = 0;
                while i < total
                    invariant
                        total == self.children@.len(),
                        i <= total,
                        out@.len() == i,
                        forall|k: int| 0 <= k < i ==> #[trigger] out@[k] == stagger_delay(*cfg, k, total as int),
                    decreases total - i,
                {
                    out.push(cfg.delay_for_index(i, total));
                    i = i + 1;
                }
            },
            None => {
                let n: usize = if self.children.len() > 0 {
                    self.children.len()
                } else if self.child.is_some() {
                    1
                } else {
                    0
                };
                let mut i: usize = 0;
                while i < n
                    invariant
                        i <= n,
                        out@.len() == i,
                        forall|k: int| 0 <= k < i ==> #[trigger] out@[k] == 0,
                    decreases n - i,
                {
                    out.push(0);
                    i = i + 1;
                }
            },
        }
        out
    }
}

/// Whether `a` is an animation without delay that plays exactly `tracks`.
pub open spec fn plays(a: Option<ElementAnimation>, tracks: Seq<PropertyTrack>) -> bool {
    a matches Some(e) && e.animation.delay_ms == 0 && e.animation.tracks@ == tracks
}

/// The property a slide from or toward `direction` moves.
pub open spec fn slide_property(direction: SlideDirection) -> AnimatedProperty {
    match direction {
        SlideDirection::Left | SlideDirection::Right => AnimatedProperty::TranslateX,
        SlideDirection::Top | SlideDirection::Bottom => AnimatedProperty::TranslateY,
    }
}

/// Offset of the far end of a slide on the side of `direction`.
pub open spec fn slide_offset(direction: SlideDirection) -> i64 {
    match direction {
        SlideDirection::Left | SlideDirection::Top => (-SLIDE_DISTANCE) as i64,
        SlideDirection::Right | SlideDirection::Bottom => SLIDE_DISTANCE,
    }
}

} // verus!
