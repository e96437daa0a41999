use blinc::keyframes::{AnimatedProperty, AnimationPreset};
use blinc::motion::{motion, SlideDirection, StaggerConfig};
use blinc::spring::UNIT;

#[test]
fn test_stagger_delay_forward() {
    let config = StaggerConfig::new(50, AnimationPreset::fade_in(300));

    assert_eq!(config.delay_for_index(0, 5), 0);
    assert_eq!(config.delay_for_index(1, 5), 50);
    assert_eq!(config.delay_for_index(2, 5), 100);
    assert_eq!(config.delay_for_index(4, 5), 200);
}

#[test]
fn test_stagger_delay_reverse() {
    let config = StaggerConfig::new(50, AnimationPreset::fade_in(300)).reverse();

    assert_eq!(config.delay_for_index(0, 5), 200);
    assert_eq!(config.delay_for_index(1, 5), 150);
    assert_eq!(config.delay_for_index(4, 5), 0);
}

#[test]
fn test_stagger_delay_from_center() {
    let config = StaggerConfig::new(50, AnimationPreset::fade_in(300)).from_center();

    assert_eq!(config.delay_for_index(0, 5), 100);
    assert_eq!(config.delay_for_index(1, 5), 50);
    assert_eq!(config.delay_for_index(2, 5), 0);
    assert_eq!(config.delay_for_index(3, 5), 50);
    assert_eq!(config.delay_for_index(4, 5), 100);
}

#[test]
fn test_stagger_delay_with_limit() {
    let config = StaggerConfig::new(50, AnimationPreset::fade_in(300)).limit(3);

    assert_eq!(config.delay_for_index(0, 10), 0);
    assert_eq!(config.delay_for_index(3, 10), 150);
    assert_eq!(config.delay_for_index(5, 10), 150);
    assert_eq!(config.delay_for_index(9, 10), 150);
}

#[test]
fn stagger_delay_saturates() {
    let config = StaggerConfig::new(u32::MAX, AnimationPreset::fade_in(300));
    assert_eq!(config.delay_for_index(2, 5), u32::MAX);
}

#[test]
fn stagger_reverse_of_empty_list() {
    let config = StaggerConfig::new(50, AnimationPreset::fade_in(300)).reverse();
    assert_eq!(config.delay_for_index(0, 0), 0);
}

#[test]
fn motion_builder_keeps_animations() {
    let m = motion::<u32>().fade_in(300).slide_out(SlideDirection::Left, 200).child(7);
    let enter = m.get_enter_animation().unwrap();
    assert_eq!(enter.animation.tracks.len(), 1);
    assert_eq!(enter.animation.tracks[0].property, AnimatedProperty::Opacity);
    assert_eq!(enter.animation.tracks[0].to, UNIT);
    let exit = m.get_exit_animation().unwrap();
    assert_eq!(exit.animation.tracks[0].property, AnimatedProperty::TranslateX);
    assert_eq!(exit.animation.tracks[0].to, -50 * UNIT);
    assert!(m.get_stagger_config().is_none());
    assert_eq!(m.all_children(), vec![&7]);
    assert_eq!(m.child_delays(), vec![0]);
}

#[test]
fn motion_children_get_stagger_delays() {
    let m = motion::<u32>()
        .children(vec![1, 2, 3])
        .stagger(StaggerConfig::new(40, AnimationPreset::scale_in(100)).reverse());
    assert_eq!(m.child_delays(), vec![80, 40, 0]);
    assert_eq!(m.all_children().len(), 3);
}

#[test]
fn preset_becomes_timeline() {
    let anim = AnimationPreset::fade_in(1000).delay(500);
    let mut t = anim.to_timeline();
    assert_eq!(t.entry_ids(), vec![0]);
    t.start();
    t.advance(500);
    assert_eq!(t.value_at(0), Some(0));
    t.advance(1000);
    assert_eq!(t.value_at(0), Some(UNIT));
}

#[test]
fn pop_in_overshoots_then_settles() {
    let anim = AnimationPreset::pop_in(1000);
    assert_eq!(anim.tracks.len(), 3);
    assert_eq!(anim.tracks[0].duration_ms, 700);
    assert_eq!(anim.tracks[1].offset_ms, 700);
    assert_eq!(anim.tracks[1].duration_ms, 300);
    assert_eq!(anim.total_duration_ms(), 1000);
}
