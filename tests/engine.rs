use blinc::registry::{Handle, Registry, RegistryError};
use blinc::scheduler::{BackgroundControl, SchedulerCore};
use blinc::spring::{step, ConfigError, SpringConfig, MAX_SUBSTEP_US, UNIT};
use blinc::timeline::{AnimatedTimeline, Easing};
use blinc::value::AnimatedValue;

#[test]
fn config_rejects_zero_mass_and_stiffness() {
    assert_eq!(SpringConfig::new(0, 10, 1000), Err(ConfigError::NonPositiveStiffness));
    assert_eq!(SpringConfig::new(100, 10, 0), Err(ConfigError::NonPositiveMass));
    assert_eq!(SpringConfig::new(0, 10, 0), Err(ConfigError::NonPositiveStiffness));
    let c = SpringConfig::new(100_000, 0, 1_000).unwrap();
    assert_eq!((c.stiffness(), c.damping(), c.mass()), (100_000, 0, 1_000));
}

#[test]
fn one_step_follows_semi_implicit_euler() {
    // k = 100, d = 10, m = 1; one unit away, at rest; 10 ms.
    let cfg = SpringConfig::new(100_000, 10_000, 1_000).unwrap();
    let (c, v) = step(0, 0, UNIT, &cfg, 10_000);
    // accel = 100 units/s^2, v = 1 unit/s, c = 0.01 units.
    assert_eq!(v, 1_000_000);
    assert_eq!(c, 10_000);
}

#[test]
fn step_clamps_long_intervals() {
    let cfg = SpringConfig::snappy();
    assert_eq!(step(0, 0, UNIT, &cfg, 1_000_000), step(0, 0, UNIT, &cfg, MAX_SUBSTEP_US));
}

#[test]
fn spring_settles_on_target() {
    let mut v = AnimatedValue::new(0, SpringConfig::snappy());
    v.set_target(UNIT);
    assert!(!v.is_settled());
    let mut ticks = 0;
    while !v.is_settled() && ticks < 10_000 {
        v.tick(16_667);
        ticks += 1;
    }
    assert!(v.is_settled());
    assert!(ticks < 200);
    assert!((v.get() - UNIT).abs() < 1_000);
}

#[test]
fn gentle_and_wobbly_springs_settle() {
    for cfg in [SpringConfig::gentle(), SpringConfig::wobbly()] {
        let mut v = AnimatedValue::new(5 * UNIT, cfg);
        v.set_target(-3 * UNIT);
        let mut ticks = 0;
        while !v.is_settled() && ticks < 10_000 {
            v.tick(8_333);
            ticks += 1;
        }
        assert!(v.is_settled());
        assert_eq!(v.target(), -3 * UNIT);
    }
}

#[test]
fn retarget_keeps_position_and_velocity() {
    let mut v = AnimatedValue::new(0, SpringConfig::snappy());
    v.set_target(UNIT);
    v.tick(16_667);
    let before = v.get();
    let speed = v.velocity();
    assert_ne!(speed, 0);
    v.set_target(-UNIT);
    assert_eq!(v.get(), before);
    assert_eq!(v.velocity(), speed);
    assert_eq!(v.target(), -UNIT);
}

#[test]
fn new_value_rests_and_clamps() {
    let v = AnimatedValue::new(i64::MAX, SpringConfig::snappy());
    assert_eq!(v.get(), blinc::spring::VALUE_LIMIT);
    assert!(v.is_settled());
    assert_eq!(v.velocity(), 0);
}

#[test]
fn keyframe_boundaries_are_exact() {
    let mut t = AnimatedTimeline::new();
    let id = t.add(0, 1000, 0, 10 * UNIT);
    t.start();
    assert_eq!(t.value_at(id), Some(0));
    t.advance(500);
    assert_eq!(t.value_at(id), Some(5 * UNIT));
    assert_eq!(t.progress_permille(id), Some(500));
    t.advance(500);
    assert_eq!(t.value_at(id), Some(10 * UNIT));
    t.advance(5000);
    assert_eq!(t.value_at(id), Some(10 * UNIT));
    assert_eq!(t.progress_permille(id), Some(1000));
    assert_eq!(t.value_at(id + 1), None);
}

#[test]
fn keyframe_before_start_holds_from() {
    let mut t = AnimatedTimeline::new();
    let id = t.add(200, 100, 3 * UNIT, 4 * UNIT);
    t.start();
    t.advance(150);
    assert_eq!(t.value_at(id), Some(3 * UNIT));
    assert_eq!(t.progress_permille(id), Some(0));
}

#[test]
fn easings_shape_progress() {
    let mut t = AnimatedTimeline::new();
    let a = t.add_eased(0, 1000, 0, UNIT, Easing::EaseIn);
    let b = t.add_eased(0, 1000, 0, UNIT, Easing::EaseOut);
    let c = t.add_eased(0, 1000, 0, UNIT, Easing::EaseInOut);
    t.start();
    t.advance(500);
    assert_eq!(t.value_at(a), Some(250_000));
    assert_eq!(t.value_at(b), Some(750_000));
    assert_eq!(t.value_at(c), Some(500_000));
    t.advance(250);
    assert_eq!(t.value_at(c), Some(875_000));
}

#[test]
fn timeline_pause_keeps_elapsed_and_ids_restart() {
    let mut t = AnimatedTimeline::new();
    assert!(!t.has_entries());
    let a = t.add(0, 100, 0, UNIT);
    let b = t.add(50, 100, 0, UNIT);
    assert_eq!(t.entry_ids(), vec![a, b]);
    assert_eq!(t.entry_ids(), vec![a, b]);
    assert_eq!(t.end_ms(), 150);
    t.advance(40);
    assert_eq!(t.elapsed_ms(), 0);
    t.start();
    t.advance(40);
    t.pause();
    t.advance(1000);
    assert_eq!(t.elapsed_ms(), 40);
    assert!(!t.is_settled());
    t.resume();
    t.advance(110);
    assert!(t.is_settled());
    assert!(!t.is_active());
}

#[test]
fn first_registration_wins() {
    let mut reg: Registry<i64, u8> = Registry::new();
    let a = reg.value_for("k", 1).unwrap();
    let b = reg.value_for("k", 1).unwrap();
    assert_eq!(a, b);
    let c = reg.value_for("k", 99).unwrap();
    assert_eq!(a, c);
    assert_eq!(*reg.value(a), 1);
    assert_eq!(reg.value_count(), 1);
}

#[test]
fn key_kinds_do_not_mix() {
    let mut reg: Registry<i64, u8> = Registry::new();
    reg.value_for("v", 1).unwrap();
    reg.timeline_for("t", 0).unwrap();
    assert_eq!(reg.timeline_for("v", 0), Err(RegistryError::KindMismatch));
    assert_eq!(reg.value_for("t", 0), Err(RegistryError::KindMismatch));
    assert_eq!(reg.lookup("t"), Some(Handle::Timeline(0)));
}

#[test]
fn removed_key_is_registered_anew() {
    let mut reg: Registry<i64, u8> = Registry::new();
    let a = reg.value_for("k", 1).unwrap();
    assert_eq!(reg.remove("k"), Some(Handle::Value(a)));
    assert_eq!(reg.remove("k"), None);
    let b = reg.value_for("k", 5).unwrap();
    assert_ne!(a, b);
    assert_eq!(*reg.value(b), 5);
    assert_eq!(*reg.value(a), 1);
}

#[test]
fn scheduler_value_for_ignores_later_initial() {
    let mut core = SchedulerCore::new();
    let h = core.value_for("k", UNIT, SpringConfig::snappy()).unwrap();
    let h2 = core.value_for("k", 99 * UNIT, SpringConfig::gentle()).unwrap();
    assert_eq!(h, h2);
    assert_eq!(core.get(h), Some(UNIT));
    assert_eq!(core.value(h).unwrap().config(), SpringConfig::snappy());
}

#[test]
fn wake_fires_once_per_idle_to_active_edge() {
    let mut core = SchedulerCore::new();
    let h = core.value_for("k", 0, SpringConfig::snappy()).unwrap();
    let mut wakes = 0;
    if core.set_target(h, UNIT) {
        wakes += 1;
    }
    assert!(core.is_active());
    for i in 0..20 {
        core.tick_once(16_667);
        if core.set_target(h, UNIT + (i % 2) * 1_000) {
            wakes += 1;
        }
    }
    assert_eq!(wakes, 1);
    let mut ticks = 0;
    while core.is_active() && ticks < 10_000 {
        core.tick_once(16_667);
        ticks += 1;
    }
    assert!(!core.is_active());
    assert!(core.set_target(h, 0));
}

#[test]
fn setting_the_current_target_does_not_wake() {
    let mut core = SchedulerCore::new();
    let h = core.value_for("k", UNIT, SpringConfig::snappy()).unwrap();
    assert!(!core.set_target(h, UNIT));
    assert!(!core.is_active());
    assert!(!core.set_target(h + 10, UNIT));
}

#[test]
fn timeline_start_wakes_and_ticks_advance_it() {
    let mut core = SchedulerCore::new();
    let h = core.timeline_for("fade").unwrap();
    assert!(!core.timeline_has_entries(h));
    let id = core.timeline_add(h, 0, 100, 0, UNIT, Easing::Linear).unwrap();
    assert!(core.timeline_has_entries(h));
    assert!(core.timeline_start(h));
    assert!(!core.timeline_start(h));
    core.tick_once(50_000);
    assert_eq!(core.timeline_value_at(h, id), Some(UNIT / 2));
    assert!(core.is_active());
    core.tick_once(50_000);
    assert_eq!(core.timeline_value_at(h, id), Some(UNIT));
    assert!(!core.is_active());
    assert_eq!(core.tick_count(), 2);
    assert_eq!(core.value_for("fade", 0, SpringConfig::snappy()), Err(RegistryError::KindMismatch));
}

#[test]
fn removing_a_moving_value_lets_the_scheduler_idle() {
    let mut core = SchedulerCore::new();
    let h = core.value_for("k", 0, SpringConfig::snappy()).unwrap();
    core.set_target(h, UNIT);
    core.tick_once(16_667);
    assert!(core.is_active());
    assert_eq!(core.remove("k"), Some(Handle::Value(h)));
    assert!(core.value(h).unwrap().is_settled());
    core.tick_once(16_667);
    assert!(!core.is_active());
    assert_eq!(core.lookup("k"), None);
}

#[test]
fn background_loop_starts_once() {
    let mut bg = BackgroundControl::new();
    assert!(bg.start());
    assert!(!bg.start());
    assert!(bg.is_running());
    assert!(bg.stop());
    assert!(!bg.stop());
    assert!(bg.start());
}

#[test]
fn many_keys_settle_at_their_last_targets() {
    let mut core = SchedulerCore::new();
    let keys = ["a", "b", "c", "d", "e", "f", "g", "h"];
    let mut handles = Vec::new();
    for (i, k) in keys.iter().enumerate() {
        handles.push(core.value_for(k, i as i64 * UNIT, SpringConfig::snappy()).unwrap());
    }
    for round in 0..10i64 {
        for (i, h) in handles.iter().enumerate() {
            core.set_target(*h, (round - i as i64) * UNIT / 2);
        }
        core.tick_once(8_333);
    }
    let mut ticks = 0;
    while core.is_active() && ticks < 100_000 {
        core.tick_once(8_333);
        ticks += 1;
    }
    assert!(!core.is_active());
    for (i, h) in handles.iter().enumerate() {
        let v = core.value(*h).unwrap();
        assert!(v.is_settled());
        assert_eq!(v.target(), (9 - i as i64) * UNIT / 2);
        assert!((v.get() - v.target()).abs() < 1_000);
    }
}
