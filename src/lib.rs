//! Animation scheduling engine: spring-driven values, keyframe timelines, a keyed
//! registry and the scheduler state machine, together with the motion, asset and
//! widget bookkeeping that sits around them.
//!
//! Animated quantities are fixed-point integers: one unit is `spring::UNIT` raw steps.
pub mod spring;
pub mod value;
pub mod timeline;
pub mod registry;
pub mod scheduler;
pub mod keyframes;
pub mod motion;
pub mod widget_backend;
pub mod typography;
pub mod theme;
pub mod text;
pub mod image;
pub mod assets;
pub mod hot_reload;
pub mod watch;
pub mod keys;
pub mod tokens;
