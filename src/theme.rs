use vstd::prelude::*;
use std::time::Duration;
use crate::image::{lower_of, lowercase};
use crate::text::{contains, occurs_in};

verus! {

/// Light or dark appearance.
#[derive(Clone, Copy, Debug, PartialEq, Eq, Hash, Structural)]
pub enum ColorScheme {
    Light,
    Dark,
}

impl Default for ColorScheme {
    fn default() -> (r: ColorScheme)
        ensures
            r == ColorScheme::Light,
    {
        ColorScheme::Light
    }
}

impl ColorScheme {
    /// The opposite scheme.
    pub fn toggle(self) -> (r: ColorScheme)
        ensures
            r != self,
    {
        match self {
            ColorScheme::Light => ColorScheme::Dark,
            ColorScheme::Dark => ColorScheme::Light,
        }
    }
}

/// Platforms the theme can follow.
#[derive(Clone, Copy, Debug, PartialEq, Eq, Structural)]
pub enum Platform {
    MacOS,
    Windows,
    Linux,
    IOS,
    Android,
    Web,
    Unknown,
}

/// Scheme a GTK theme name asks for: dark when its lower-case form contains
/// "dark"; nothing otherwise.
pub fn scheme_from_gtk_theme(theme: &str) -> (r: Option<ColorScheme>)
    ensures
        r == (if occurs_in(lower_of(theme@), "dark"@) { Some(ColorScheme::Dark) } else { None }),
{
    let lower = lowercase(theme);
    if contains(lower.as_str(), "dark") {
        Some(ColorScheme::Dark)
    } else {
        None
    }
}

/// Scheme the desktop's `color-scheme` setting names: dark when the text
/// mentions "dark", light when it mentions "light" or "default", else nothing.
pub fn scheme_from_setting(setting: &str) -> (r: Option<ColorScheme>)
    ensures
        r == (if occurs_in(setting@, "dark"@) {
            Some(ColorScheme::Dark)
        } else if occurs_in(setting@, "light"@) || occurs_in(setting@, "default"@) {
            Some(ColorScheme::Light)
        } else {
            None
        }),
{
    if contains(setting, "dark") {
        Some(ColorScheme::Dark)
    } else if contains(setting, "light") || contains(setting, "default") {
        Some(ColorScheme::Light)
    } else {
        None
    }
}

/// Seconds between two polls of the system scheme, unless configured otherwise.
pub const DEFAULT_POLL_INTERVAL_SECS: u64 = 1;

/// Relies on `Duration::from_secs`: builds a duration of whole seconds.
#[verifier::external_body]
fn duration_from_secs(secs: u64) -> Duration {
    Duration::from_secs(secs)
}

/// How the system scheme watcher runs.
#[derive(Debug)]
pub struct WatcherConfig {
    /// How often the system scheme is polled.
    pub poll_interval: Duration,
    /// Whether the watcher starts as soon as it is built.
    pub auto_start: bool,
}

impl Default for WatcherConfig {
    fn default() -> (r: WatcherConfig)
        ensures
            r.auto_start,
    {
        WatcherConfig { poll_interval: duration_from_secs(DEFAULT_POLL_INTERVAL_SECS), auto_start: true }
    }
}

impl WatcherConfig {
    /// Polls every `DEFAULT_POLL_INTERVAL_SECS` seconds and starts at once.
    pub fn new() -> (r: WatcherConfig)
        ensures
            r.auto_start,
    {
        WatcherConfig { poll_interval: duration_from_secs(DEFAULT_POLL_INTERVAL_SECS), auto_start: true }
    }

    pub fn poll_interval(self, interval: Duration) -> (r: WatcherConfig)
        ensures
            r.poll_interval == interval,
            r.auto_start == self.auto_start,
    {
        WatcherConfig { poll_interval: interval, ..self }
    }

    pub fn auto_start(self, enabled: bool) -> (r: WatcherConfig)
        ensures
            r.poll_interval == self.poll_interval,
            r.auto_start == enabled,
    {
        WatcherConfig { auto_start: enabled, ..self }
    }
}

} // verus!
