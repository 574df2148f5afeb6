//! The application settings and their defaults.
use vstd::prelude::*;
use crate::git_probe::{JiraKeyPattern, default_pattern_text, default_description_text};
use crate::activity_monitor::MonitorConfig;

verus! {

/// Whether Slack Huddles are tracked when stored settings do not say.
pub fn default_track_slack_huddles() -> (b: bool)
    ensures
        b,
{
    true
}

/// A setting that is on when stored settings do not say.
pub fn default_true() -> (b: bool)
    ensures
        b,
{
    true
}

/// The user's settings.
#[derive(Debug, Clone)]
pub struct AppSettings {
    pub idle_threshold_secs: u64,
    pub poll_interval_secs: u64,
    pub jira_patterns: Vec<JiraKeyPattern>,
    pub start_on_login: bool,
    pub minimize_to_tray: bool,
    /// Whether Slack Huddle calls should be tracked as sessions (default: true).
    pub track_slack_huddles: bool,
    /// Whether the Jira integration is enabled (default: false).
    pub jira_enabled: bool,
    /// Whether idle detection is active (default: true). When false, tracking
    /// never enters the Idle state automatically — only a manual pause stops it.
    pub idle_detection_enabled: bool,
    /// When true, the app will resume the previous open session after a short
    /// restart or wake-from-sleep (gap < 1 hour) instead of creating a new one.
    pub auto_merge_enabled: bool,
    /// When true, unhandled JavaScript errors are shown as toast notifications.
    pub show_unexpected_errors: bool,
}

/// The settings of a fresh installation.
pub open spec fn is_default_settings(s: AppSettings) -> bool {
    &&& s.idle_threshold_secs == 300
    &&& s.poll_interval_secs == 5
    &&& s.jira_patterns@.len() == 1
    &&& s.jira_patterns@[0].pattern@ == default_pattern_text()
    &&& s.jira_patterns@[0].description@ == default_description_text()
    &&& !s.start_on_login
    &&& s.minimize_to_tray
    &&& s.track_slack_huddles
    &&& !s.jira_enabled
    &&& s.idle_detection_enabled
    &&& !s.auto_merge_enabled
    &&& !s.show_unexpected_errors
}

impl Default for AppSettings {
    fn default() -> (s: Self)
        ensures
            is_default_settings(s),
    {
        let mut patterns: Vec<JiraKeyPattern> = Vec::new();
        patterns.push(JiraKeyPattern::default());
        Self {
            idle_threshold_secs: 300,
            poll_interval_secs: 5,
            jira_patterns: patterns,
            start_on_login: false,
            minimize_to_tray: true,
            track_slack_huddles: true,
            jira_enabled: false,
            idle_detection_enabled: true,
            auto_merge_enabled: false,
            show_unexpected_errors: false,
        }
    }
}

/// The settings in effect given what the store holds: the stored settings
/// when there are some that could be read, the defaults when there are none
/// (`None`) or they could not be read (`Some(None)`).
pub fn settings_or_default(stored: Option<Option<AppSettings>>) -> (s: AppSettings)
    ensures
        match stored {
            Some(Some(t)) => s == t,
            _ => is_default_settings(s),
        },
{
    match stored {
        Some(Some(t)) => t,
        _ => AppSettings::default(),
    }
}

impl MonitorConfig {
    /// The monitor configuration the settings give.
    pub fn from_settings(s: &AppSettings) -> (c: MonitorConfig)
        ensures
            c.idle_threshold_secs == s.idle_threshold_secs,
            c.poll_interval_secs == s.poll_interval_secs,
    {
        MonitorConfig { idle_threshold_secs: s.idle_threshold_secs, poll_interval_secs: s.poll_interval_secs }
    }
}

} // verus!
