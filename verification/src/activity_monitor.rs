//! The activity monitor: whether tracking runs, is paused, or sees the user
//! idle, decided at each poll of the focused window and the idle time.
use vstd::prelude::*;
use crate::platform::types::ActiveWindowInfo;
use crate::settings_manager::AppSettings;

verus! {

pub const DEFAULT_IDLE_THRESHOLD_SECS: u64 = 300;

pub const DEFAULT_POLL_INTERVAL_SECS: u64 = 5;

/// Whether time is being tracked.
#[derive(Debug, Clone, Copy, PartialEq, Eq, Structural)]
pub enum TrackingState {
    Running,
    Paused,
    Idle,
}

impl Default for TrackingState {
    fn default() -> (s: Self)
        ensures
            s == TrackingState::Paused,
    {
        TrackingState::Paused
    }
}

/// What one poll saw.
#[derive(Debug, Clone)]
pub struct ActivitySnapshot {
    pub timestamp: String,
    pub state: TrackingState,
    pub window: Option<ActiveWindowInfo>,
    pub idle_secs: u64,
}

/// How long the user may be inactive before tracking counts as idle, and how
/// often to poll.
#[derive(Debug, Clone, Copy)]
pub struct MonitorConfig {
    pub idle_threshold_secs: u64,
    pub poll_interval_secs: u64,
}

impl Default for MonitorConfig {
    fn default() -> (c: Self)
        ensures
            c.idle_threshold_secs == DEFAULT_IDLE_THRESHOLD_SECS,
            c.poll_interval_secs == DEFAULT_POLL_INTERVAL_SECS,
    {
        Self { idle_threshold_secs: DEFAULT_IDLE_THRESHOLD_SECS, poll_interval_secs: DEFAULT_POLL_INTERVAL_SECS }
    }
}

#[derive(Debug)]
struct MonitorState {
    tracking: TrackingState,
    last_snapshot: Option<ActivitySnapshot>,
    manually_paused: bool,
    idle_detection_enabled: bool,
}

impl MonitorState {
    /// Paused, not paused by hand, idle detection on, nothing seen yet.
    pub closed spec fn is_initial(self) -> bool {
        &&& self.tracking == TrackingState::Paused
        &&& self.last_snapshot is None
        &&& !self.manually_paused
        &&& self.idle_detection_enabled
    }
}

impl Default for MonitorState {
    fn default() -> (s: Self)
        ensures
            s.is_initial(),
    {
        Self {
            tracking: TrackingState::Paused,
            last_snapshot: None,
            manually_paused: false,
            idle_detection_enabled: true,
        }
    }
}

/// The monitor's configuration and state.
#[derive(Debug)]
pub struct ActivityMonitor {
    config: MonitorConfig,
    state: MonitorState,
}

/// The state a poll decides on: paused when the user paused, idle when idle
/// detection is on and the user has been inactive for at least the
/// threshold, running otherwise.
pub open spec fn spec_decide_tracking(
    manually_paused: bool,
    idle_detection_enabled: bool,
    idle_secs: u64,
    idle_threshold_secs: u64,
) -> TrackingState {
    if manually_paused {
        TrackingState::Paused
    } else if idle_detection_enabled && idle_secs >= idle_threshold_secs {
        TrackingState::Idle
    } else {
        TrackingState::Running
    }
}

/// The real time between two polls is more than three poll intervals: the
/// machine woke from sleep.
pub open spec fn spec_woke_from_sleep(real_elapsed_secs: u64, poll_interval_secs: u64) -> bool {
    real_elapsed_secs > (if poll_interval_secs * 3 > u64::MAX { u64::MAX as int } else { poll_interval_secs * 3 })
}

/// The idle time a poll goes by: 0 right after the machine woke from
/// sleep, so that an open session is not lost as idle; otherwise the idle
/// time measured.
pub open spec fn spec_poll_idle_secs(real_elapsed_secs: u64, poll_interval_secs: u64, measured_idle_secs: u64) -> u64 {
    if spec_woke_from_sleep(real_elapsed_secs, poll_interval_secs) {
        0
    } else {
        measured_idle_secs
    }
}

/// Decides the tracking state of a poll.
pub fn decide_tracking(
    manually_paused: bool,
    idle_detection_enabled: bool,
    idle_secs: u64,
    idle_threshold_secs: u64,
) -> (s: TrackingState)
    ensures
        s == spec_decide_tracking(manually_paused, idle_detection_enabled, idle_secs, idle_threshold_secs),
{
    if manually_paused {
        TrackingState::Paused
    } else if idle_detection_enabled && idle_secs >= idle_threshold_secs {
        TrackingState::Idle
    } else {
        TrackingState::Running
    }
}

/// Whether the time between two polls shows that the machine slept; the idle
/// time is then taken as 0, so that an open session is not lost as idle.
pub fn woke_from_sleep(real_elapsed_secs: u64, poll_interval_secs: u64) -> (b: bool)
    ensures
        b == spec_woke_from_sleep(real_elapsed_secs, poll_interval_secs),
{
    let limit: u64 = if poll_interval_secs <= u64::MAX / 3 {
        poll_interval_secs * 3
    } else {
        u64::MAX
    };
    real_elapsed_secs > limit
}

/// The label of a tracking state: `running`, `paused` or `idle`.
pub open spec fn spec_tracking_label(s: TrackingState) -> Seq<char> {
    match s {
        TrackingState::Running => "running"@,
        TrackingState::Paused => "paused"@,
        TrackingState::Idle => "idle"@,
    }
}

/// The label of a tracking state, as the UI shows it.
pub fn tracking_label(s: TrackingState) -> (l: String)
    ensures
        l@ == spec_tracking_label(s),
{
    match s {
        TrackingState::Running => String::from_str("running"),
        TrackingState::Paused => String::from_str("paused"),
        TrackingState::Idle => String::from_str("idle"),
    }
}

/// A copy of a window description.
pub fn clone_window(w: &ActiveWindowInfo) -> (r: ActiveWindowInfo)
    ensures
        r == *w,
{
    ActiveWindowInfo {
        process_name: w.process_name.clone(),
        window_title: w.window_title.clone(),
        exe_path: crate::session_store::clone_opt(&w.exe_path),
    }
}

/// A copy of a snapshot.
pub fn clone_snapshot(s: &ActivitySnapshot) -> (r: ActivitySnapshot)
    ensures
        r == *s,
{
    ActivitySnapshot {
        timestamp: s.timestamp.clone(),
        state: s.state,
        window: match &s.window {
            Some(w) => Some(clone_window(w)),
            None => None,
        },
        idle_secs: s.idle_secs,
    }
}

impl ActivityMonitor {
    /// The state as seen from outside: configuration, tracking state, last
    /// snapshot, manual pause and idle detection.
    pub closed spec fn cfg(&self) -> MonitorConfig {
        self.config
    }

    pub closed spec fn tracking(&self) -> TrackingState {
        self.state.tracking
    }

    pub closed spec fn snapshot(&self) -> Option<ActivitySnapshot> {
        self.state.last_snapshot
    }

    pub closed spec fn paused(&self) -> bool {
        self.state.manually_paused
    }

    pub closed spec fn idle_detection(&self) -> bool {
        self.state.idle_detection_enabled
    }

    /// A monitor with the given configuration: paused, not paused by hand,
    /// idle detection on, nothing seen yet.
    pub fn new(config: MonitorConfig) -> (m: Self)
        ensures
            m.cfg() == config,
            m.tracking() == TrackingState::Paused,
            m.snapshot() is None,
            !m.paused(),
            m.idle_detection(),
    {
        let state = MonitorState::default();
        assert(state.is_initial());
        Self { config, state }
    }

    /// Pauses tracking by hand.
    pub fn pause(&mut self)
        ensures
            final(self).paused(),
            final(self).tracking() == TrackingState::Paused,
            final(self).idle_detection() == old(self).idle_detection(),
            final(self).snapshot() == old(self).snapshot(),
            final(self).cfg() == old(self).cfg(),
    {
        self.state.manually_paused = true;
        self.state.tracking = TrackingState::Paused;
    }

    /// Lifts a manual pause; the state changes at the next poll.
    pub fn resume(&mut self)
        ensures
            !final(self).paused(),
            final(self).tracking() == old(self).tracking(),
            final(self).idle_detection() == old(self).idle_detection(),
            final(self).snapshot() == old(self).snapshot(),
            final(self).cfg() == old(self).cfg(),
    {
        self.state.manually_paused = false;
    }

    pub fn set_idle_detection_enabled(&mut self, enabled: bool)
        ensures
            final(self).idle_detection() == enabled,
            final(self).paused() == old(self).paused(),
            final(self).tracking() == old(self).tracking(),
            final(self).snapshot() == old(self).snapshot(),
            final(self).cfg() == old(self).cfg(),
    {
        self.state.idle_detection_enabled = enabled;
    }

    /// The idle threshold and poll interval the monitor polls with.
    pub fn config(&self) -> (c: MonitorConfig)
        ensures
            c == self.cfg(),
    {
        self.config
    }

    pub fn is_paused(&self) -> (b: bool)
        ensures
            b == self.paused(),
    {
        self.state.manually_paused
    }

    pub fn is_idle_detection_enabled(&self) -> (b: bool)
        ensures
            b == self.idle_detection(),
    {
        self.state.idle_detection_enabled
    }

    pub fn current_state(&self) -> (s: TrackingState)
        ensures
            s == self.tracking(),
    {
        self.state.tracking
    }

    pub fn last_snapshot(&self) -> (s: Option<ActivitySnapshot>)
        ensures
            s == self.snapshot(),
    {
        match &self.state.last_snapshot {
            Some(s) => Some(clone_snapshot(s)),
            None => None,
        }
    }

    /// Records one poll with the monitor's own configuration, so that
    /// settings applied since take effect at once: `real_elapsed_secs` is the
    /// wall-clock time since the previous poll and `measured_idle_secs` the
    /// idle time the system reports.  After a sleep the idle time counts as
    /// 0; the tracking state follows from the manual pause, idle detection
    /// and that idle time, and the snapshot is kept as the last one.
    pub fn record_poll(
        &mut self,
        real_elapsed_secs: u64,
        measured_idle_secs: u64,
        window: Option<ActiveWindowInfo>,
        timestamp: String,
    ) -> (snap: ActivitySnapshot)
        ensures
            snap.idle_secs == spec_poll_idle_secs(
                real_elapsed_secs,
                old(self).cfg().poll_interval_secs,
                measured_idle_secs,
            ),
            snap.state == spec_decide_tracking(
                old(self).paused(),
                old(self).idle_detection(),
                snap.idle_secs,
                old(self).cfg().idle_threshold_secs,
            ),
            snap.window == window,
            snap.timestamp == timestamp,
            final(self).tracking() == snap.state,
            final(self).snapshot() == Some(snap),
            final(self).paused() == old(self).paused(),
            final(self).idle_detection() == old(self).idle_detection(),
            final(self).cfg() == old(self).cfg(),
    {
        let idle_secs = if woke_from_sleep(real_elapsed_secs, self.config.poll_interval_secs) {
            0
        } else {
            measured_idle_secs
        };
        let tracking = decide_tracking(
            self.state.manually_paused,
            self.state.idle_detection_enabled,
            idle_secs,
            self.config.idle_threshold_secs,
        );
        let snapshot = ActivitySnapshot { timestamp, state: tracking, window, idle_secs };
        self.state.tracking = tracking;
        self.state.last_snapshot = Some(clone_snapshot(&snapshot));
        snapshot
    }
}

impl ActivityMonitor {
    /// Takes up the idle threshold and poll interval of new settings.
    pub fn apply_settings(&mut self, s: &AppSettings)
        ensures
            final(self).cfg() == (MonitorConfig {
                idle_threshold_secs: s.idle_threshold_secs,
                poll_interval_secs: s.poll_interval_secs,
            }),
            final(self).tracking() == old(self).tracking(),
            final(self).paused() == old(self).paused(),
            final(self).idle_detection() == old(self).idle_detection(),
            final(self).snapshot() == old(self).snapshot(),
    {
        self.config = MonitorConfig::from_settings(s);
    }
}

/// A poll while paused by hand reports paused, whatever the idle time.
pub proof fn lemma_paused_poll_stays_paused(idle_detection_enabled: bool, idle_secs: u64, threshold: u64)
    ensures
        spec_decide_tracking(true, idle_detection_enabled, idle_secs, threshold) == TrackingState::Paused,
{
}

/// With idle detection off, a poll never reports idle.
pub proof fn lemma_no_idle_without_detection(manually_paused: bool, idle_secs: u64, threshold: u64)
    ensures
        spec_decide_tracking(manually_paused, false, idle_secs, threshold) != TrackingState::Idle,
{
}

/// A poll right after waking from sleep, which takes the idle time as 0,
/// never reports idle while the threshold is positive.
pub proof fn lemma_wake_is_not_idle(manually_paused: bool, idle_detection_enabled: bool, threshold: u64)
    requires
        threshold > 0,
    ensures
        spec_decide_tracking(manually_paused, idle_detection_enabled, 0, threshold) != TrackingState::Idle,
{
}

} // verus!
