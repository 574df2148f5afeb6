use timetracker::activity_monitor::{
    decide_tracking, tracking_label, woke_from_sleep, ActivityMonitor, MonitorConfig, TrackingState,
};
use timetracker::attribution::{Attribution, Confidence};
use timetracker::huddle_monitor::{huddle_poll_secs, HuddleAction, HuddleTracker};
use timetracker::platform::types::{ActiveWindowInfo, HuddleInfo};
use timetracker::recorder::{
    collect_candidates, end_session, new_session_input, resumable_project, resumed_session, Candidate, SessionEnd, SessionTracker, SnoozeList,
};
use timetracker::session_store::Session;
use timetracker::settings_manager::AppSettings;
use timetracker::time::Instant;

fn at(secs: i64) -> Instant {
    Instant { secs, nanos: 0 }
}

#[test]
fn monitor_starts_paused_and_pause_resume() {
    let mut m = ActivityMonitor::new(MonitorConfig::default());
    assert_eq!(m.current_state(), TrackingState::Paused);
    assert!(!m.is_paused());
    assert!(m.last_snapshot().is_none());
    m.pause();
    assert!(m.is_paused());
    assert_eq!(m.current_state(), TrackingState::Paused);
    m.resume();
    assert!(!m.is_paused());
    let snap = m.record_poll(5, 10, None, "2024-01-15T09:00:00Z".into());
    assert_eq!(snap.state, TrackingState::Running);
    assert_eq!(m.current_state(), TrackingState::Running);
    assert_eq!(m.last_snapshot().unwrap().timestamp, "2024-01-15T09:00:00Z");
}

#[test]
fn monitor_idle_and_idle_detection() {
    let mut m = ActivityMonitor::new(MonitorConfig { idle_threshold_secs: 300, poll_interval_secs: 5 });
    assert_eq!(m.record_poll(5, 300, None, "t".into()).state, TrackingState::Idle);
    assert_eq!(m.record_poll(5, 299, None, "t".into()).state, TrackingState::Running);
    // More than three poll intervals passed: the machine slept, idle counts as 0.
    let woke = m.record_poll(16, 10_000, None, "t".into());
    assert_eq!(woke.state, TrackingState::Running);
    assert_eq!(woke.idle_secs, 0);
    assert_eq!(m.record_poll(15, 10_000, None, "t".into()).idle_secs, 10_000);
    m.set_idle_detection_enabled(false);
    assert_eq!(m.record_poll(5, 10_000, None, "t".into()).state, TrackingState::Running);
    m.pause();
    assert_eq!(m.record_poll(5, 10_000, None, "t".into()).state, TrackingState::Paused);
}

#[test]
fn decisions_and_labels() {
    assert_eq!(decide_tracking(true, true, 1000, 300), TrackingState::Paused);
    assert_eq!(decide_tracking(false, true, 1000, 300), TrackingState::Idle);
    assert_eq!(decide_tracking(false, false, 1000, 300), TrackingState::Running);
    assert!(woke_from_sleep(16, 5));
    assert!(!woke_from_sleep(15, 5));
    assert!(!woke_from_sleep(u64::MAX, u64::MAX));
    assert_eq!(tracking_label(TrackingState::Running), "running");
    assert_eq!(tracking_label(TrackingState::Paused), "paused");
    assert_eq!(tracking_label(TrackingState::Idle), "idle");
    assert_eq!(TrackingState::default(), TrackingState::Paused);
}

#[test]
fn settings_drive_monitor_config() {
    let mut s = AppSettings::default();
    s.idle_threshold_secs = 42;
    s.poll_interval_secs = 7;
    let cfg = MonitorConfig::from_settings(&s);
    assert_eq!(cfg.idle_threshold_secs, 42);
    assert_eq!(cfg.poll_interval_secs, 7);
    let mut m = ActivityMonitor::new(MonitorConfig::default());
    m.apply_settings(&s);
    assert_eq!(m.config().idle_threshold_secs, 42);
    assert_eq!(m.config().poll_interval_secs, 7);
    // Settings take effect at the next poll.
    m.resume();
    assert_eq!(m.record_poll(7, 42, None, "t".into()).state, TrackingState::Idle);
    assert_eq!(m.record_poll(7, 41, None, "t".into()).state, TrackingState::Running);
}

#[test]
fn session_end_keeps_only_long_sessions() {
    assert_eq!(
        end_session("s", "2024-01-15T10:15:00Z", 900),
        SessionEnd::Keep { id: "s".into(), end_time: "2024-01-15T10:15:00Z".into(), duration_secs: 900 }
    );
    assert_eq!(end_session("s", "x", 30), SessionEnd::Keep { id: "s".into(), end_time: "x".into(), duration_secs: 30 });
    assert_eq!(end_session("s", "x", 29), SessionEnd::Discard { id: "s".into() });
}

#[test]
fn tracker_closes_departed_and_beats_the_rest() {
    let mut t = SessionTracker::new();
    t.open("p1::main", "s1", at(1000));
    t.open("p2::", "s2", at(1000));
    assert!(t.is_active("p1::main"));
    let current = vec!["p2::".to_string()];
    let ends = t.close_departed(true, &current, at(1900), "T1");
    assert_eq!(ends, vec![SessionEnd::Keep { id: "s1".into(), end_time: "T1".into(), duration_secs: 900 }]);
    assert!(!t.is_active("p1::main"));
    assert_eq!(t.len(), 1);
    let beats = t.heartbeats(at(1905));
    assert_eq!(beats, vec![("s2".to_string(), 905)]);
    let ends = t.close_departed(false, &current, at(1010), "T2");
    assert_eq!(ends, vec![SessionEnd::Discard { id: "s2".into() }]);
    assert_eq!(t.len(), 0);
}

#[test]
fn tracker_forget_and_clock_going_back() {
    let mut t = SessionTracker::new();
    t.open("a", "s1", at(500));
    t.open("b", "s2", at(500));
    t.forget("a");
    assert_eq!(t.len(), 1);
    assert_eq!(t.session_at(0).0, "b");
    let beats = t.heartbeats(at(400));
    assert_eq!(beats[0].1, 0);
}

fn attr(pid: Option<&str>, branch: Option<&str>) -> Attribution {
    Attribution {
        project_id: pid.map(Into::into),
        project_name: None,
        jira_key: None,
        branch: branch.map(Into::into),
        confidence: Confidence::Medium,
    }
}

fn win(title: &str) -> ActiveWindowInfo {
    ActiveWindowInfo { process_name: "code".into(), window_title: title.into(), exe_path: None }
}

#[test]
fn candidates_first_window_wins_and_snoozed_are_skipped() {
    let items = vec![
        (attr(Some("p1"), Some("main")), win("focused")),
        (attr(Some("p1"), Some("main")), win("background")),
        (attr(None, None), win("mail")),
        (attr(Some("p2"), None), win("other")),
        (attr(Some("p3"), Some("dev")), win("snoozed")),
    ];
    let cs = collect_candidates(&items, &["p3::dev".to_string()]);
    let keys: Vec<&str> = cs.iter().map(|c| c.key.as_str()).collect();
    assert_eq!(keys, vec!["p1::main", "p2::"]);
    assert_eq!(cs[0].window.window_title, "focused");
    let input = new_session_input(&cs[0], "2024-01-15T09:00:00Z");
    assert_eq!(input.project_id.as_deref(), Some("p1"));
    assert_eq!(input.branch.as_deref(), Some("main"));
    assert_eq!(input.window_title.as_deref(), Some("focused"));
    assert_eq!(input.process_name.as_deref(), Some("code"));
    assert_eq!(input.duration_secs, 0);
    assert!(input.end_time.is_none());
    assert!(!input.is_huddle && !input.is_manual && !input.is_idle);
}

#[test]
fn snooze_lasts_five_minutes() {
    let mut s = SnoozeList::new();
    s.snooze("p1::main", at(1000));
    s.snooze("p2::", at(1100));
    s.snooze("p1::main", at(1200));
    assert_eq!(s.keys(), vec!["p2::", "p1::main"]);
    s.expire(Instant { secs: 1399, nanos: 999_999_999 });
    assert_eq!(s.keys(), vec!["p2::", "p1::main"]);
    s.expire(at(1400));
    assert_eq!(s.keys(), vec!["p1::main"]);
    s.unsnooze("p1::main");
    assert!(s.keys().is_empty());
}

fn open_session(branch: Option<&str>, start: &str) -> Session {
    Session {
        id: "old".into(),
        project_id: Some("p1".into()),
        start_time: start.into(),
        end_time: None,
        duration_secs: 120,
        jira_key: None,
        branch: branch.map(Into::into),
        window_title: None,
        process_name: None,
        is_idle: false,
        is_published: false,
        published_at: None,
        worklog_id: None,
        notes: None,
        created_at: start.into(),
        updated_at: start.into(),
        is_huddle: false,
        huddle_channel: None,
        is_manual: false,
    }
}

#[test]
fn resume_only_on_same_branch() {
    // Started 09:00:00 with 120 s recorded: last seen 09:02:00.
    let s = open_session(Some("main"), "2024-01-15T09:00:00Z");
    let now = at(1_705_309_200 + 1_800);
    let r = resumed_session(Some(&s), &Some("main".into()), now).unwrap();
    assert_eq!(r.0, "old");
    assert_eq!(r.1, at(1_705_309_200));
    assert!(resumed_session(Some(&s), &Some("dev".into()), now).is_none());
    assert!(resumed_session(None, &None, now).is_none());
    let bad = open_session(None, "garbage");
    assert_eq!(resumed_session(Some(&bad), &None, now), Some(("old".to_string(), now)));
}

#[test]
fn resume_only_after_a_break_under_an_hour() {
    let s = open_session(Some("main"), "2024-01-15T09:00:00Z");
    let last_seen = 1_705_309_200 + 120;
    assert!(resumed_session(Some(&s), &Some("main".into()), at(last_seen + 3_599)).is_some());
    assert!(resumed_session(Some(&s), &Some("main".into()), at(last_seen + 3_600)).is_none());
    assert!(resumed_session(Some(&s), &Some("main".into()), at(last_seen + 86_400)).is_none());
}

#[test]
fn huddle_session_lifecycle() {
    assert_eq!(huddle_poll_secs(0), 2);
    assert_eq!(huddle_poll_secs(9), 9);
    let mut h = HuddleTracker::new();
    let info = HuddleInfo { channel: Some("general".into()), window_title: "Huddle in #general".into() };
    let (status, action) = h.poll(true, Some(&info), at(1705309200), "2024-01-15T09:00:00Z");
    let status = status.unwrap();
    assert!(status.active);
    assert_eq!(status.elapsed_secs, 0);
    match action {
        HuddleAction::Create(input) => {
            assert!(input.is_huddle);
            assert_eq!(input.process_name.as_deref(), Some("slack"));
            assert_eq!(input.huddle_channel.as_deref(), Some("general"));
            assert_eq!(input.start_time, "2024-01-15T09:00:00Z");
        },
        other => panic!("expected a new session, got {:?}", other),
    }
    h.session_created("h1", "2024-01-15T09:00:00Z");
    let (status, action) = h.poll(true, Some(&info), at(1705310100), "2024-01-15T09:15:00Z");
    assert_eq!(status.unwrap().elapsed_secs, 900);
    match action {
        HuddleAction::Update { id, end_time, duration_secs } => {
            assert_eq!(id, "h1");
            assert_eq!(end_time, "2024-01-15T09:15:00Z");
            assert_eq!(duration_secs, 900);
        },
        other => panic!("expected an update, got {:?}", other),
    }
    let (status, action) = h.poll(true, None, at(1705310105), "2024-01-15T09:15:05Z");
    assert!(!status.unwrap().active);
    match action {
        HuddleAction::Finish(end) => {
            assert_eq!(end, SessionEnd::Keep { id: "h1".into(), end_time: "2024-01-15T09:15:05Z".into(), duration_secs: 905 })
        },
        other => panic!("expected the end, got {:?}", other),
    }
    let (_, action) = h.poll(true, None, at(1705310110), "2024-01-15T09:15:10Z");
    assert!(matches!(action, HuddleAction::Idle));
}

#[test]
fn huddle_short_call_discarded_and_tracking_off() {
    let mut h = HuddleTracker::new();
    let info = HuddleInfo { channel: None, window_title: "Huddle".into() };
    let _ = h.poll(true, Some(&info), at(1705309200), "2024-01-15T09:00:00Z");
    h.session_created("h2", "2024-01-15T09:00:00Z");
    let (status, action) = h.poll(false, Some(&info), at(1705309210), "2024-01-15T09:00:10Z");
    assert!(status.is_none());
    match action {
        HuddleAction::Finish(end) => assert_eq!(end, SessionEnd::Discard { id: "h2".into() }),
        other => panic!("expected the end, got {:?}", other),
    }
}

#[test]
fn duration_is_total_elapsed_not_one_interval() {
    // The session starts at 10:00:00; each poll stores the total elapsed time.
    let mut t = SessionTracker::new();
    let start = Instant { secs: 1_705_312_800, nanos: 0 };
    t.open("p::", "s1", start);
    let beats = t.heartbeats(Instant { secs: 1_705_312_805, nanos: 0 });
    assert_eq!(beats, vec![("s1".to_string(), 5)]);
    let beats = t.heartbeats(Instant { secs: 1_705_313_700, nanos: 0 });
    assert_eq!(beats, vec![("s1".to_string(), 900)],
        "After 15 minutes the stored duration must be 900 s, not 5 s (one poll interval)");
}

#[test]
fn short_session_can_be_deleted() {
    let end = end_session("s1", "2024-01-15T10:00:05Z", 5);
    assert_eq!(end, SessionEnd::Discard { id: "s1".into() }, "Stub session under 30 s must be deleted");
}

#[test]
fn long_session_survives_min_threshold() {
    let end = end_session("s1", "2024-01-15T10:15:00Z", 900);
    assert_eq!(
        end,
        SessionEnd::Keep { id: "s1".into(), end_time: "2024-01-15T10:15:00Z".into(), duration_secs: 900 }
    );
}

#[test]
fn sessions_closed_from_the_ui_are_forgotten() {
    let mut t = SessionTracker::new();
    t.open("a", "s1", at(500));
    t.open("b", "s2", at(500));
    t.open("c", "s3", at(500));
    t.keep_still_open(&[true, false, true]);
    assert_eq!(t.len(), 2);
    assert_eq!(t.session_at(0).1, "s1");
    assert_eq!(t.session_at(1).1, "s3");
    assert_eq!(t.heartbeats(at(560)), vec![("s1".to_string(), 60), ("s3".to_string(), 60)]);
}

#[test]
fn leftover_sessions_looked_up_only_with_auto_merge() {
    let c = Candidate { key: "p1::main".into(), attribution: attr(Some("p1"), Some("main")), window: win("x") };
    assert_eq!(resumable_project(&c, true).as_deref(), Some("p1"));
    assert_eq!(resumable_project(&c, false), None);
}

#[test]
fn huddle_poll_at_reads_its_time_text() {
    let mut h = HuddleTracker::new();
    let info = HuddleInfo { channel: None, window_title: "Huddle".into() };
    assert!(h.poll_at(true, Some(&info), "not a time").is_none());
    let (status, action) = h.poll_at(true, Some(&info), "2024-01-15T09:00:00Z").unwrap();
    assert!(status.unwrap().active);
    assert!(matches!(action, HuddleAction::Create(_)));
    assert!(!h.session_created("h9", "garbage"));
    assert!(h.session_created("h9", "2024-01-15T09:00:00Z"));
    let (status, action) = h.poll_at(true, Some(&info), "2024-01-15T09:01:00Z").unwrap();
    assert_eq!(status.unwrap().elapsed_secs, 60);
    match action {
        HuddleAction::Update { id, duration_secs, .. } => {
            assert_eq!(id, "h9");
            assert_eq!(duration_secs, 60);
        },
        other => panic!("expected an update, got {:?}", other),
    }
}

#[test]
fn snoozing_a_key_twice_keeps_one_entry() {
    let mut s = SnoozeList::new();
    s.snooze("p1::", at(0));
    s.snooze("p1::", at(100));
    assert_eq!(s.keys(), vec!["p1::"]);
    s.expire(at(350));
    assert_eq!(s.keys(), vec!["p1::"]);
    s.expire(at(400));
    assert!(s.keys().is_empty());
}

#[test]
fn last_poll_stands_until_the_next() {
    let mut m = ActivityMonitor::new(MonitorConfig::default());
    let s1 = m.record_poll(5, 0, None, "2024-01-15T09:00:00Z".into());
    m.set_idle_detection_enabled(false);
    m.apply_settings(&AppSettings::default());
    m.resume();
    assert_eq!(m.current_state(), s1.state);
    assert_eq!(m.last_snapshot().unwrap().timestamp, s1.timestamp);
    let s2 = m.record_poll(5, 0, None, "2024-01-15T09:00:05Z".into());
    assert_eq!(m.last_snapshot().unwrap().timestamp, s2.timestamp);
}
