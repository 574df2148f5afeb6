use timetracker::db::pending_migrations;
use timetracker::platform::window_rules::{collect_ide_windows, find_huddle_window, idle_secs_from_ticks, is_huddle_window, is_ide_process, parse_huddle_channel, try_parse_huddle_channel};
use timetracker::platform;
use timetracker::project_registry::{find_project_for_path, CreateProjectInput, Project};
use timetracker::settings_manager::{default_track_slack_huddles, default_true, settings_or_default, AppSettings};
use timetracker::time::{instant_of, whole_seconds_between, Instant};
use timetracker::update::newer_release;
use timetracker::{session_key, MIN_SESSION_SECS};

#[test]
fn session_key_format() {
    assert_eq!(session_key("p1", Some("main")), "p1::main");
    assert_eq!(session_key("p1", None), "p1::");
    assert_eq!(MIN_SESSION_SECS, 30);
}

#[test]
fn update_check_decisions() {
    assert_eq!(newer_release("v1.3.0", "1.2.9").as_deref(), Some("v1.3.0"));
    assert_eq!(newer_release("v1.2.9", "1.2.9"), None);
    assert_eq!(newer_release("1.2.0", "v1.10.0"), None);
    assert_eq!(newer_release("vv2.0.0", "1.0.0").as_deref(), Some("vv2.0.0"));
    assert_eq!(newer_release("nightly-abc", "1.0.0").as_deref(), Some("nightly-abc"));
    assert_eq!(newer_release("nightly-abc", "nightly-abc"), None);
    assert_eq!(newer_release("1.0.0-rc.1", "1.0.0"), None);
}

#[test]
fn migrations_pending_by_version() {
    assert_eq!(pending_migrations(0), vec![1, 2, 3, 4]);
    assert_eq!(pending_migrations(2), vec![3, 4]);
    assert_eq!(pending_migrations(4), Vec::<i64>::new());
    assert_eq!(pending_migrations(7), Vec::<i64>::new());
}

#[test]
fn default_settings() {
    let s = AppSettings::default();
    assert_eq!(s.idle_threshold_secs, 300);
    assert_eq!(s.poll_interval_secs, 5);
    assert_eq!(s.jira_patterns.len(), 1);
    assert!(!s.start_on_login && s.minimize_to_tray && s.track_slack_huddles);
    assert!(!s.jira_enabled && s.idle_detection_enabled && !s.auto_merge_enabled && !s.show_unexpected_errors);
    assert!(default_true() && default_track_slack_huddles());
    let mut custom = AppSettings::default();
    custom.idle_threshold_secs = 999;
    assert_eq!(settings_or_default(Some(Some(custom))).idle_threshold_secs, 999);
    assert_eq!(settings_or_default(Some(None)).idle_threshold_secs, 300);
    assert_eq!(settings_or_default(None).poll_interval_secs, 5);
}

#[test]
fn window_rules() {
    assert!(is_ide_process("code"));
    assert!(is_ide_process("rider64"));
    assert!(!is_ide_process("Code"));
    assert!(!is_ide_process("slack"));
    assert!(is_huddle_window("Huddle in #general - Slack", "slack"));
    assert!(is_huddle_window("HUDDLE", "slack"));
    assert!(!is_huddle_window("Huddle in #general", "teams"));
    assert!(!is_huddle_window("general - Slack", "slack"));
}

#[test]
fn huddle_channels() {
    assert_eq!(parse_huddle_channel("Huddle in #general"), Some("general".into()));
    assert_eq!(parse_huddle_channel("Huddle with @alice"), Some("@alice".into()));
    assert_eq!(parse_huddle_channel("HUDDLE IN #Ops  "), Some("Ops".into()));
    assert_eq!(parse_huddle_channel("Huddle"), None);
    assert_eq!(try_parse_huddle_channel("Huddle in #x"), Some(Some("x".into())));
    // 'İ' lower-cases to two characters, shifting the offset found in the lower-cased title.
    assert_eq!(try_parse_huddle_channel("İİİ in #a"), None);
}

#[test]
fn platform_stubs_report_nothing() {
    assert!(platform::get_active_window().is_none());
    assert_eq!(platform::get_idle_seconds(), 0);
    assert!(platform::list_ide_windows().is_empty());
    assert!(platform::get_huddle_window().is_none());
    assert!(platform::stub::get_active_window().is_none());
    assert!(platform::linux::get_huddle_window().is_none());
}

#[test]
fn whole_seconds_truncate_towards_zero() {
    let a = Instant { secs: 100, nanos: 900_000_000 };
    let b = Instant { secs: 101, nanos: 100_000_000 };
    assert_eq!(whole_seconds_between(a, b), 0);
    assert_eq!(whole_seconds_between(b, a), 0);
    assert_eq!(whole_seconds_between(Instant { secs: 0, nanos: 0 }, Instant { secs: -5, nanos: 500_000_000 }), -4);
}

fn project(id: &str, path: &str) -> Project {
    Project { id: id.into(), name: id.into(), path: path.into(), color: "#000".into(), created_at: String::new(), updated_at: String::new() }
}

#[test]
fn project_for_path_and_default_color() {
    let ps = vec![project("a", "/src"), project("b", "/src/app"), project("c", "/SRC/app/x")];
    assert_eq!(find_project_for_path(&ps, "/src/app/main.rs").map(|p| p.id.as_str()), Some("b"));
    assert!(find_project_for_path(&ps, "/srv/file").is_none());
    let input = CreateProjectInput { name: "n".into(), path: "/p".into(), color: None };
    assert_eq!(input.color_or_default(), "#4A90E2");
    let input = CreateProjectInput { name: "n".into(), path: "/p".into(), color: Some("#123456".into()) };
    assert_eq!(input.color_or_default(), "#123456");
}

#[test]
fn idle_seconds_from_ticks() {
    assert_eq!(idle_secs_from_ticks(10_000, 4_500), 5);
    assert_eq!(idle_secs_from_ticks(10_999, 10_000), 0);
    assert_eq!(idle_secs_from_ticks(1_000, 5_000), 0);
}

#[test]
fn instants_from_rfc3339_text() {
    assert_eq!(instant_of("2024-01-15T09:00:00Z"), Some(Instant { secs: 1_705_309_200, nanos: 0 }));
    assert_eq!(instant_of("2024-01-15T10:00:00.5+01:00"), Some(Instant { secs: 1_705_309_200, nanos: 500_000_000 }));
    assert_eq!(instant_of("2024-01-15"), None);
    assert_eq!(instant_of("not a date"), None);
}

#[test]
fn whole_seconds_count_a_leap_second() {
    // 10:00:60.2 (a leap second) to 10:01:05.0 on the same day: 5.8 s, the leap second counted.
    let leap = Instant { secs: 1_483_178_459, nanos: 1_200_000_000 };
    let after = Instant { secs: 1_483_178_465, nanos: 0 };
    assert_eq!(whole_seconds_between(leap, after), 5);
    // Without leap seconds, the plain difference truncated towards zero.
    let a = Instant { secs: 1_483_178_400, nanos: 300_000_000 };
    let b = Instant { secs: 1_483_178_410, nanos: 100_000_000 };
    assert_eq!(whole_seconds_between(a, b), 9);
}

#[test]
fn manual_sessions_are_labelled_and_open() {
    let input = timetracker::session_store::manual_session_input("Design review".into(), "2024-01-15T09:00:00Z".into());
    assert_eq!(input.window_title.as_deref(), Some("Design review"));
    assert_eq!(input.start_time, "2024-01-15T09:00:00Z");
    assert!(input.is_manual);
    assert!(input.end_time.is_none());
    assert!(input.project_id.is_none());
    assert_eq!(input.duration_secs, 0);
}

fn facts(visible: bool, title: &str, pid: u32, exe: Option<&str>, stem: &str) -> timetracker::platform::window_rules::WindowFacts {
    timetracker::platform::window_rules::WindowFacts {
        visible,
        title: title.into(),
        pid,
        exe_path: exe.map(Into::into),
        exe_stem: stem.into(),
    }
}

#[test]
fn window_selection_over_enumerated_windows() {
    let ws = vec![
        facts(false, "Huddle in #hidden", 7, Some("C:/slack.exe"), "slack"),
        facts(true, "main.rs - app - Visual Studio Code", 8, Some("C:/Code.exe"), "Code"),
        facts(true, "", 9, Some("C:/Code.exe"), "Code"),
        facts(true, "Huddle with @alice", 10, Some("C:/Slack.exe"), "Slack"),
        facts(true, "Huddle in #general", 11, Some("C:/slack.exe"), "slack"),
        facts(true, "Rider", 0, Some("C:/rider64.exe"), "rider64"),
        facts(true, "Rider", 12, None, ""),
        facts(true, "notes", 13, Some("C:/notepad.exe"), "notepad"),
    ];
    let h = find_huddle_window(&ws).unwrap();
    assert_eq!(h.window_title, "Huddle with @alice");
    assert_eq!(h.channel.as_deref(), Some("@alice"));
    let ides = collect_ide_windows(&ws);
    assert_eq!(ides.len(), 1);
    assert_eq!(ides[0].process_name, "code");
    assert_eq!(ides[0].window_title, "main.rs - app - Visual Studio Code");
    assert_eq!(ides[0].exe_path.as_deref(), Some("C:/Code.exe"));
    assert!(find_huddle_window(&ws[5..]).is_none());
}

#[test]
fn whole_seconds_around_leap_seconds() {
    let i = |secs: i64, nanos: u32| Instant { secs, nanos };
    // From a leap second back to an earlier time of the same day.
    assert_eq!(whole_seconds_between(i(1_483_178_465, 0), i(1_483_178_459, 1_200_000_000)), -5);
    // Across midnight from a leap second the days count whole.
    assert_eq!(whole_seconds_between(i(1_483_228_799, 1_200_000_000), i(1_483_228_805, 0)), 4);
}
