use timetracker::attribution::{merge_adjacent_sessions, try_merge_adjacent_sessions, AttributionEngine, Confidence};
use timetracker::git_probe::{GitOutput, JiraKeyPattern};
use timetracker::platform::types::ActiveWindowInfo;
use timetracker::project_registry::Project;
use timetracker::session_store::Session;

fn make_session(id: &str, start: &str, end: &str, dur: i64, key: Option<&str>, pub_: bool) -> Session {
    Session {
        id: id.into(),
        project_id: None,
        start_time: start.into(),
        end_time: Some(end.into()),
        duration_secs: dur,
        jira_key: key.map(Into::into),
        branch: None,
        window_title: None,
        process_name: None,
        is_idle: false,
        is_published: pub_,
        published_at: None,
        worklog_id: None,
        notes: None,
        created_at: start.into(),
        updated_at: start.into(),
        is_huddle: false,
        huddle_channel: None,
        is_manual: false,
    }
}

#[test]
fn merges_adjacent_same_key() {
    let sessions = vec![
        make_session("1", "2024-01-15T09:00:00Z", "2024-01-15T09:30:00Z", 1800, Some("PROJ-1"), false),
        make_session("2", "2024-01-15T09:32:00Z", "2024-01-15T10:00:00Z", 1680, Some("PROJ-1"), false),
    ];
    let merged = merge_adjacent_sessions(&sessions);
    assert_eq!(merged.len(), 1);
    assert_eq!(merged[0].duration_secs, 3480);
    assert_eq!(merged[0].session_ids.len(), 2);
}

#[test]
fn does_not_merge_different_keys() {
    let sessions = vec![
        make_session("1", "2024-01-15T09:00:00Z", "2024-01-15T09:30:00Z", 1800, Some("PROJ-1"), false),
        make_session("2", "2024-01-15T09:32:00Z", "2024-01-15T10:00:00Z", 1680, Some("PROJ-2"), false),
    ];
    let merged = merge_adjacent_sessions(&sessions);
    assert_eq!(merged.len(), 2);
}

#[test]
fn does_not_merge_large_gap() {
    let sessions = vec![
        make_session("1", "2024-01-15T09:00:00Z", "2024-01-15T09:30:00Z", 1800, Some("PROJ-1"), false),
        make_session("2", "2024-01-15T10:30:00Z", "2024-01-15T11:00:00Z", 1800, Some("PROJ-1"), false),
    ];
    let merged = merge_adjacent_sessions(&sessions);
    assert_eq!(merged.len(), 2);
}

#[test]
fn does_not_merge_published() {
    let sessions = vec![
        make_session("1", "2024-01-15T09:00:00Z", "2024-01-15T09:30:00Z", 1800, Some("PROJ-1"), true),
        make_session("2", "2024-01-15T09:32:00Z", "2024-01-15T10:00:00Z", 1680, Some("PROJ-1"), false),
    ];
    let merged = merge_adjacent_sessions(&sessions);
    assert_eq!(merged.len(), 2);
}

#[test]
fn merge_keeps_total_and_ids_in_order() {
    let sessions = vec![
        make_session("a", "2024-01-15T09:00:00Z", "2024-01-15T09:30:00Z", 1800, Some("PROJ-1"), false),
        make_session("b", "2024-01-15T09:35:00Z", "2024-01-15T10:00:00Z", 1500, Some("PROJ-1"), false),
        make_session("c", "2024-01-15T10:00:00Z", "2024-01-15T10:10:00Z", 600, Some("PROJ-2"), false),
        make_session("d", "2024-01-15T10:10:30Z", "2024-01-15T10:20:00Z", 570, Some("PROJ-2"), false),
    ];
    let merged = merge_adjacent_sessions(&sessions);
    assert_eq!(merged.len(), 2);
    let total: i64 = merged.iter().map(|m| m.duration_secs).sum();
    assert_eq!(total, 1800 + 1500 + 600 + 570);
    let ids: Vec<String> = merged.iter().flat_map(|m| m.session_ids.clone()).collect();
    assert_eq!(ids, vec!["a", "b", "c", "d"]);
    assert_eq!(merged[0].end_time.as_deref(), Some("2024-01-15T10:00:00Z"));
    assert_eq!(merged[0].start_time, "2024-01-15T09:00:00Z");
}

#[test]
fn merge_gap_of_exactly_five_minutes_merges() {
    let sessions = vec![
        make_session("1", "2024-01-15T09:00:00Z", "2024-01-15T09:30:00Z", 1800, None, false),
        make_session("2", "2024-01-15T09:35:00Z", "2024-01-15T09:40:00Z", 300, None, false),
        make_session("3", "2024-01-15T09:45:01Z", "2024-01-15T09:50:00Z", 299, None, false),
    ];
    let merged = merge_adjacent_sessions(&sessions);
    assert_eq!(merged.len(), 2);
    assert_eq!(merged[0].session_ids, vec!["1", "2"]);
}

#[test]
fn merge_overlapping_sessions_stay_apart() {
    let sessions = vec![
        make_session("1", "2024-01-15T09:00:00Z", "2024-01-15T09:30:00Z", 1800, None, false),
        make_session("2", "2024-01-15T09:29:59Z", "2024-01-15T09:40:00Z", 600, None, false),
    ];
    assert_eq!(merge_adjacent_sessions(&sessions).len(), 2);
}

#[test]
fn merge_huddles_stay_apart() {
    let mut h = make_session("2", "2024-01-15T09:31:00Z", "2024-01-15T09:40:00Z", 540, None, false);
    h.is_huddle = true;
    let sessions = vec![make_session("1", "2024-01-15T09:00:00Z", "2024-01-15T09:30:00Z", 1800, None, false), h];
    assert_eq!(merge_adjacent_sessions(&sessions).len(), 2);
}

#[test]
fn merge_unparseable_times_stay_apart() {
    let sessions = vec![
        make_session("1", "2024-01-15T09:00:00Z", "not a time", 1800, None, false),
        make_session("2", "2024-01-15T09:30:00Z", "2024-01-15T09:40:00Z", 600, None, false),
    ];
    assert_eq!(merge_adjacent_sessions(&sessions).len(), 2);
}

#[test]
fn merge_empty_is_empty() {
    assert!(merge_adjacent_sessions(&[]).is_empty());
}

#[test]
fn try_merge_reports_overflow() {
    let sessions = vec![
        make_session("1", "2024-01-15T09:00:00Z", "2024-01-15T09:30:00Z", i64::MAX, None, false),
        make_session("2", "2024-01-15T09:31:00Z", "2024-01-15T09:40:00Z", 1, None, false),
    ];
    assert!(try_merge_adjacent_sessions(&sessions).is_none());
    let ok = vec![make_session("1", "2024-01-15T09:00:00Z", "2024-01-15T09:30:00Z", 5, None, false)];
    assert_eq!(try_merge_adjacent_sessions(&ok).unwrap().len(), 1);
}

fn project(id: &str, name: &str, path: &str) -> Project {
    Project {
        id: id.into(),
        name: name.into(),
        path: path.into(),
        color: "#4A90E2".into(),
        created_at: "2024-01-15T09:00:00Z".into(),
        updated_at: "2024-01-15T09:00:00Z".into(),
    }
}

fn window(title: &str, exe: Option<&str>) -> ActiveWindowInfo {
    ActiveWindowInfo { process_name: "code".into(), window_title: title.into(), exe_path: exe.map(Into::into) }
}

fn ok(text: &str) -> Option<GitOutput> {
    Some(GitOutput { success: true, stdout: text.as_bytes().to_vec() })
}

fn failed() -> Option<GitOutput> {
    Some(GitOutput { success: false, stdout: Vec::new() })
}

/// A git that knows one repository at `/work/app` on `branch`.
fn fake_git(branch: &'static str) -> impl Fn(Vec<String>) -> Option<GitOutput> {
    move |args: Vec<String>| {
        let args: Vec<&str> = args.iter().map(|s| s.as_str()).collect();
        match args.as_slice() {
            ["-C", _, "rev-parse", "--show-toplevel"] => ok("/work/app\n"),
            ["-C", "/work/app", "symbolic-ref", "--short", "HEAD"] => ok(&format!("{branch}\n")),
            _ => failed(),
        }
    }
}

#[test]
fn attribution_high_with_branch_key() {
    let engine = AttributionEngine::new(vec![JiraKeyPattern::default()]);
    let projects = vec![project("p1", "App", "/work/app")];
    let a = engine.attribute(&window("main.rs", Some("/work/app/target/debug/app")), &projects, &fake_git("feature/proj-7-login"));
    assert_eq!(a.project_id.as_deref(), Some("p1"));
    assert_eq!(a.project_name.as_deref(), Some("App"));
    assert_eq!(a.branch.as_deref(), Some("feature/proj-7-login"));
    assert_eq!(a.jira_key.as_deref(), Some("PROJ-7"));
    assert_eq!(a.confidence, Confidence::High);
}

#[test]
fn attribution_medium_without_key() {
    let engine = AttributionEngine::new(vec![JiraKeyPattern::default()]);
    let projects = vec![project("p1", "App", "/work/app")];
    let a = engine.attribute(&window("editor", Some("/WORK/APP/bin/tool")), &projects, &fake_git("main"));
    assert_eq!(a.project_id.as_deref(), Some("p1"));
    assert_eq!(a.jira_key, None);
    assert_eq!(a.branch.as_deref(), Some("main"));
    assert_eq!(a.confidence, Confidence::Medium);
}

#[test]
fn attribution_low_without_project() {
    let engine = AttributionEngine::new(vec![JiraKeyPattern::default()]);
    let projects = vec![project("p1", "App", "/work/app")];
    let a = engine.attribute(&window("Inbox - Mail", Some("/usr/bin/mail")), &projects, &fake_git("PROJ-1"));
    assert_eq!(a.project_id, None);
    assert_eq!(a.jira_key, None);
    assert_eq!(a.branch, None);
    assert_eq!(a.confidence, Confidence::Low);
}

#[test]
fn attribution_prefers_longest_folder_with_backslashes() {
    let engine = AttributionEngine::new(Vec::new());
    let projects = vec![
        project("outer", "Outer", "C:\\code"),
        project("inner", "Inner", "C:\\code\\inner"),
        project("other", "Other", "C:\\elsewhere"),
    ];
    let a = engine.attribute(&window("x", Some("c:/Code/Inner/bin/run.exe")), &projects, &|_args: Vec<String>| None);
    assert_eq!(a.project_id.as_deref(), Some("inner"));
    assert_eq!(a.confidence, Confidence::Medium);
}

#[test]
fn attribution_ties_go_to_the_last_project() {
    let engine = AttributionEngine::new(Vec::new());
    let projects = vec![project("first", "A", "/same/dir"), project("second", "B", "/same/dir")];
    let a = engine.attribute(&window("x", Some("/same/dir/bin")), &projects, &|_args: Vec<String>| None);
    assert_eq!(a.project_id.as_deref(), Some("second"));
}

#[test]
fn attribution_by_title_then_folder_name() {
    let engine = AttributionEngine::new(Vec::new());
    let projects = vec![project("p1", "Billing", "/srv/billing-api"), project("p2", "Web", "/srv/frontend")];
    let by_title = engine.attribute(&window("Invoices — BILLING dashboard", None), &projects, &|_a: Vec<String>| None);
    assert_eq!(by_title.project_id.as_deref(), Some("p1"));
    let by_folder = engine.attribute(&window("app.tsx - frontend - Visual Studio Code", None), &projects, &|_a: Vec<String>| None);
    assert_eq!(by_folder.project_id.as_deref(), Some("p2"));
    let short = vec![project("p3", "Zz", "/srv/ab")];
    let none = engine.attribute(&window("ab - editor", None), &short, &|_a: Vec<String>| None);
    assert_eq!(none.project_id, None);
}

#[test]
fn attribution_folder_name_ignores_trailing_slash() {
    let engine = AttributionEngine::new(Vec::new());
    let projects = vec![project("p1", "Zz", "/srv/webshop/")];
    let a = engine.attribute(&window("cart.ts - webshop", None), &projects, &|_a: Vec<String>| None);
    assert_eq!(a.project_id.as_deref(), Some("p1"));
}
