use timetracker::jira_client::{
    build_worklog_payload, display_name, jira_started_text, worklog_request, worklog_item_path, worklog_path, worklog_to_publish, JiraConnection,
    JiraConnectionInfo, PublishRefusal, SaveJiraConnectionInput,
};
use timetracker::session_store::Session;
use timetracker::time::Instant;

fn dummy_session(dur: i64, key: Option<&str>) -> Session {
    Session {
        id: "test".into(),
        project_id: None,
        start_time: "2024-01-15T09:00:00Z".into(),
        end_time: Some("2024-01-15T09:30:00Z".into()),
        duration_secs: dur,
        jira_key: key.map(Into::into),
        branch: None,
        window_title: None,
        process_name: None,
        is_idle: false,
        is_published: false,
        published_at: None,
        worklog_id: None,
        notes: None,
        created_at: "2024-01-15T09:00:00Z".into(),
        updated_at: "2024-01-15T09:00:00Z".into(),
        is_huddle: false,
        huddle_channel: None,
        is_manual: false,
    }
}

#[test]
fn payload_built_correctly() {
    let s = dummy_session(3600, Some("PROJ-1"));
    let p = build_worklog_payload(&s, Some("test comment".into())).unwrap();
    assert_eq!(p.issue_key, "PROJ-1");
    assert_eq!(p.time_spent_seconds, 3600);
    assert!(p.comment.is_some());
}

#[test]
fn no_payload_for_zero_duration() {
    let s = dummy_session(0, Some("PROJ-1"));
    assert!(build_worklog_payload(&s, None).is_none());
}

#[test]
fn no_payload_without_key() {
    let s = dummy_session(1800, None);
    assert!(build_worklog_payload(&s, None).is_none());
}

#[test]
fn payload_start_is_the_utc_instant() {
    let mut s = dummy_session(60, Some("PROJ-1"));
    s.start_time = "2024-01-15T10:00:00.250+01:00".into();
    let p = build_worklog_payload(&s, None).unwrap();
    assert_eq!(p.started.secs, 1705309200);
    assert_eq!(p.started.nanos, 250_000_000);
    s.start_time = "yesterday".into();
    assert!(build_worklog_payload(&s, None).is_none());
}

#[test]
fn publish_refusals() {
    assert_eq!(worklog_to_publish(None, None).unwrap_err(), PublishRefusal::SessionNotFound);
    let mut published = dummy_session(60, Some("PROJ-1"));
    published.is_published = true;
    assert_eq!(worklog_to_publish(Some(&published), None).unwrap_err(), PublishRefusal::AlreadyPublished);
    let keyless = dummy_session(60, None);
    let refusal = worklog_to_publish(Some(&keyless), None).unwrap_err();
    assert_eq!(refusal, PublishRefusal::NothingToLog);
    assert_eq!(refusal.message(), "Session has no Jira key or zero duration");
    assert_eq!(PublishRefusal::SessionNotFound.message(), "Session not found");
    assert_eq!(PublishRefusal::AlreadyPublished.message(), "Session already published");
    let ok = worklog_to_publish(Some(&dummy_session(60, Some("PROJ-9"))), Some("done".into())).unwrap();
    assert_eq!(ok.issue_key, "PROJ-9");
    assert_eq!(ok.comment.as_deref(), Some("done"));
}

fn connection(base: &str) -> JiraConnection {
    JiraConnection {
        id: "c1".into(),
        name: "Work".into(),
        base_url: base.into(),
        email: "alice@example.com".into(),
        api_token: "secret".into(),
    }
}

#[test]
fn auth_header_is_basic_base64() {
    assert_eq!(connection("https://x").auth_header(), "Basic YWxpY2VAZXhhbXBsZS5jb206c2VjcmV0");
}

#[test]
fn api_url_drops_trailing_slashes() {
    let c = connection("https://acme.atlassian.net//");
    assert_eq!(c.api_url("/myself"), "https://acme.atlassian.net/rest/api/3/myself");
    assert_eq!(c.api_url(&worklog_path("PROJ-1")), "https://acme.atlassian.net/rest/api/3/issue/PROJ-1/worklog");
    assert_eq!(worklog_item_path("PROJ-1", "77"), "/issue/PROJ-1/worklog/77");
}

#[test]
fn saved_connection_info_is_active() {
    let input = SaveJiraConnectionInput {
        name: "Work".into(),
        base_url: "https://acme".into(),
        email: "a@b".into(),
        api_token: "t".into(),
    };
    let info: JiraConnectionInfo = JiraConnectionInfo::saved("id-1".into(), &input);
    assert_eq!(info.id, "id-1");
    assert_eq!(info.name, "Work");
    assert_eq!(info.email, "a@b");
    assert!(info.is_active);
}

#[test]
fn started_text_in_jira_format() {
    let t = Instant { secs: 1_705_309_200, nanos: 0 };
    assert_eq!(jira_started_text(t).as_deref(), Some("2024-01-15T09:00:00.000+0000"));
    let t = Instant { secs: 1_705_309_200, nanos: 123_456_789 };
    assert_eq!(jira_started_text(t).as_deref(), Some("2024-01-15T09:00:00.123+0000"));
    let leap = Instant { secs: 1_483_228_799, nanos: 1_500_000_000 };
    assert_eq!(jira_started_text(leap).as_deref(), Some("2016-12-31T23:59:60.500+0000"));
    let early = Instant { secs: -62_135_596_800, nanos: 0 };
    assert_eq!(jira_started_text(early).as_deref(), Some("0001-01-01T00:00:00.000+0000"));
    let far = Instant { secs: 253_402_300_800, nanos: 0 };
    assert_eq!(jira_started_text(far).as_deref(), Some("+10000-01-01T00:00:00.000+0000"));
    assert_eq!(jira_started_text(Instant { secs: i64::MAX, nanos: 0 }), None);
}

#[test]
fn auth_header_pads_short_groups() {
    let with = |email: &str, token: &str| JiraConnection {
        id: "c".into(),
        name: "n".into(),
        base_url: "https://x".into(),
        email: email.into(),
        api_token: token.into(),
    };
    assert_eq!(with("a", "b").auth_header(), "Basic YTpi");
    assert_eq!(with("a", "").auth_header(), "Basic YTo=");
    assert_eq!(with("abc", "").auth_header(), "Basic YWJjOg==");
    assert_eq!(with("Ma", "n").auth_header(), "Basic TWE6bg==");
}

#[test]
fn connection_test_reports_display_name() {
    assert_eq!(display_name(Some("Alice")), "Alice");
    assert_eq!(display_name(None), "Unknown");
}

#[test]
fn worklog_request_carries_jira_start_text() {
    let s = dummy_session(3600, Some("PROJ-1"));
    let p = build_worklog_payload(&s, Some("notes".into())).unwrap();
    let r = worklog_request(&p).unwrap();
    assert_eq!(r.started, "2024-01-15T09:00:00.000+0000");
    assert_eq!(r.time_spent_seconds, 3600);
    assert_eq!(r.comment.as_deref(), Some("notes"));
}

#[test]
fn started_text_across_the_calendar() {
    let t = |secs: i64, nanos: u32| jira_started_text(Instant { secs, nanos });
    assert_eq!(t(951_782_400 + 3_723, 0).as_deref(), Some("2000-02-29T01:02:03.000+0000"));
    assert_eq!(t(-2_203_891_200, 0).as_deref(), Some("1900-03-01T00:00:00.000+0000"));
    assert_eq!(t(-62_167_305_600, 999_000_000).as_deref(), Some("-0001-12-31T00:00:00.999+0000"));
    assert_eq!(t(-62_162_121_600, 0).as_deref(), Some("0000-02-29T00:00:00.000+0000"));
    // The first and last instants chrono holds, and just outside them.
    assert_eq!(t(-8_334_601_228_800, 0).as_deref(), Some("-262143-01-01T00:00:00.000+0000"));
    assert_eq!(t(-8_334_601_228_801, 0), None);
    assert_eq!(t(8_210_266_876_799, 0).as_deref(), Some("+262142-12-31T23:59:59.000+0000"));
    assert_eq!(t(8_210_266_876_800, 0), None);
    // Past one second only inside a leap second, at the end of a minute.
    assert_eq!(t(1_705_309_200, 1_500_000_000), None);
    assert_eq!(t(1_705_309_259, 2_000_000_000), None);
}
