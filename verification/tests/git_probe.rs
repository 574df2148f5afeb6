use timetracker::git_probe::{extract_jira_key, probe, find_repo_root, get_branch, GitOutput, JiraKeyPattern};

fn default_patterns() -> Vec<JiraKeyPattern> {
    vec![JiraKeyPattern::default()]
}

#[test]
fn extracts_simple_key() {
    assert_eq!(extract_jira_key("feature/PROJ-123-add-login", &default_patterns()), Some("PROJ-123".into()));
}

#[test]
fn extracts_key_at_start() {
    assert_eq!(extract_jira_key("PROJ-456", &default_patterns()), Some("PROJ-456".into()));
}

#[test]
fn case_insensitive_prefix() {
    assert_eq!(extract_jira_key("feature/proj-789-fix", &default_patterns()), Some("PROJ-789".into()));
}

#[test]
fn no_key_returns_none() {
    assert_eq!(extract_jira_key("main", &default_patterns()), None);
    assert_eq!(extract_jira_key("develop", &default_patterns()), None);
    assert_eq!(extract_jira_key("feature/add-new-button", &default_patterns()), None);
}

#[test]
fn custom_pattern() {
    let patterns = vec![JiraKeyPattern { pattern: r"(TT-\d+)".to_string(), description: "TimeTracker".to_string() }];
    assert_eq!(extract_jira_key("TT-99/some-work", &patterns), Some("TT-99".into()));
    // Standard key should not match with only custom pattern
    assert_eq!(extract_jira_key("feature/PROJ-123", &patterns), None);
}

#[test]
fn multi_digit_project() {
    assert_eq!(extract_jira_key("AB2C-10-something", &default_patterns()), Some("AB2C-10".into()));
}

#[test]
fn empty_pattern_list_uses_standard_pattern() {
    assert_eq!(extract_jira_key("bugfix/abc-42", &[]), Some("ABC-42".into()));
}

#[test]
fn invalid_pattern_is_skipped_and_whole_match_used() {
    let patterns = vec![
        JiraKeyPattern { pattern: "(unclosed".into(), description: "broken".into() },
        JiraKeyPattern { pattern: r"OPS-\d+".into(), description: "no group".into() },
    ];
    assert_eq!(extract_jira_key("hotfix/ops-5", &patterns), Some("OPS-5".into()));
}

#[test]
fn default_pattern_text() {
    let p = JiraKeyPattern::default();
    assert_eq!(p.pattern, r"([A-Z][A-Z0-9]+-\d+)");
    assert_eq!(p.description, "Standard Jira key (e.g. PROJ-123)");
}

fn out(success: bool, text: &[u8]) -> Option<GitOutput> {
    Some(GitOutput { success, stdout: text.to_vec() })
}

#[test]
fn repo_root_is_trimmed_output() {
    let run = |args: Vec<String>| {
        assert_eq!(args, vec!["-C", "/p/x", "rev-parse", "--show-toplevel"]);
        out(true, b"  /p\n")
    };
    assert_eq!(find_repo_root("/p/x", &run), Some("/p".into()));
    assert_eq!(find_repo_root("/p/x", &|_a: Vec<String>| out(false, b"/p")), None);
    assert_eq!(find_repo_root("/p/x", &|_a: Vec<String>| out(true, &[0xff, 0xfe])), None);
    assert_eq!(find_repo_root("/p/x", &|_a: Vec<String>| None), None);
}

#[test]
fn detached_head_reports_hash() {
    let run = |args: Vec<String>| {
        if args[2] == "symbolic-ref" { out(false, b"") } else { out(true, b"abc1234\n") }
    };
    assert_eq!(get_branch("/r", &run), Some("detached:abc1234".into()));
    let empty = |_a: Vec<String>| out(true, b"\n");
    assert_eq!(get_branch("/r", &empty), None);
}

#[test]
fn probe_finds_root_branch_and_key() {
    let run = |args: Vec<String>| match args[2].as_str() {
        "rev-parse" => out(true, b"/repo\n"),
        "symbolic-ref" => out(true, b"feature/WEB-12-nav\n"),
        _ => None,
    };
    let g = probe("/repo/src", &default_patterns(), &run);
    assert_eq!(g.repo_root.as_deref(), Some("/repo"));
    assert_eq!(g.branch.as_deref(), Some("feature/WEB-12-nav"));
    assert_eq!(g.jira_key.as_deref(), Some("WEB-12"));
    let outside = probe("/tmp", &default_patterns(), &|_a: Vec<String>| out(false, b""));
    assert_eq!(outside.repo_root, None);
    assert_eq!(outside.branch, None);
    assert_eq!(outside.jira_key, None);
}
