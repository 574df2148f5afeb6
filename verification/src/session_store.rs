//! The recorded sessions and the inputs that create and change them.
use vstd::prelude::*;

verus! {

/// The view of an optional string: its characters, if present.
pub open spec fn opt_chars(o: Option<String>) -> Option<Seq<char>> {
    match o {
        Some(s) => Some(s@),
        None => None,
    }
}

/// A stretch of tracked time.
#[derive(Debug, Clone)]
pub struct Session {
    pub id: String,
    pub project_id: Option<String>,
    pub start_time: String,
    pub end_time: Option<String>,
    pub duration_secs: i64,
    pub jira_key: Option<String>,
    pub branch: Option<String>,
    pub window_title: Option<String>,
    pub process_name: Option<String>,
    pub is_idle: bool,
    pub is_published: bool,
    pub published_at: Option<String>,
    pub worklog_id: Option<String>,
    pub notes: Option<String>,
    pub created_at: String,
    pub updated_at: String,
    /// True when this session was recorded from a Slack Huddle window.
    pub is_huddle: bool,
    /// Channel or recipient name parsed from the Slack Huddle window title.
    pub huddle_channel: Option<String>,
    /// True when the user started this session by hand.
    pub is_manual: bool,
}

/// A session as plain values.
pub struct SessionView {
    pub id: Seq<char>,
    pub project_id: Option<Seq<char>>,
    pub start_time: Seq<char>,
    pub end_time: Option<Seq<char>>,
    pub duration_secs: int,
    pub jira_key: Option<Seq<char>>,
    pub branch: Option<Seq<char>>,
    pub window_title: Option<Seq<char>>,
    pub process_name: Option<Seq<char>>,
    pub is_idle: bool,
    pub is_published: bool,
    pub published_at: Option<Seq<char>>,
    pub worklog_id: Option<Seq<char>>,
    pub notes: Option<Seq<char>>,
    pub created_at: Seq<char>,
    pub updated_at: Seq<char>,
    pub is_huddle: bool,
    pub huddle_channel: Option<Seq<char>>,
    pub is_manual: bool,
}

impl View for Session {
    type V = SessionView;

    open spec fn view(&self) -> SessionView {
        SessionView {
            id: self.id@,
            project_id: opt_chars(self.project_id),
            start_time: self.start_time@,
            end_time: opt_chars(self.end_time),
            duration_secs: self.duration_secs as int,
            jira_key: opt_chars(self.jira_key),
            branch: opt_chars(self.branch),
            window_title: opt_chars(self.window_title),
            process_name: opt_chars(self.process_name),
            is_idle: self.is_idle,
            is_published: self.is_published,
            published_at: opt_chars(self.published_at),
            worklog_id: opt_chars(self.worklog_id),
            notes: opt_chars(self.notes),
            created_at: self.created_at@,
            updated_at: self.updated_at@,
            is_huddle: self.is_huddle,
            huddle_channel: opt_chars(self.huddle_channel),
            is_manual: self.is_manual,
        }
    }
}

/// The fields a new session is created with.
#[derive(Debug)]
pub struct CreateSessionInput {
    pub project_id: Option<String>,
    pub start_time: String,
    pub end_time: Option<String>,
    pub duration_secs: i64,
    pub jira_key: Option<String>,
    pub branch: Option<String>,
    pub window_title: Option<String>,
    pub process_name: Option<String>,
    pub is_idle: bool,
    pub is_huddle: bool,
    pub huddle_channel: Option<String>,
    pub is_manual: bool,
}

/// The fields of a session to change; `None` leaves a field as it is.
#[derive(Debug, Default)]
pub struct UpdateSessionInput {
    pub end_time: Option<String>,
    pub duration_secs: Option<i64>,
    pub jira_key: Option<String>,
    pub notes: Option<String>,
    pub project_id: Option<Option<String>>,
}

/// The session a user starts by hand with a label: no project, open, begun
/// at `start_time`, labelled by its window title, and marked manual.
pub fn manual_session_input(label: String, start_time: String) -> (input: CreateSessionInput)
    ensures
        input.project_id is None,
        input.start_time == start_time,
        input.end_time is None,
        input.duration_secs == 0,
        input.jira_key is None,
        input.branch is None,
        input.window_title == Some(label),
        input.process_name is None,
        !input.is_idle,
        !input.is_huddle,
        input.huddle_channel is None,
        input.is_manual,
{
    CreateSessionInput {
        project_id: None,
        start_time,
        end_time: None,
        duration_secs: 0,
        jira_key: None,
        branch: None,
        window_title: Some(label),
        process_name: None,
        is_idle: false,
        is_huddle: false,
        huddle_channel: None,
        is_manual: true,
    }
}

/// A copy of an optional string.
pub fn clone_opt(o: &Option<String>) -> (r: Option<String>)
    ensures
        r == *o,
{
    match o {
        Some(s) => Some(s.clone()),
        None => None,
    }
}

/// Whether two optional strings hold the same characters.
pub fn opt_eq(a: &Option<String>, b: &Option<String>) -> (r: bool)
    ensures
        r == (opt_chars(*a) == opt_chars(*b)),
{
    match (a, b) {
        (Some(x), Some(y)) => *x == *y,
        (None, None) => true,
        _ => false,
    }
}

} // verus!
