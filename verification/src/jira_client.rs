//! The Jira connection, the worklog sent for a session, and the requests
//! made of Jira's REST API.
use vstd::prelude::*;
use crate::session_store::{Session, opt_chars, clone_opt};
use crate::time::{Instant, parse_rfc3339, spec_instant_of, chrono_utc_fields, utc_fields};
use crate::text::{chars_of, string_from_chars, push_char, push_zero_padded, zero_padded};
use base64::Engine;

verus! {

/// A Jira site and the account that logs work on it.
#[derive(Debug, Clone)]
pub struct JiraConnection {
    pub id: String,
    pub name: String,
    pub base_url: String,
    pub email: String,
    /// Stored as-is; in production you'd want OS keychain storage.
    pub api_token: String,
}

/// A worklog to add to a Jira issue.
#[derive(Debug, Clone)]
pub struct WorklogPayload {
    pub issue_key: String,
    /// When the work started.
    pub started: Instant,
    pub time_spent_seconds: i64,
    pub comment: Option<String>,
}

/// The worklog Jira recorded.
#[derive(Debug, Clone)]
pub struct WorklogResult {
    pub worklog_id: String,
    pub issue_key: String,
    pub time_spent_seconds: i64,
    pub started: String,
}

/// The worklog for a session: none without a Jira key, with a duration of
/// zero or less, or with a start time that is not RFC 3339; otherwise the
/// key, the start instant, the duration and the comment.
pub open spec fn spec_worklog_payload(s: Session, comment: Option<String>) -> Option<WorklogPayload> {
    match s.jira_key {
        Some(key) => if s.duration_secs <= 0 {
            None
        } else {
            match spec_instant_of(s.start_time@) {
                Some(started) => Some(
                    WorklogPayload { issue_key: key, started, time_spent_seconds: s.duration_secs, comment },
                ),
                None => None,
            }
        },
        None => None,
    }
}

/// Builds the Jira worklog payload from a session; `None` if the session has
/// no Jira key or a duration of zero or less.
pub fn build_worklog_payload(session: &Session, comment: Option<String>) -> (p: Option<WorklogPayload>)
    ensures
        p == spec_worklog_payload(*session, comment),
{
    let key = match &session.jira_key {
        Some(k) => k.clone(),
        None => return None,
    };
    if session.duration_secs <= 0 {
        return None;
    }
    let started = match parse_rfc3339(session.start_time.as_str()) {
        Some(t) => t,
        None => return None,
    };
    Some(WorklogPayload { issue_key: key, started, time_spent_seconds: session.duration_secs, comment })
}

/// A worklog carries exactly the comment it is given, never text taken from
/// the session (its notes stay private).
pub proof fn lemma_payload_comment_is_the_argument(s: Session, comment: Option<String>)
    ensures
        spec_worklog_payload(s, comment) matches Some(p) ==> p.comment == comment,
{
}

/// The worklog depends only on the session's Jira key, duration and start
/// time, and on the comment: sessions that agree on those give the same
/// worklog, whatever their other fields (notes, window, project, ...).
pub proof fn lemma_payload_ignores_other_fields(s1: Session, s2: Session, comment: Option<String>)
    requires
        s1.jira_key == s2.jira_key,
        s1.duration_secs == s2.duration_secs,
        s1.start_time@ == s2.start_time@,
    ensures
        spec_worklog_payload(s1, comment) == spec_worklog_payload(s2, comment),
{
}

/// Why a session cannot be published.
#[derive(Debug, Clone, Copy, PartialEq, Eq, Structural)]
pub enum PublishRefusal {
    SessionNotFound,
    AlreadyPublished,
    NothingToLog,
}

/// The message shown for a refusal.
pub open spec fn spec_refusal_message(r: PublishRefusal) -> Seq<char> {
    match r {
        PublishRefusal::SessionNotFound => "Session not found"@,
        PublishRefusal::AlreadyPublished => "Session already published"@,
        PublishRefusal::NothingToLog => "Session has no Jira key or zero duration"@,
    }
}

impl PublishRefusal {
    /// The message shown for a refusal.
    pub fn message(&self) -> (m: String)
        ensures
            m@ == spec_refusal_message(*self),
    {
        match self {
            PublishRefusal::SessionNotFound => String::from_str("Session not found"),
            PublishRefusal::AlreadyPublished => String::from_str("Session already published"),
            PublishRefusal::NothingToLog => String::from_str("Session has no Jira key or zero duration"),
        }
    }
}

/// The worklog to publish for a session looked up by id: refused when the
/// session is missing, already published, or has nothing to log.
pub fn worklog_to_publish(session: Option<&Session>, comment: Option<String>) -> (r: Result<
    WorklogPayload,
    PublishRefusal,
>)
    ensures
        match session {
            None => r == Err::<WorklogPayload, PublishRefusal>(PublishRefusal::SessionNotFound),
            Some(s) => if s.is_published {
                r == Err::<WorklogPayload, PublishRefusal>(PublishRefusal::AlreadyPublished)
            } else {
                match spec_worklog_payload(*s, comment) {
                    Some(p) => r == Ok::<WorklogPayload, PublishRefusal>(p),
                    None => r == Err::<WorklogPayload, PublishRefusal>(PublishRefusal::NothingToLog),
                }
            },
        },
{
    let s = match session {
        Some(s) => s,
        None => return Err(PublishRefusal::SessionNotFound),
    };
    if s.is_published {
        return Err(PublishRefusal::AlreadyPublished);
    }
    match build_worklog_payload(s, comment) {
        Some(p) => Ok(p),
        None => Err(PublishRefusal::NothingToLog),
    }
}

/// The standard Base64 alphabet (RFC 4648, section 4).
pub open spec fn base64_alphabet() -> Seq<char> {
    "ABCDEFGHIJKLMNOPQRSTUVWXYZabcdefghijklmnopqrstuvwxyz0123456789+/"@
}

/// The Base64 digit of a 6-bit value.
pub open spec fn base64_digit(v: int) -> char {
    base64_alphabet()[v]
}

/// Standard Base64 with padding (RFC 4648, section 4): each group of three
/// bytes gives four digits of six bits each, most significant first; a last
/// group of one or two bytes is filled with zero bits and `=` pads it to
/// four characters.
pub open spec fn base64_standard(b: Seq<u8>) -> Seq<char>
    decreases b.len(),
{
    if b.len() == 0 {
        Seq::empty()
    } else if b.len() == 1 {
        seq![base64_digit(b[0] as int / 4), base64_digit((b[0] % 4) * 16), '=', '=']
    } else if b.len() == 2 {
        seq![
            base64_digit(b[0] as int / 4),
            base64_digit((b[0] % 4) * 16 + b[1] / 16),
            base64_digit((b[1] % 16) * 4),
            '=',
        ]
    } else {
        seq![
            base64_digit(b[0] as int / 4),
            base64_digit((b[0] % 4) * 16 + b[1] / 16),
            base64_digit((b[1] % 16) * 4 + b[2] / 64),
            base64_digit(b[2] as int % 64),
        ] + base64_standard(b.subrange(3, b.len() as int))
    }
}

/// Encodes bytes with `base64::engine::general_purpose::STANDARD`.  Claimed:
/// the text is the standard Base64 of the bytes, with padding
/// (`base64_standard`).  The encoder panics when the encoded length
/// overflows or cannot be allocated, which `requires` leaves out.
#[verifier::external_body]
fn base64_encode(bytes: &[u8]) -> (r: String)
    requires
        4 * ((bytes@.len() + 2) / 3) <= isize::MAX,
    ensures
        r@ == base64_standard(bytes@),
{
    base64::engine::general_purpose::STANDARD.encode(bytes)
}

/// The text `email:api_token` that basic authentication encodes.
pub open spec fn credentials_text(conn: JiraConnection) -> Seq<char> {
    conn.email@ + ":"@ + conn.api_token@
}

/// `s` without its trailing slashes.
pub open spec fn strip_trailing_slashes(s: Seq<char>) -> Seq<char>
    decreases s.len(),
{
    if s.len() > 0 && s.last() == '/' {
        strip_trailing_slashes(s.drop_last())
    } else {
        s
    }
}

impl JiraConnection {
    /// The `Authorization` header: `Basic ` and the Base64 of
    /// `email:api_token` in UTF-8.
    pub fn auth_header(&self) -> (h: String)
        requires
            4 * ((vstd::utf8::encode_utf8(credentials_text(*self)).len() + 2) / 3) <= isize::MAX,
        ensures
            h@ == "Basic "@ + base64_standard(vstd::utf8::encode_utf8(credentials_text(*self))),
    {
        let raw = String::from_str(self.email.as_str()).concat(":").concat(self.api_token.as_str());
        let encoded = base64_encode(raw.as_str().as_bytes());
        String::from_str("Basic ").concat(encoded.as_str())
    }

    /// The URL of a REST API path: the base URL without trailing slashes,
    /// then `/rest/api/3`, then the path.
    pub fn api_url(&self, path: &str) -> (u: String)
        ensures
            u@ == strip_trailing_slashes(self.base_url@) + "/rest/api/3"@ + path@,
    {
        let cs = chars_of(self.base_url.as_str());
        let mut end = cs.len();
        assert(cs@.subrange(0, end as int) =~= cs@);
        while end > 0 && cs[end - 1] == '/'
            invariant
                end <= cs@.len(),
                cs@ == self.base_url@,
                strip_trailing_slashes(self.base_url@) == strip_trailing_slashes(cs@.subrange(0, end as int)),
            decreases end,
        {
            assert(cs@.subrange(0, end as int).drop_last() =~= cs@.subrange(0, end - 1));
            end = end - 1;
        }
        let base = string_from_chars(cs.as_slice(), 0, end);
        base.concat("/rest/api/3").concat(path)
    }
}

/// The name a connection test reports: the account's display name Jira
/// gave, or `Unknown` when its reply has none.
pub fn display_name(found: Option<&str>) -> (n: String)
    ensures
        n@ == match found {
            Some(d) => d@,
            None => "Unknown"@,
        },
{
    match found {
        Some(d) => String::from_str(d),
        None => String::from_str("Unknown"),
    }
}

/// The REST path of an issue's worklogs: `/issue/<key>/worklog`.
pub fn worklog_path(issue_key: &str) -> (p: String)
    ensures
        p@ == "/issue/"@ + issue_key@ + "/worklog"@,
{
    String::from_str("/issue/").concat(issue_key).concat("/worklog")
}

/// The REST path of one worklog: `/issue/<key>/worklog/<id>`.
pub fn worklog_item_path(issue_key: &str, worklog_id: &str) -> (p: String)
    ensures
        p@ == "/issue/"@ + issue_key@ + "/worklog/"@ + worklog_id@,
{
    String::from_str("/issue/").concat(issue_key).concat("/worklog/").concat(worklog_id)
}

/// A Jira connection as the user enters it.
#[derive(Debug)]
pub struct SaveJiraConnectionInput {
    pub name: String,
    pub base_url: String,
    pub email: String,
    pub api_token: String,
}

/// A Jira connection as the UI shows it: everything but the token.
#[derive(Debug, Clone)]
pub struct JiraConnectionInfo {
    pub id: String,
    pub name: String,
    pub base_url: String,
    pub email: String,
    pub is_active: bool,
}

/// A request to publish one session as a worklog.
#[derive(Debug)]
pub struct PublishWorklogInput {
    pub session_id: String,
    pub comment: Option<String>,
}

impl JiraConnectionInfo {
    /// The connection just saved under `id`: the entered name, URL and
    /// e-mail, and active (saving one deactivates the others).
    pub fn saved(id: String, input: &SaveJiraConnectionInput) -> (info: JiraConnectionInfo)
        ensures
            info.id == id,
            info.name == input.name,
            info.base_url == input.base_url,
            info.email == input.email,
            info.is_active,
    {
        JiraConnectionInfo {
            id,
            name: input.name.clone(),
            base_url: input.base_url.clone(),
            email: input.email.clone(),
            is_active: true,
        }
    }
}

/// A year as chrono's `%Y` writes it: four digits for years 0 to 9999,
/// otherwise a sign and at least four digits.
pub open spec fn year_text(y: int) -> Seq<char> {
    if 0 <= y <= 9999 {
        zero_padded(y as nat, 4)
    } else if y < 0 {
        seq!['-'] + zero_padded((-y) as nat, 4)
    } else {
        seq!['+'] + zero_padded(y as nat, 4)
    }
}

/// The start of a worklog as Jira expects it, `%Y-%m-%dT%H:%M:%S%.3f+0000`,
/// from (year, month, day, hour, minute, second, nanosecond): the seconds
/// read 60 inside a leap second, and the milliseconds are truncated.
pub open spec fn jira_started_spec(f: (i32, u32, u32, u32, u32, u32, u32)) -> Seq<char> {
    year_text(f.0 as int) + seq!['-'] + zero_padded(f.1 as nat, 2) + seq!['-'] + zero_padded(f.2 as nat, 2)
        + seq!['T'] + zero_padded(f.3 as nat, 2) + seq![':'] + zero_padded(f.4 as nat, 2) + seq![':']
        + zero_padded((f.5 + f.6 / 1_000_000_000) as nat, 2) + seq!['.'] + zero_padded(
        ((f.6 / 1_000_000) % 1000) as nat,
        3,
    ) + seq!['+', '0', '0', '0', '0']
}

/// The `started` text of a worklog, e.g. `2021-01-17T12:34:00.000+0000`;
/// `None` for an instant chrono cannot hold as a date.
pub fn jira_started_text(started: Instant) -> (r: Option<String>)
    ensures
        match chrono_utc_fields(started.secs, started.nanos) {
            Some(f) => r matches Some(s) && s@ == jira_started_spec(f),
            None => r is None,
        },
{
    let f = match utc_fields(started) {
        Some(f) => f,
        None => return None,
    };
    let mut s = String::new();
    let y: i64 = f.0 as i64;
    if 0 <= y && y <= 9999 {
        push_zero_padded(&mut s, y as u64, 4);
    } else if y < 0 {
        push_char(&mut s, '-');
        push_zero_padded(&mut s, (-y) as u64, 4);
    } else {
        push_char(&mut s, '+');
        push_zero_padded(&mut s, y as u64, 4);
    }
    assert(s@ =~= year_text(f.0 as int));
    push_char(&mut s, '-');
    push_zero_padded(&mut s, f.1 as u64, 2);
    push_char(&mut s, '-');
    push_zero_padded(&mut s, f.2 as u64, 2);
    push_char(&mut s, 'T');
    push_zero_padded(&mut s, f.3 as u64, 2);
    push_char(&mut s, ':');
    push_zero_padded(&mut s, f.4 as u64, 2);
    push_char(&mut s, ':');
    let sec: u64 = f.5 as u64 + (f.6 as u64) / 1_000_000_000;
    push_zero_padded(&mut s, sec, 2);
    push_char(&mut s, '.');
    let ms: u64 = ((f.6 as u64) / 1_000_000) % 1000;
    push_zero_padded(&mut s, ms, 3);
    push_char(&mut s, '+');
    push_char(&mut s, '0');
    push_char(&mut s, '0');
    push_char(&mut s, '0');
    push_char(&mut s, '0');
    assert(s@ =~= jira_started_spec(f));
    Some(s)
}

/// What is sent to Jira to add a worklog: the start as Jira reads it, the
/// seconds spent, and the comment (sent as a one-paragraph document).
#[derive(Debug, Clone)]
pub struct WorklogRequest {
    pub started: String,
    pub time_spent_seconds: i64,
    pub comment: Option<String>,
}

/// The request that adds a worklog; `None` when its start is an instant
/// chrono cannot hold as a date.
pub fn worklog_request(payload: &WorklogPayload) -> (r: Option<WorklogRequest>)
    ensures
        match chrono_utc_fields(payload.started.secs, payload.started.nanos) {
            Some(f) => r matches Some(q) && q.started@ == jira_started_spec(f) && q.time_spent_seconds
                == payload.time_spent_seconds && q.comment == payload.comment,
            None => r is None,
        },
{
    match jira_started_text(payload.started) {
        Some(started) => Some(
            WorklogRequest {
                started,
                time_spent_seconds: payload.time_spent_seconds,
                comment: clone_opt(&payload.comment),
            },
        ),
        None => None,
    }
}

} // verus!
