//! The decisions of the Slack Huddle monitor: at each poll, whether a huddle
//! session starts, grows or ends, and what the UI is told.
//!
//! - On huddle start, a session with `is_huddle = true` is created.
//! - While in the huddle, the session's duration is the total elapsed time.
//! - On huddle end, the session is finalised, or discarded if shorter than
//!   the minimum.
//! - With huddle tracking switched off, an open session is finalised and
//!   nothing else happens.
use vstd::prelude::*;
use crate::platform::types::HuddleInfo;
use crate::recorder::{SessionEnd, end_session, end_view, spec_session_end, elapsed_secs, elapsed_whole_secs};
use crate::session_store::{CreateSessionInput, clone_opt, opt_chars};
use crate::time::{Instant, instant_of, spec_instant_of};

verus! {

/// The payload of the `huddle-status` event.
#[derive(Debug, Clone)]
pub struct HuddleStatus {
    pub active: bool,
    pub channel: Option<String>,
    pub window_title: Option<String>,
    pub elapsed_secs: i64,
}

/// What a poll asks to be done with the huddle session.
#[derive(Debug)]
pub enum HuddleAction {
    /// Nothing.
    Idle,
    /// Create this session; report its id with `session_created`.
    Create(CreateSessionInput),
    /// Store the open session's end time and total duration so far.
    Update { id: String, end_time: String, duration_secs: i64 },
    /// The huddle session is over: keep or discard it.
    Finish(SessionEnd),
}

/// The open huddle session, if any, and when it started.
pub struct HuddleTracker {
    current_session_id: Option<String>,
    session_start_time: Option<Instant>,
}

/// Seconds since the huddle session started (0 when no start is known).
pub open spec fn huddle_elapsed(start: Option<Instant>, now: Instant) -> int {
    match start {
        Some(s) => elapsed_secs(s, now),
        None => 0,
    }
}

/// The polling period of the huddle monitor: the given seconds, at least 2.
pub fn huddle_poll_secs(poll_secs: u64) -> (p: u64)
    ensures
        p == if poll_secs >= 2 { poll_secs } else { 2 },
{
    if poll_secs >= 2 {
        poll_secs
    } else {
        2
    }
}

/// What a poll at `now` (RFC 3339 text `now_text`) gives and leaves, from
/// the open huddle session's id and start before (`old_id`, `old_start`) to
/// those after (`new_id`, `new_start`): with huddle tracking off, an open
/// session is finished and nothing is reported; with a huddle on screen, it
/// is reported active with its elapsed time, and a session is created or its
/// total duration stored; with none, it is reported inactive and an open
/// session is finished.
pub open spec fn poll_outcome(
    old_id: Option<Seq<char>>,
    old_start: Option<Instant>,
    tracking_enabled: bool,
    huddle: Option<&HuddleInfo>,
    now: Instant,
    now_text: Seq<char>,
    r: (Option<HuddleStatus>, HuddleAction),
    new_id: Option<Seq<char>>,
    new_start: Option<Instant>,
) -> bool {
    &&& (!tracking_enabled ==> {
        &&& r.0 is None
        &&& new_id is None
        &&& match old_id {
            None => r.1 is Idle,
            Some(id) => r.1 matches HuddleAction::Finish(e) && end_view(e) == spec_session_end(
                id,
                now_text,
                huddle_elapsed(old_start, now),
            ),
        }
    })
    &&& (tracking_enabled && huddle is None ==> {
        &&& r.0 matches Some(st) && !st.active && st.channel is None && st.window_title is None
            && st.elapsed_secs == 0
        &&& new_id is None
        &&& match old_id {
            None => r.1 is Idle,
            Some(id) => r.1 matches HuddleAction::Finish(e) && end_view(e) == spec_session_end(
                id,
                now_text,
                huddle_elapsed(old_start, now),
            ),
        }
    })
    &&& (tracking_enabled && huddle is Some ==> {
        let info = huddle->0;
        &&& r.0 matches Some(st) && st.active && st.channel == info.channel && st.window_title == Some(
            info.window_title,
        ) && st.elapsed_secs == huddle_elapsed(old_start, now)
        &&& new_id == old_id
        &&& new_start == old_start
        &&& match old_id {
            None => r.1 matches HuddleAction::Create(input) && {
                &&& input.project_id is None
                &&& input.start_time@ == now_text
                &&& input.end_time is None
                &&& input.duration_secs == 0
                &&& input.jira_key is None
                &&& input.branch is None
                &&& input.window_title == Some(info.window_title)
                &&& input.process_name matches Some(p) && p@ == "slack"@
                &&& !input.is_idle
                &&& input.is_huddle
                &&& input.huddle_channel == info.channel
                &&& !input.is_manual
            },
            Some(id) => match old_start {
                Some(s) => r.1 matches HuddleAction::Update { id: uid, end_time, duration_secs } && uid@ == id
                    && end_time@ == now_text && duration_secs == elapsed_secs(s, now),
                None => r.1 is Idle,
            },
        }
    })
}

impl HuddleTracker {
    /// The open huddle session's id and start.
    pub closed spec fn open_id(&self) -> Option<Seq<char>> {
        opt_chars(self.current_session_id)
    }

    pub closed spec fn start(&self) -> Option<Instant> {
        self.session_start_time
    }

    /// Starts are in range.
    pub closed spec fn well_formed(&self) -> bool {
        self.session_start_time matches Some(s) ==> s.in_range()
    }

    /// No huddle session open.
    pub fn new() -> (t: Self)
        ensures
            t.open_id() is None,
            t.start() is None,
            t.well_formed(),
    {
        HuddleTracker { current_session_id: None, session_start_time: None }
    }

    /// Records that the session asked for by `Create` was created with the
    /// start time `start_time` it was stored with; durations count from the
    /// instant that text denotes.  A start time that is not RFC 3339 records
    /// nothing (`false`).
    pub fn session_created(&mut self, id: &str, start_time: &str) -> (ok: bool)
        requires
            old(self).well_formed(),
        ensures
            ok == (spec_instant_of(start_time@) is Some),
            ok ==> final(self).open_id() == Some(id@) && final(self).start() == spec_instant_of(start_time@),
            !ok ==> final(self).open_id() == old(self).open_id() && final(self).start() == old(self).start(),
            final(self).well_formed(),
    {
        match instant_of(start_time) {
            Some(t) => {
                self.current_session_id = Some(String::from_str(id));
                self.session_start_time = Some(t);
                true
            },
            None => false,
        }
    }

    fn finish(&mut self, now: Instant, now_text: &str) -> (a: HuddleAction)
        requires
            old(self).well_formed(),
            now.in_range(),
        ensures
            final(self).open_id() is None,
            final(self).start() is None,
            final(self).well_formed(),
            match old(self).open_id() {
                None => a is Idle,
                Some(id) => a matches HuddleAction::Finish(e) && end_view(e) == spec_session_end(
                    id,
                    now_text@,
                    huddle_elapsed(old(self).start(), now),
                ),
            },
    {
        let id = self.current_session_id.take();
        let start = self.session_start_time.take();
        match id {
            Some(id) => {
                let dur = match start {
                    Some(s) => elapsed_whole_secs(s, now),
                    None => 0,
                };
                HuddleAction::Finish(end_session(id.as_str(), now_text, dur))
            },
            None => HuddleAction::Idle,
        }
    }

    /// One poll at `now`, whose RFC 3339 text is `now_text`: with huddle tracking off,
    /// an open session is finished and nothing is reported; with a huddle on
    /// screen, it is reported active with its elapsed time, and a session is
    /// created or its total duration stored; with none, it is reported
    /// inactive and an open session is finished.  A finished session is kept
    /// when it lasted at least the minimum, else discarded.
    pub fn poll(
        &mut self,
        tracking_enabled: bool,
        huddle: Option<&HuddleInfo>,
        now: Instant,
        now_text: &str,
    ) -> (r: (Option<HuddleStatus>, HuddleAction))
        requires
            old(self).well_formed(),
            now.in_range(),
            spec_instant_of(now_text@) == Some(now),
        ensures
            final(self).well_formed(),
            poll_outcome(
                old(self).open_id(),
                old(self).start(),
                tracking_enabled,
                huddle,
                now,
                now_text@,
                r,
                final(self).open_id(),
                final(self).start(),
            ),
    {
        if !tracking_enabled {
            let a = self.finish(now, now_text);
            return (None, a);
        }
        match huddle {
            Some(info) => {
                let elapsed = match self.session_start_time {
                    Some(s) => elapsed_whole_secs(s, now),
                    None => 0,
                };
                let status = HuddleStatus {
                    active: true,
                    channel: clone_opt(&info.channel),
                    window_title: Some(info.window_title.clone()),
                    elapsed_secs: elapsed,
                };
                let action = match &self.current_session_id {
                    None => HuddleAction::Create(
                        CreateSessionInput {
                            project_id: None,
                            start_time: String::from_str(now_text),
                            end_time: None,
                            duration_secs: 0,
                            jira_key: None,
                            branch: None,
                            window_title: Some(info.window_title.clone()),
                            process_name: Some(String::from_str("slack")),
                            is_idle: false,
                            is_huddle: true,
                            huddle_channel: clone_opt(&info.channel),
                            is_manual: false,
                        },
                    ),
                    Some(id) => match self.session_start_time {
                        Some(s) => HuddleAction::Update {
                            id: id.clone(),
                            end_time: String::from_str(now_text),
                            duration_secs: elapsed_whole_secs(s, now),
                        },
                        None => HuddleAction::Idle,
                    },
                };
                (Some(status), action)
            },
            None => {
                let status = HuddleStatus { active: false, channel: None, window_title: None, elapsed_secs: 0 };
                let a = self.finish(now, now_text);
                (Some(status), a)
            },
        }
    }

    /// One poll at the time `now_text` (RFC 3339) denotes, as `poll` makes
    /// it; `None`, with nothing changed, when the text is not RFC 3339.
    pub fn poll_at(
        &mut self,
        tracking_enabled: bool,
        huddle: Option<&HuddleInfo>,
        now_text: &str,
    ) -> (r: Option<(Option<HuddleStatus>, HuddleAction)>)
        requires
            old(self).well_formed(),
        ensures
            final(self).well_formed(),
            match spec_instant_of(now_text@) {
                Some(now) => r matches Some(x) && poll_outcome(
                    old(self).open_id(),
                    old(self).start(),
                    tracking_enabled,
                    huddle,
                    now,
                    now_text@,
                    x,
                    final(self).open_id(),
                    final(self).start(),
                ),
                None => r is None && final(self).open_id() == old(self).open_id() && final(self).start()
                    == old(self).start(),
            },
    {
        match instant_of(now_text) {
            Some(now) => Some(self.poll(tracking_enabled, huddle, now, now_text)),
            None => None,
        }
    }
}

} // verus!
