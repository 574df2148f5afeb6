//! The decisions of the session recording loop: which (project, branch)
//! pairs are on screen, which open sessions to finalise, keep alive or
//! start, and which pairs the user snoozed.
use vstd::prelude::*;
use crate::MIN_SESSION_SECS;
use crate::{session_key, spec_session_key};
use crate::attribution::Attribution;
use crate::platform::types::ActiveWindowInfo;
use crate::session_store::{opt_chars, opt_eq, clone_opt, Session, CreateSessionInput};
use crate::time::{Instant, whole_seconds_between, seconds_between, nanos_between, parse_rfc3339, spec_instant_of};

verus! {

/// How a closed session is stored: kept with its end time and duration, or
/// discarded when it is shorter than the minimum.
#[derive(Debug, Clone, PartialEq, Eq)]
pub enum SessionEnd {
    Keep { id: String, end_time: String, duration_secs: i64 },
    Discard { id: String },
}

/// Whole seconds from `start` to `now`, never below zero.
pub open spec fn elapsed_secs(start: Instant, now: Instant) -> int {
    let d = seconds_between(start, now);
    if d < 0 {
        0
    } else {
        d
    }
}

/// Whole seconds from `start` to `now`, never below zero.
pub fn elapsed_whole_secs(start: Instant, now: Instant) -> (d: i64)
    requires
        start.in_range(),
        now.in_range(),
    ensures
        d == elapsed_secs(start, now),
        d >= 0,
{
    let d = whole_seconds_between(start, now);
    if d < 0 {
        0
    } else {
        d
    }
}

/// A session of `duration_secs` is kept, with end time `end_time`, when it
/// lasted at least the minimum; otherwise discarded.
pub open spec fn spec_session_end(id: Seq<char>, end_time: Seq<char>, duration_secs: int) -> (Seq<char>, Option<(Seq<char>, int)>) {
    if duration_secs >= MIN_SESSION_SECS {
        (id, Some((end_time, duration_secs)))
    } else {
        (id, None)
    }
}

/// The view of a session end: the id, and the end time and duration if kept.
pub open spec fn end_view(e: SessionEnd) -> (Seq<char>, Option<(Seq<char>, int)>) {
    match e {
        SessionEnd::Keep { id, end_time, duration_secs } => (id@, Some((end_time@, duration_secs as int))),
        SessionEnd::Discard { id } => (id@, None),
    }
}

/// Decides how a session that lasted `duration_secs` ends.
pub fn end_session(id: &str, end_time: &str, duration_secs: i64) -> (e: SessionEnd)
    ensures
        end_view(e) == spec_session_end(id@, end_time@, duration_secs as int),
{
    if duration_secs >= MIN_SESSION_SECS {
        SessionEnd::Keep {
            id: String::from_str(id),
            end_time: String::from_str(end_time),
            duration_secs,
        }
    } else {
        SessionEnd::Discard { id: String::from_str(id) }
    }
}

/// A session being recorded for a (project, branch) pair.
#[derive(Debug, Clone)]
pub struct ActiveSession {
    pub key: String,
    pub id: String,
    pub start_time: Instant,
}

/// The view of an open session: key, id and start.
pub open spec fn active_view(a: ActiveSession) -> (Seq<char>, Seq<char>, Instant) {
    (a.key@, a.id@, a.start_time)
}

/// Each key occurs at most once.
pub open spec fn keys_distinct(s: Seq<(Seq<char>, Seq<char>, Instant)>) -> bool {
    forall|i: int, j: int| 0 <= i < j < s.len() ==> s[i].0 != s[j].0
}

/// The keys of some open sessions.
pub open spec fn keys_of(s: Seq<(Seq<char>, Seq<char>, Instant)>) -> Seq<Seq<char>> {
    s.map_values(|a: (Seq<char>, Seq<char>, Instant)| a.0)
}

/// The sessions open while recording, one per (project, branch) key.
pub struct SessionTracker {
    active: Vec<ActiveSession>,
}

/// The open sessions that stay open: while tracking runs, those whose pair
/// is still on screen; none otherwise.
pub open spec fn stays_open(a: (Seq<char>, Seq<char>, Instant), running: bool, current: Seq<Seq<char>>) -> bool {
    running && current.contains(a.0)
}

/// The open sessions that satisfy `p`, in order.
pub open spec fn keep_where(
    s: Seq<(Seq<char>, Seq<char>, Instant)>,
    p: spec_fn((Seq<char>, Seq<char>, Instant)) -> bool,
) -> Seq<(Seq<char>, Seq<char>, Instant)>
    decreases s.len(),
{
    if s.len() == 0 {
        s
    } else {
        let prev = keep_where(s.drop_last(), p);
        if p(s.last()) {
            prev.push(s.last())
        } else {
            prev
        }
    }
}

/// The open sessions that stay open after a snapshot, in order.
pub open spec fn kept_sessions(
    s: Seq<(Seq<char>, Seq<char>, Instant)>,
    running: bool,
    current: Seq<Seq<char>>,
) -> Seq<(Seq<char>, Seq<char>, Instant)> {
    keep_where(s, |a: (Seq<char>, Seq<char>, Instant)| stays_open(a, running, current))
}

/// The open sessions whose flag is set, in order.
pub open spec fn keep_flagged(s: Seq<(Seq<char>, Seq<char>, Instant)>, flags: Seq<bool>) -> Seq<(Seq<char>, Seq<char>, Instant)>
    decreases s.len(),
{
    if s.len() == 0 || flags.len() != s.len() {
        Seq::empty()
    } else {
        let prev = keep_flagged(s.drop_last(), flags.drop_last());
        if flags.last() {
            prev.push(s.last())
        } else {
            prev
        }
    }
}

/// The open sessions without the one for `key`, in order.
pub open spec fn without_key(s: Seq<(Seq<char>, Seq<char>, Instant)>, key: Seq<char>) -> Seq<(Seq<char>, Seq<char>, Instant)> {
    keep_where(s, |a: (Seq<char>, Seq<char>, Instant)| a.0 != key)
}

/// How the sessions closed by a snapshot end, in order.
pub open spec fn closed_sessions(
    s: Seq<(Seq<char>, Seq<char>, Instant)>,
    running: bool,
    current: Seq<Seq<char>>,
    now: Instant,
    timestamp: Seq<char>,
) -> Seq<(Seq<char>, Option<(Seq<char>, int)>)>
    decreases s.len(),
{
    if s.len() == 0 {
        Seq::empty()
    } else {
        let prev = closed_sessions(s.drop_last(), running, current, now, timestamp);
        if stays_open(s.last(), running, current) {
            prev
        } else {
            prev.push(spec_session_end(s.last().1, timestamp, elapsed_secs(s.last().2, now)))
        }
    }
}

proof fn lemma_keep_where_sub(
    s: Seq<(Seq<char>, Seq<char>, Instant)>,
    p: spec_fn((Seq<char>, Seq<char>, Instant)) -> bool,
)
    requires
        keys_distinct(s),
    ensures
        keys_distinct(keep_where(s, p)),
        forall|k: int| 0 <= k < keep_where(s, p).len() ==> s.contains(#[trigger] keep_where(s, p)[k]) && p(keep_where(s, p)[k]),
    decreases s.len(),
{
    if s.len() > 0 {
        let t = s.drop_last();
        assert(keys_distinct(t));
        lemma_keep_where_sub(t, p);
        let prev = keep_where(t, p);
        assert forall|k: int| 0 <= k < prev.len() implies s.contains(#[trigger] prev[k]) by {
            let j = choose|j: int| 0 <= j < t.len() && t[j] == prev[k];
            assert(s[j] == prev[k]);
        }
        if p(s.last()) {
            let next = prev.push(s.last());
            assert forall|i: int, j: int| 0 <= i < j < next.len() implies next[i].0 != next[j].0 by {
                if j == next.len() - 1 {
                    let a = choose|a: int| 0 <= a < t.len() && t[a] == prev[i];
                    assert(s[a] == next[i]);
                    assert(s[s.len() - 1] == next[j]);
                }
            }
            assert(s.contains(s.last())) by {
                assert(s[s.len() - 1] == s.last());
            }
        }
    }
}

impl SessionTracker {
    #[verifier::type_invariant]
    closed spec fn well_formed(self) -> bool {
        &&& keys_distinct(self.active@.map_values(|a: ActiveSession| active_view(a)))
        &&& forall|i: int| 0 <= i < self.active@.len() ==> (#[trigger] self.active@[i]).start_time.in_range()
    }

    /// The open sessions: key, id and start, in the order they were opened.
    pub closed spec fn sessions(&self) -> Seq<(Seq<char>, Seq<char>, Instant)> {
        self.active@.map_values(|a: ActiveSession| active_view(a))
    }

    /// No session open.
    pub fn new() -> (t: Self)
        ensures
            t.sessions().len() == 0,
    {
        SessionTracker { active: Vec::new() }
    }

    /// The number of open sessions.
    pub fn len(&self) -> (n: usize)
        ensures
            n == self.sessions().len(),
    {
        self.active.len()
    }

    /// The open session at position `i`: key, id and start.
    pub fn session_at(&self, i: usize) -> (r: (&str, &str, Instant))
        requires
            i < self.sessions().len(),
        ensures
            (r.0@, r.1@, r.2) == self.sessions()[i as int],
    {
        let a = &self.active[i];
        (a.key.as_str(), a.id.as_str(), a.start_time)
    }

    /// Whether a session is open for `key`.
    pub fn is_active(&self, key: &str) -> (b: bool)
        ensures
            b == keys_of(self.sessions()).contains(key@),
    {
        let mut i: usize = 0;
        while i < self.active.len()
            invariant
                i <= self.active@.len(),
                forall|j: int| 0 <= j < i ==> self.active@[j].key@ != key@,
            decreases self.active@.len() - i,
        {
            if same_text(self.active[i].key.as_str(), key) {
                assert(keys_of(self.sessions())[i as int] == key@);
                return true;
            }
            i = i + 1;
        }
        proof {
            if keys_of(self.sessions()).contains(key@) {
                let j = choose|j: int| 0 <= j < keys_of(self.sessions()).len() && keys_of(self.sessions())[j] == key@;
                assert(self.active@[j].key@ == key@);
            }
        }
        false
    }

    /// Starts recording a session for `key`, not yet open.
    pub fn open(&mut self, key: &str, id: &str, start_time: Instant)
        requires
            !keys_of(old(self).sessions()).contains(key@),
            start_time.in_range(),
        ensures
            final(self).sessions() == old(self).sessions().push((key@, id@, start_time)),
    {
        proof {
            use_type_invariant(&*self);
        }
        let ghost before = self.sessions();
        let a = ActiveSession { key: String::from_str(key), id: String::from_str(id), start_time };
        let mut active: Vec<ActiveSession> = Vec::new();
        std::mem::swap(&mut active, &mut self.active);
        active.push(a);
        proof {
            let after = active@.map_values(|a: ActiveSession| active_view(a));
            assert(after =~= before.push((key@, id@, start_time)));
            assert forall|i: int, j: int| 0 <= i < j < after.len() implies after[i].0 != after[j].0 by {
                if j == after.len() - 1 {
                    assert(keys_of(before)[i] == before[i].0);
                }
            }
        }
        self.active = active;
    }

    /// Stops recording the sessions found closed meanwhile (say, deleted from
    /// the UI): `still_open[i]` tells whether the `i`-th open session is still
    /// open in the store.  The others stay, in order.
    pub fn keep_still_open(&mut self, still_open: &[bool])
        requires
            still_open@.len() == old(self).sessions().len(),
        ensures
            final(self).sessions() == keep_flagged(old(self).sessions(), still_open@),
    {
        proof {
            use_type_invariant(&*self);
        }
        let ghost before = self.sessions();
        let mut old_active: Vec<ActiveSession> = Vec::new();
        std::mem::swap(&mut old_active, &mut self.active);
        let mut kept: Vec<ActiveSession> = Vec::new();
        let mut i: usize = 0;
        while i < old_active.len()
            invariant
                i <= old_active@.len(),
                still_open@.len() == old_active@.len(),
                before == old_active@.map_values(|a: ActiveSession| active_view(a)),
                keys_distinct(before),
                forall|j: int| 0 <= j < old_active@.len() ==> (#[trigger] old_active@[j]).start_time.in_range(),
                forall|j: int| 0 <= j < kept@.len() ==> (#[trigger] kept@[j]).start_time.in_range(),
                kept@.map_values(|a: ActiveSession| active_view(a)) == keep_flagged(
                    before.take(i as int),
                    still_open@.take(i as int),
                ),
                keys_distinct(kept@.map_values(|a: ActiveSession| active_view(a))),
                forall|k: int| 0 <= k < kept@.len() ==> before.take(i as int).contains(active_view(#[trigger] kept@[k])),
            decreases old_active@.len() - i,
        {
            let ghost prev_kept = kept@;
            assert(before.take(i + 1).drop_last() =~= before.take(i as int));
            assert(before.take(i + 1).last() == before[i as int]);
            assert(still_open@.take(i + 1).drop_last() =~= still_open@.take(i as int));
            assert(still_open@.take(i + 1).last() == still_open@[i as int]);
            if still_open[i] {
                let a = ActiveSession {
                    key: old_active[i].key.clone(),
                    id: old_active[i].id.clone(),
                    start_time: old_active[i].start_time,
                };
                kept.push(a);
                let ghost pk = prev_kept.map_values(|a: ActiveSession| active_view(a));
                let ghost nk = kept@.map_values(|a: ActiveSession| active_view(a));
                assert(nk =~= pk.push(before[i as int]));
                assert forall|x: int, y: int| 0 <= x < y < nk.len() implies nk[x].0 != nk[y].0 by {
                    if y == nk.len() - 1 {
                        assert(pk[x] == active_view(prev_kept[x]));
                        let w = choose|w: int| 0 <= w < before.take(i as int).len() && before.take(i as int)[w] == active_view(prev_kept[x]);
                        assert(before[w] == nk[x]);
                    }
                }
                assert forall|k: int| 0 <= k < kept@.len() implies before.take(i + 1).contains(active_view(#[trigger] kept@[k])) by {
                    assert(nk[k] == active_view(kept@[k]));
                    if k < pk.len() {
                        assert(pk[k] == active_view(prev_kept[k]));
                        assert(prev_kept[k] == kept@[k]);
                        let w = choose|w: int| 0 <= w < before.take(i as int).len() && before.take(i as int)[w] == active_view(prev_kept[k]);
                        assert(before.take(i + 1)[w] == nk[k]);
                    } else {
                        assert(before.take(i + 1)[i as int] == nk[k]);
                    }
                }
            } else {
                assert forall|k: int| 0 <= k < kept@.len() implies before.take(i + 1).contains(active_view(#[trigger] kept@[k])) by {
                    let w = choose|w: int| 0 <= w < before.take(i as int).len() && before.take(i as int)[w] == active_view(kept@[k]);
                    assert(before.take(i + 1)[w] == active_view(kept@[k]));
                }
            }
            i = i + 1;
        }
        assert(before.take(old_active@.len() as int) =~= before);
        assert(still_open@.take(old_active@.len() as int) =~= still_open@);
        self.active = kept;
    }

    /// Stops recording the session for `key`, if one is open; the others
    /// stay in order.
    pub fn forget(&mut self, key: &str)
        ensures
            final(self).sessions() == without_key(old(self).sessions(), key@),
    {
        proof {
            use_type_invariant(&*self);
        }
        let ghost before = self.sessions();
        let mut old_active: Vec<ActiveSession> = Vec::new();
        std::mem::swap(&mut old_active, &mut self.active);
        let mut kept: Vec<ActiveSession> = Vec::new();
        let mut i: usize = 0;
        while i < old_active.len()
            invariant
                i <= old_active@.len(),
                before == old_active@.map_values(|a: ActiveSession| active_view(a)),
                keys_distinct(before),
                forall|j: int| 0 <= j < old_active@.len() ==> (#[trigger] old_active@[j]).start_time.in_range(),
                forall|j: int| 0 <= j < kept@.len() ==> (#[trigger] kept@[j]).start_time.in_range(),
                kept@.map_values(|a: ActiveSession| active_view(a)) == without_key(before.take(i as int), key@),
            decreases old_active@.len() - i,
        {
            let ghost prev_kept = kept@;
            assert(before.take(i + 1).drop_last() =~= before.take(i as int));
            assert(before.take(i + 1).last() == before[i as int]);
            assert(before[i as int].0 == old_active@[i as int].key@);
            if !same_text(old_active[i].key.as_str(), key) {
                let a = ActiveSession {
                    key: old_active[i].key.clone(),
                    id: old_active[i].id.clone(),
                    start_time: old_active[i].start_time,
                };
                kept.push(a);
                assert(kept@.map_values(|a: ActiveSession| active_view(a)) =~= prev_kept.map_values(
                    |a: ActiveSession| active_view(a),
                ).push(before[i as int]));
            }
            i = i + 1;
        }
        assert(before.take(old_active@.len() as int) =~= before);
        proof {
            lemma_keep_where_sub(before, |a: (Seq<char>, Seq<char>, Instant)| a.0 != key@);
        }
        self.active = kept;
    }

    /// Applies a snapshot: while tracking runs, the sessions whose pair left
    /// the screen (not in `current`) close; when it does not, all close.
    /// A closed session is kept with end `timestamp` and its elapsed whole
    /// seconds up to `now` when that is at least the minimum, else discarded.
    pub fn close_departed(&mut self, running: bool, current: &[String], now: Instant, timestamp: &str) -> (ends: Vec<SessionEnd>)
        requires
            now.in_range(),
        ensures
            final(self).sessions() == kept_sessions(old(self).sessions(), running, current@.map_values(|s: String| s@)),
            ends@.map_values(|e: SessionEnd| end_view(e)) == closed_sessions(
                old(self).sessions(),
                running,
                current@.map_values(|s: String| s@),
                now,
                timestamp@,
            ),
    {
        proof {
            use_type_invariant(&*self);
        }
        let ghost before = self.sessions();
        let ghost cur = current@.map_values(|s: String| s@);
        let mut old_active: Vec<ActiveSession> = Vec::new();
        std::mem::swap(&mut old_active, &mut self.active);
        let mut kept: Vec<ActiveSession> = Vec::new();
        let mut ends: Vec<SessionEnd> = Vec::new();
        let mut i: usize = 0;
        while i < old_active.len()
            invariant
                i <= old_active@.len(),
                before == old_active@.map_values(|a: ActiveSession| active_view(a)),
                cur == current@.map_values(|s: String| s@),
                now.in_range(),
                forall|j: int| 0 <= j < old_active@.len() ==> (#[trigger] old_active@[j]).start_time.in_range(),
                forall|j: int| 0 <= j < kept@.len() ==> (#[trigger] kept@[j]).start_time.in_range(),
                kept@.map_values(|a: ActiveSession| active_view(a)) == kept_sessions(before.take(i as int), running, cur),
                ends@.map_values(|e: SessionEnd| end_view(e)) == closed_sessions(
                    before.take(i as int),
                    running,
                    cur,
                    now,
                    timestamp@,
                ),
            decreases old_active@.len() - i,
        {
            let ghost prev_kept = kept@;
            let ghost prev_ends = ends@;
            assert(before.take(i + 1).drop_last() =~= before.take(i as int));
            assert(before.take(i + 1).last() == before[i as int]);
            let a = &old_active[i];
            let on_screen = running && contains_key(current, a.key.as_str());
            assert(on_screen == stays_open(before[i as int], running, cur));
            if on_screen {
                kept.push(
                    ActiveSession { key: a.key.clone(), id: a.id.clone(), start_time: a.start_time },
                );
                assert(kept@.map_values(|a: ActiveSession| active_view(a)) =~= prev_kept.map_values(
                    |a: ActiveSession| active_view(a),
                ).push(before[i as int]));
            } else {
                let dur = elapsed_whole_secs(a.start_time, now);
                ends.push(end_session(a.id.as_str(), timestamp, dur));
                assert(ends@.map_values(|e: SessionEnd| end_view(e)) =~= prev_ends.map_values(
                    |e: SessionEnd| end_view(e),
                ).push(spec_session_end(before[i as int].1, timestamp@, elapsed_secs(before[i as int].2, now))));
            }
            i = i + 1;
        }
        assert(before.take(old_active@.len() as int) =~= before);
        proof {
            lemma_keep_where_sub(before, |a: (Seq<char>, Seq<char>, Instant)| stays_open(a, running, cur));
        }
        self.active = kept;
        ends
    }

    /// The sessions kept open, each with its elapsed whole seconds up to
    /// `now`: the durations to store while they stay open.
    pub fn heartbeats(&self, now: Instant) -> (beats: Vec<(String, i64)>)
        requires
            now.in_range(),
        ensures
            beats@.len() == self.sessions().len(),
            forall|i: int|
                0 <= i < beats@.len() ==> (#[trigger] beats@[i]).0@ == self.sessions()[i].1 && beats@[i].1
                    == elapsed_secs(self.sessions()[i].2, now),
    {
        proof {
            use_type_invariant(self);
        }
        let mut beats: Vec<(String, i64)> = Vec::new();
        let mut i: usize = 0;
        while i < self.active.len()
            invariant
                i <= self.active@.len(),
                beats@.len() == i,
                now.in_range(),
                forall|j: int| 0 <= j < self.active@.len() ==> (#[trigger] self.active@[j]).start_time.in_range(),
                forall|j: int|
                    0 <= j < i ==> (#[trigger] beats@[j]).0@ == self.active@[j].id@ && beats@[j].1 == elapsed_secs(
                        self.active@[j].start_time,
                        now,
                    ),
            decreases self.active@.len() - i,
        {
            let a = &self.active[i];
            beats.push((a.id.clone(), elapsed_whole_secs(a.start_time, now)));
            i = i + 1;
        }
        beats
    }
}

/// Whether two texts hold the same characters.
pub fn same_text(a: &str, b: &str) -> (r: bool)
    ensures
        r == (a@ == b@),
{
    String::from_str(a) == String::from_str(b)
}

/// Whether `key` is one of `keys`.
pub fn contains_key(keys: &[String], key: &str) -> (b: bool)
    ensures
        b == keys@.map_values(|s: String| s@).contains(key@),
{
    let mut i: usize = 0;
    while i < keys.len()
        invariant
            i <= keys@.len(),
            forall|j: int| 0 <= j < i ==> keys@[j]@ != key@,
        decreases keys@.len() - i,
    {
        if same_text(keys[i].as_str(), key) {
            assert(keys@.map_values(|s: String| s@)[i as int] == key@);
            return true;
        }
        i = i + 1;
    }
    proof {
        let v = keys@.map_values(|s: String| s@);
        if v.contains(key@) {
            let j = choose|j: int| 0 <= j < v.len() && v[j] == key@;
            assert(keys@[j]@ == key@);
        }
    }
    false
}

/// When tracking does not run (paused or idle), every open session closes.
pub proof fn lemma_stopped_closes_all(
    s: Seq<(Seq<char>, Seq<char>, Instant)>,
    current: Seq<Seq<char>>,
    now: Instant,
    timestamp: Seq<char>,
)
    ensures
        kept_sessions(s, false, current).len() == 0,
        closed_sessions(s, false, current, now, timestamp).len() == s.len(),
    decreases s.len(),
{
    if s.len() > 0 {
        lemma_stopped_closes_all(s.drop_last(), current, now, timestamp);
    }
}

/// A snapshot loses no session: each open session either stays open or is
/// ended (kept or discarded), and never both.
pub proof fn lemma_snapshot_accounts_for_every_session(
    s: Seq<(Seq<char>, Seq<char>, Instant)>,
    running: bool,
    current: Seq<Seq<char>>,
    now: Instant,
    timestamp: Seq<char>,
)
    ensures
        kept_sessions(s, running, current).len() + closed_sessions(s, running, current, now, timestamp).len()
            == s.len(),
    decreases s.len(),
{
    if s.len() > 0 {
        lemma_snapshot_accounts_for_every_session(s.drop_last(), running, current, now, timestamp);
    }
}

/// A session stays open only while its pair is on screen and tracking runs,
/// and the open sessions keep distinct keys.
pub proof fn lemma_kept_sessions_on_screen(
    s: Seq<(Seq<char>, Seq<char>, Instant)>,
    running: bool,
    current: Seq<Seq<char>>,
)
    requires
        keys_distinct(s),
    ensures
        keys_distinct(kept_sessions(s, running, current)),
        forall|k: int|
            0 <= k < kept_sessions(s, running, current).len() ==> stays_open(
                #[trigger] kept_sessions(s, running, current)[k],
                running,
                current,
            ),
{
    let p = |a: (Seq<char>, Seq<char>, Instant)| stays_open(a, running, current);
    lemma_keep_where_sub(s, p);
    assert(kept_sessions(s, running, current) == keep_where(s, p));
}

/// A closed session is stored exactly when it lasted at least the minimum,
/// and never with a negative duration.
pub proof fn lemma_session_end_rule(id: Seq<char>, end_time: Seq<char>, start: Instant, now: Instant)
    ensures
        spec_session_end(id, end_time, elapsed_secs(start, now)).1 is Some <==> elapsed_secs(start, now)
            >= MIN_SESSION_SECS,
        elapsed_secs(start, now) >= 0,
{
}

/// A (project, branch) pair on screen, with the attribution and window that
/// put it there.
#[derive(Debug, Clone)]
pub struct Candidate {
    pub key: String,
    pub attribution: Attribution,
    pub window: ActiveWindowInfo,
}

/// The key of an attribution with a project: its project and branch.
pub open spec fn attribution_key(a: Attribution) -> Option<Seq<char>> {
    match opt_chars(a.project_id) {
        Some(pid) => Some(spec_session_key(pid, opt_chars(a.branch))),
        None => None,
    }
}

/// The view of a candidate: key, attribution and window.
pub open spec fn candidate_view(c: Candidate) -> (Seq<char>, Attribution, ActiveWindowInfo) {
    (c.key@, c.attribution, c.window)
}

/// The keys of some candidates.
pub open spec fn candidate_keys(cs: Seq<(Seq<char>, Attribution, ActiveWindowInfo)>) -> Seq<Seq<char>> {
    cs.map_values(|c: (Seq<char>, Attribution, ActiveWindowInfo)| c.0)
}

/// The pairs on screen, from the attributed windows in order (the focused
/// one first): windows without a project are skipped, a pair already taken
/// by an earlier window is not taken again, and snoozed pairs are left out.
pub open spec fn collect_spec(
    items: Seq<(Attribution, ActiveWindowInfo)>,
    snoozed: Seq<Seq<char>>,
) -> Seq<(Seq<char>, Attribution, ActiveWindowInfo)>
    decreases items.len(),
{
    if items.len() == 0 {
        Seq::empty()
    } else {
        let prev = collect_spec(items.drop_last(), snoozed);
        let it = items.last();
        match attribution_key(it.0) {
            Some(k) => if snoozed.contains(k) || candidate_keys(prev).contains(k) {
                prev
            } else {
                prev.push((k, it.0, it.1))
            },
            None => prev,
        }
    }
}

/// A copy of an attribution.
pub fn clone_attribution(a: &Attribution) -> (r: Attribution)
    ensures
        r == *a,
{
    Attribution {
        project_id: crate::session_store::clone_opt(&a.project_id),
        project_name: crate::session_store::clone_opt(&a.project_name),
        jira_key: crate::session_store::clone_opt(&a.jira_key),
        branch: crate::session_store::clone_opt(&a.branch),
        confidence: a.confidence,
    }
}

/// The (project, branch) pairs on screen: from the attributed windows in
/// order, the focused one first.
pub fn collect_candidates(items: &[(Attribution, ActiveWindowInfo)], snoozed: &[String]) -> (cs: Vec<Candidate>)
    ensures
        cs@.map_values(|c: Candidate| candidate_view(c)) == collect_spec(items@, snoozed@.map_values(|s: String| s@)),
{
    let ghost sz = snoozed@.map_values(|s: String| s@);
    let mut cs: Vec<Candidate> = Vec::new();
    let mut keys: Vec<String> = Vec::new();
    let mut i: usize = 0;
    while i < items.len()
        invariant
            i <= items@.len(),
            sz == snoozed@.map_values(|s: String| s@),
            cs@.map_values(|c: Candidate| candidate_view(c)) == collect_spec(items@.take(i as int), sz),
            keys@.map_values(|s: String| s@) == candidate_keys(collect_spec(items@.take(i as int), sz)),
        decreases items@.len() - i,
    {
        let ghost prev = collect_spec(items@.take(i as int), sz);
        assert(items@.take(i + 1).drop_last() =~= items@.take(i as int));
        assert(items@.take(i + 1).last() == items@[i as int]);
        let (a, w) = &items[i];
        match &a.project_id {
            Some(pid) => {
                let branch: Option<&str> = match &a.branch {
                    Some(b) => Some(b.as_str()),
                    None => None,
                };
                let key = session_key(pid.as_str(), branch);
                assert(attribution_key(*a) == Some(key@));
                if !contains_key(snoozed, key.as_str()) && !contains_key(keys.as_slice(), key.as_str()) {
                    let ghost cs_before = cs@;
                    let ghost keys_before = keys@;
                    keys.push(key.clone());
                    cs.push(Candidate { key, attribution: clone_attribution(a), window: crate::activity_monitor::clone_window(w) });
                    assert(cs@.map_values(|c: Candidate| candidate_view(c)) =~= cs_before.map_values(
                        |c: Candidate| candidate_view(c),
                    ).push((key@, *a, *w)));
                    assert(keys@.map_values(|s: String| s@) =~= keys_before.map_values(|s: String| s@).push(key@));
                    assert(candidate_keys(prev.push((key@, *a, *w))) =~= candidate_keys(prev).push(key@));
                }
            },
            None => {},
        }
        i = i + 1;
    }
    assert(items@.take(items@.len() as int) =~= items@);
    cs
}

/// The pairs collected are distinct and none of them is snoozed.
pub proof fn lemma_candidates_distinct_not_snoozed(items: Seq<(Attribution, ActiveWindowInfo)>, snoozed: Seq<Seq<char>>)
    ensures
        forall|i: int, j: int|
            0 <= i < j < collect_spec(items, snoozed).len() ==> (#[trigger] collect_spec(items, snoozed)[i]).0
                != (#[trigger] collect_spec(items, snoozed)[j]).0,
        forall|i: int|
            0 <= i < collect_spec(items, snoozed).len() ==> !snoozed.contains(
                (#[trigger] collect_spec(items, snoozed)[i]).0,
            ),
    decreases items.len(),
{
    if items.len() > 0 {
        lemma_candidates_distinct_not_snoozed(items.drop_last(), snoozed);
        let prev = collect_spec(items.drop_last(), snoozed);
        let it = items.last();
        match attribution_key(it.0) {
            Some(k) => {
                if !(snoozed.contains(k) || candidate_keys(prev).contains(k)) {
                    let next = prev.push((k, it.0, it.1));
                    assert forall|i: int, j: int| 0 <= i < j < next.len() implies (#[trigger] next[i]).0 != (
                    #[trigger] next[j]).0 by {
                        if j == next.len() - 1 {
                            assert(candidate_keys(prev)[i] == prev[i].0);
                        }
                    }
                }
            },
            None => {},
        }
    }
}

/// How long a pair stopped by hand stays snoozed, in nanoseconds (5 minutes).
pub const SNOOZE_NANOS: i64 = 300_000_000_000;

/// A snooze taken at `since` is still on at `now`: less than 5 minutes have
/// passed (a clock that went back counts as no time).
pub open spec fn snooze_on(since: Instant, now: Instant) -> bool {
    nanos_between(since, now) < SNOOZE_NANOS
}

/// The (project, branch) pairs the user stopped by hand, with when.
pub struct SnoozeList {
    entries: Vec<(String, Instant)>,
}

/// The view of a snooze entry.
pub open spec fn snooze_view(e: (String, Instant)) -> (Seq<char>, Instant) {
    (e.0@, e.1)
}

/// The snoozes that are still on at `now`, in order.
pub open spec fn still_on(s: Seq<(Seq<char>, Instant)>, now: Instant) -> Seq<(Seq<char>, Instant)>
    decreases s.len(),
{
    if s.len() == 0 {
        s
    } else {
        let prev = still_on(s.drop_last(), now);
        if snooze_on(s.last().1, now) {
            prev.push(s.last())
        } else {
            prev
        }
    }
}

/// The snoozes without the one for `key`, in order.
pub open spec fn unsnoozed(s: Seq<(Seq<char>, Instant)>, key: Seq<char>) -> Seq<(Seq<char>, Instant)>
    decreases s.len(),
{
    if s.len() == 0 {
        s
    } else {
        let prev = unsnoozed(s.drop_last(), key);
        if s.last().0 != key {
            prev.push(s.last())
        } else {
            prev
        }
    }
}

/// The keys of some snoozes.
pub open spec fn snoozed_keys_of(s: Seq<(Seq<char>, Instant)>) -> Seq<Seq<char>> {
    s.map_values(|e: (Seq<char>, Instant)| e.0)
}

proof fn lemma_unsnoozed_drops_key(s: Seq<(Seq<char>, Instant)>, key: Seq<char>)
    ensures
        !snoozed_keys_of(unsnoozed(s, key)).contains(key),
        forall|k: Seq<char>| k != key && snoozed_keys_of(s).contains(k) ==> snoozed_keys_of(unsnoozed(s, key)).contains(k),
    decreases s.len(),
{
    if s.len() > 0 {
        let t = s.drop_last();
        lemma_unsnoozed_drops_key(t, key);
        let prev = unsnoozed(t, key);
        assert forall|k: Seq<char>| k != key && snoozed_keys_of(s).contains(k) implies snoozed_keys_of(unsnoozed(s, key)).contains(k) by {
            let j = choose|j: int| 0 <= j < snoozed_keys_of(s).len() && snoozed_keys_of(s)[j] == k;
            if j < t.len() {
                assert(snoozed_keys_of(t)[j] == k);
                assert(snoozed_keys_of(t).contains(k));
                assert(snoozed_keys_of(prev).contains(k));
                let m = choose|m: int| 0 <= m < snoozed_keys_of(prev).len() && snoozed_keys_of(prev)[m] == k;
                if s.last().0 != key {
                    assert(snoozed_keys_of(prev.push(s.last()))[m] == k);
                } else {
                    assert(unsnoozed(s, key) == prev);
                }
            } else {
                assert(s.last().0 == k);
                let next = prev.push(s.last());
                assert(snoozed_keys_of(next)[next.len() - 1] == k);
            }
        }
        if s.last().0 != key {
            let next = prev.push(s.last());
            assert(snoozed_keys_of(next) =~= snoozed_keys_of(prev).push(s.last().0));
        }
    }
}

/// Each key occurs at most once among the snoozes.
pub open spec fn snooze_keys_distinct(s: Seq<(Seq<char>, Instant)>) -> bool {
    forall|i: int, j: int| 0 <= i < j < s.len() ==> s[i].0 != s[j].0
}

proof fn lemma_unsnoozed_sub(s: Seq<(Seq<char>, Instant)>, key: Seq<char>)
    ensures
        forall|k: int| 0 <= k < unsnoozed(s, key).len() ==> s.contains(#[trigger] unsnoozed(s, key)[k]),
        snooze_keys_distinct(s) ==> snooze_keys_distinct(unsnoozed(s, key)),
    decreases s.len(),
{
    if s.len() > 0 {
        let t = s.drop_last();
        lemma_unsnoozed_sub(t, key);
        let prev = unsnoozed(t, key);
        assert forall|k: int| 0 <= k < prev.len() implies s.contains(#[trigger] prev[k]) by {
            let j = choose|j: int| 0 <= j < t.len() && t[j] == prev[k];
            assert(s[j] == prev[k]);
        }
        if s.last().0 != key {
            let next = prev.push(s.last());
            assert forall|k: int| 0 <= k < next.len() implies s.contains(#[trigger] next[k]) by {
                if k == next.len() - 1 {
                    assert(s[s.len() - 1] == next[k]);
                } else {
                    assert(next[k] == prev[k]);
                }
            }
            if snooze_keys_distinct(s) {
                assert(snooze_keys_distinct(t));
                assert forall|i: int, j: int| 0 <= i < j < next.len() implies next[i].0 != next[j].0 by {
                    if j == next.len() - 1 {
                        assert(next[i] == prev[i]);
                        let a = choose|a: int| 0 <= a < t.len() && t[a] == prev[i];
                        assert(s[a] == next[i]);
                        assert(s[s.len() - 1] == next[j]);
                    } else {
                        assert(next[i] == prev[i] && next[j] == prev[j]);
                    }
                }
            }
        } else {
            if snooze_keys_distinct(s) {
                assert(snooze_keys_distinct(t));
            }
        }
    }
}

proof fn lemma_still_on_sub(s: Seq<(Seq<char>, Instant)>, now: Instant)
    ensures
        forall|k: int| 0 <= k < still_on(s, now).len() ==> s.contains(#[trigger] still_on(s, now)[k]),
        snooze_keys_distinct(s) ==> snooze_keys_distinct(still_on(s, now)),
    decreases s.len(),
{
    if s.len() > 0 {
        let t = s.drop_last();
        lemma_still_on_sub(t, now);
        let prev = still_on(t, now);
        assert forall|k: int| 0 <= k < prev.len() implies s.contains(#[trigger] prev[k]) by {
            let j = choose|j: int| 0 <= j < t.len() && t[j] == prev[k];
            assert(s[j] == prev[k]);
        }
        if snooze_on(s.last().1, now) {
            let next = prev.push(s.last());
            assert forall|k: int| 0 <= k < next.len() implies s.contains(#[trigger] next[k]) by {
                if k == next.len() - 1 {
                    assert(s[s.len() - 1] == next[k]);
                } else {
                    assert(next[k] == prev[k]);
                }
            }
            if snooze_keys_distinct(s) {
                assert(snooze_keys_distinct(t));
                assert forall|i: int, j: int| 0 <= i < j < next.len() implies next[i].0 != next[j].0 by {
                    if j == next.len() - 1 {
                        assert(next[i] == prev[i]);
                        let a = choose|a: int| 0 <= a < t.len() && t[a] == prev[i];
                        assert(s[a] == next[i]);
                        assert(s[s.len() - 1] == next[j]);
                    } else {
                        assert(next[i] == prev[i] && next[j] == prev[j]);
                    }
                }
            }
        } else {
            if snooze_keys_distinct(s) {
                assert(snooze_keys_distinct(t));
            }
        }
    }
}

impl SnoozeList {
    #[verifier::type_invariant]
    closed spec fn keys_once(self) -> bool {
        snooze_keys_distinct(self.entries@.map_values(|e: (String, Instant)| snooze_view(e)))
    }

    /// The snoozes: key and when, in the order they were taken.
    pub closed spec fn entries(&self) -> Seq<(Seq<char>, Instant)> {
        self.entries@.map_values(|e: (String, Instant)| snooze_view(e))
    }

    /// No pair snoozed.
    pub fn new() -> (l: Self)
        ensures
            l.entries().len() == 0,
            snooze_keys_distinct(l.entries()),
    {
        SnoozeList { entries: Vec::new() }
    }

    fn remove_key(entries: &Vec<(String, Instant)>, key: &str) -> (r: Vec<(String, Instant)>)
        ensures
            r@.map_values(|e: (String, Instant)| snooze_view(e)) == unsnoozed(
                entries@.map_values(|e: (String, Instant)| snooze_view(e)),
                key@,
            ),
    {
        let ghost all = entries@.map_values(|e: (String, Instant)| snooze_view(e));
        let mut r: Vec<(String, Instant)> = Vec::new();
        let mut i: usize = 0;
        while i < entries.len()
            invariant
                i <= entries@.len(),
                all == entries@.map_values(|e: (String, Instant)| snooze_view(e)),
                r@.map_values(|e: (String, Instant)| snooze_view(e)) == unsnoozed(all.take(i as int), key@),
            decreases entries@.len() - i,
        {
            assert(all.take(i + 1).drop_last() =~= all.take(i as int));
            assert(all.take(i + 1).last() == all[i as int]);
            let ghost before = r@;
            if !same_text(entries[i].0.as_str(), key) {
                r.push((entries[i].0.clone(), entries[i].1));
                assert(r@.map_values(|e: (String, Instant)| snooze_view(e)) =~= before.map_values(
                    |e: (String, Instant)| snooze_view(e),
                ).push(all[i as int]));
            }
            i = i + 1;
        }
        assert(all.take(entries@.len() as int) =~= all);
        r
    }

    /// Snoozes `key` from `now` (replacing an earlier snooze of it).
    pub fn snooze(&mut self, key: &str, now: Instant)
        ensures
            final(self).entries() == unsnoozed(old(self).entries(), key@).push((key@, now)),
            snooze_keys_distinct(final(self).entries()),
    {
        proof {
            use_type_invariant(&*self);
            lemma_unsnoozed_sub(self.entries(), key@);
            lemma_unsnoozed_drops_key(self.entries(), key@);
        }
        let mut r = Self::remove_key(&self.entries, key);
        let ghost before = r@;
        r.push((String::from_str(key), now));
        assert(r@.map_values(|e: (String, Instant)| snooze_view(e)) =~= before.map_values(
            |e: (String, Instant)| snooze_view(e),
        ).push((key@, now)));
        proof {
            let u = unsnoozed(old(self).entries(), key@);
            let n = u.push((key@, now));
            assert forall|i: int, j: int| 0 <= i < j < n.len() implies n[i].0 != n[j].0 by {
                if j == n.len() - 1 {
                    assert(snoozed_keys_of(u)[i] == u[i].0);
                }
            }
        }
        self.entries = r;
    }

    /// Lifts the snooze of `key`, if any.
    pub fn unsnooze(&mut self, key: &str)
        ensures
            final(self).entries() == unsnoozed(old(self).entries(), key@),
            !snoozed_keys_of(final(self).entries()).contains(key@),
            snooze_keys_distinct(final(self).entries()),
    {
        proof {
            use_type_invariant(&*self);
            lemma_unsnoozed_sub(self.entries(), key@);
            lemma_unsnoozed_drops_key(self.entries(), key@);
        }
        self.entries = Self::remove_key(&self.entries, key);
    }

    /// Drops the snoozes taken 5 minutes or more before `now`.
    pub fn expire(&mut self, now: Instant)
        ensures
            final(self).entries() == still_on(old(self).entries(), now),
            snooze_keys_distinct(final(self).entries()),
    {
        proof {
            use_type_invariant(&*self);
            lemma_still_on_sub(self.entries(), now);
        }
        let ghost all = self.entries();
        let mut r: Vec<(String, Instant)> = Vec::new();
        let mut i: usize = 0;
        while i < self.entries.len()
            invariant
                i <= self.entries@.len(),
                all == self.entries@.map_values(|e: (String, Instant)| snooze_view(e)),
                r@.map_values(|e: (String, Instant)| snooze_view(e)) == still_on(all.take(i as int), now),
            decreases self.entries@.len() - i,
        {
            assert(all.take(i + 1).drop_last() =~= all.take(i as int));
            assert(all.take(i + 1).last() == all[i as int]);
            let ghost before = r@;
            let since = self.entries[i].1;
            assert(since == all[i as int].1);
            let d: i128 = (now.secs as i128 - since.secs as i128) * 1_000_000_000i128 + (now.nanos as i128
                - since.nanos as i128);
            if d < SNOOZE_NANOS as i128 {
                r.push((self.entries[i].0.clone(), since));
                assert(r@.map_values(|e: (String, Instant)| snooze_view(e)) =~= before.map_values(
                    |e: (String, Instant)| snooze_view(e),
                ).push(all[i as int]));
            }
            i = i + 1;
        }
        assert(all.take(self.entries@.len() as int) =~= all);
        self.entries = r;
    }

    /// The snoozed keys, in order.
    pub fn keys(&self) -> (ks: Vec<String>)
        ensures
            ks@.map_values(|s: String| s@) == snoozed_keys_of(self.entries()),
    {
        let mut ks: Vec<String> = Vec::new();
        let mut i: usize = 0;
        while i < self.entries.len()
            invariant
                i <= self.entries@.len(),
                ks@.map_values(|s: String| s@) == snoozed_keys_of(self.entries()).take(i as int),
            decreases self.entries@.len() - i,
        {
            let ghost before = ks@;
            ks.push(self.entries[i].0.clone());
            assert(ks@.map_values(|s: String| s@) =~= before.map_values(|s: String| s@).push(self.entries@[i as int].0@));
            assert(snoozed_keys_of(self.entries()).take(i + 1) =~= snoozed_keys_of(self.entries()).take(i as int).push(
                self.entries@[i as int].0@,
            ));
            i = i + 1;
        }
        assert(snoozed_keys_of(self.entries()).take(self.entries@.len() as int) =~= snoozed_keys_of(self.entries()));
        ks
    }
}

/// After `snooze(key)` the pair is snoozed; after `unsnooze(key)` it is not.
pub proof fn lemma_snooze_then_unsnooze(s: Seq<(Seq<char>, Instant)>, key: Seq<char>, now: Instant)
    ensures
        snoozed_keys_of(unsnoozed(s, key).push((key, now))).contains(key),
        !snoozed_keys_of(unsnoozed(unsnoozed(s, key).push((key, now)), key)).contains(key),
{
    let t = unsnoozed(s, key).push((key, now));
    assert(snoozed_keys_of(t)[t.len() - 1] == key);
    lemma_unsnoozed_drops_key(t, key);
}

/// The session to create for a pair that came on screen: its project, Jira
/// key and branch, the window's title and process, started at `timestamp`,
/// open, not idle, not a huddle, not manual.
pub fn new_session_input(c: &Candidate, timestamp: &str) -> (input: CreateSessionInput)
    ensures
        input.project_id == c.attribution.project_id,
        input.start_time@ == timestamp@,
        input.end_time is None,
        input.duration_secs == 0,
        input.jira_key == c.attribution.jira_key,
        input.branch == c.attribution.branch,
        input.window_title == Some(c.window.window_title),
        input.process_name == Some(c.window.process_name),
        !input.is_idle,
        !input.is_huddle,
        input.huddle_channel is None,
        !input.is_manual,
{
    CreateSessionInput {
        project_id: clone_opt(&c.attribution.project_id),
        start_time: String::from_str(timestamp),
        end_time: None,
        duration_secs: 0,
        jira_key: clone_opt(&c.attribution.jira_key),
        branch: clone_opt(&c.attribution.branch),
        window_title: Some(c.window.window_title.clone()),
        process_name: Some(c.window.process_name.clone()),
        is_idle: false,
        is_huddle: false,
        huddle_channel: None,
        is_manual: false,
    }
}

/// The project to look for a leftover open session of, before a new session
/// is opened for a pair: its project when auto-merge is on, none otherwise.
pub fn resumable_project(c: &Candidate, auto_merge_enabled: bool) -> (p: Option<String>)
    ensures
        p == (if auto_merge_enabled { c.attribution.project_id } else { None }),
{
    if auto_merge_enabled {
        clone_opt(&c.attribution.project_id)
    } else {
        None
    }
}

/// A session is taken up again only after a short break: under this many
/// seconds (1 hour) between its last recorded moment and now.
pub const RESUME_GAP_SECS: i64 = 3600;

/// The break from a session's last recorded moment (its start plus its
/// stored duration) to `now` is under an hour (a clock that went back counts
/// as no break).
pub open spec fn short_break(start: Instant, duration_secs: int, now: Instant) -> bool {
    nanos_between(start, now) - duration_secs * 1_000_000_000 < RESUME_GAP_SECS * 1_000_000_000
}

/// An open session left by an earlier run is taken up again only on the
/// same branch.  It counts from its own start, and only after a break of
/// under an hour (a short restart or a wake from sleep); a session whose
/// start cannot be read is taken up counting from `now`.
pub open spec fn spec_resumed(existing: Option<&Session>, branch: Option<Seq<char>>, now: Instant) -> Option<(Seq<char>, Instant)> {
    match existing {
        Some(s) => if opt_chars(s.branch) == branch {
            match spec_instant_of(s.start_time@) {
                Some(t) => if short_break(t, s.duration_secs as int, now) {
                    Some((s.id@, t))
                } else {
                    None
                },
                None => Some((s.id@, now)),
            }
        } else {
            None
        },
        None => None,
    }
}

/// Decides whether an open session left by an earlier run is taken up again
/// for a pair on `branch`, and from when.
pub fn resumed_session(existing: Option<&Session>, branch: &Option<String>, now: Instant) -> (r: Option<(String, Instant)>)
    requires
        now.in_range(),
    ensures
        match r {
            Some((id, start)) => spec_resumed(existing, opt_chars(*branch), now) == Some((id@, start))
                && start.in_range(),
            None => spec_resumed(existing, opt_chars(*branch), now) is None,
        },
{
    match existing {
        Some(s) => {
            if !opt_eq(&s.branch, branch) {
                return None;
            }
            let start = match parse_rfc3339(s.start_time.as_str()) {
                Some(t) => t,
                None => return Some((s.id.clone(), now)),
            };
            let since_start: i128 = (now.secs as i128 - start.secs as i128) * 1_000_000_000i128
                + (now.nanos as i128 - start.nanos as i128);
            let recorded: i128 = s.duration_secs as i128 * 1_000_000_000i128;
            let limit: i128 = RESUME_GAP_SECS as i128 * 1_000_000_000i128;
            if since_start - recorded < limit {
                Some((s.id.clone(), start))
            } else {
                None
            }
        },
        None => None,
    }
}

} // verus!
