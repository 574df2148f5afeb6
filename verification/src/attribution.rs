//! Deciding which project and Jira issue a window belongs to, and merging
//! adjacent sessions for review.
use vstd::prelude::*;
use crate::session_store::{Session, SessionView, opt_chars, clone_opt, opt_eq};
use crate::time::{Instant, parse_rfc3339, whole_seconds_between, spec_instant_of, seconds_between};
use crate::git_probe::{GitInfo, GitOutput, JiraKeyPattern, probe, probe_outcome};
use crate::project_registry::Project;
use crate::platform::types::ActiveWindowInfo;
use crate::choice::{last_max_index, pick_last_max, weights_view, is_last_max};
use crate::text::{
    chars_of, to_lowercase, lowercase, forward_slashes, forward_slashes_exec, string_from_chars,
    starts_with_chars, starts_with_seq, contains_chars, contains_seq, byte_len, str_byte_len,
    path_file_name, path_file_name_bounds,
};

verus! {

/// A decision about which project and Jira key a window is attributed to.
#[derive(Debug, Clone)]
pub struct Attribution {
    pub project_id: Option<String>,
    pub project_name: Option<String>,
    pub jira_key: Option<String>,
    pub branch: Option<String>,
    pub confidence: Confidence,
}

/// How sure an attribution is.
#[derive(Debug, Clone, Copy, PartialEq, Eq, Structural)]
pub enum Confidence {
    /// Matched by git branch Jira key
    High,
    /// Matched by project path only (no Jira key on branch)
    Medium,
    /// No match
    Low,
}

impl Default for Confidence {
    fn default() -> (c: Self)
        ensures
            c == Confidence::Low,
    {
        Confidence::Low
    }
}

/// Attributes windows to projects, finding Jira keys in branch names with
/// its patterns.
pub struct AttributionEngine {
    jira_patterns: Vec<JiraKeyPattern>,
}

/// A path as compared against executable paths: forward slashes, lower case.
pub open spec fn normalized_path(p: Seq<char>) -> Seq<char> {
    lowercase(forward_slashes(p))
}

fn normalize_path(p: &str) -> (r: Vec<char>)
    ensures
        r@ == normalized_path(p@),
{
    let cs = chars_of(p);
    let fs = forward_slashes_exec(cs.as_slice());
    let st = string_from_chars(fs.as_slice(), 0, fs.len());
    assert(fs@.subrange(0, fs@.len() as int) =~= fs@);
    let low = to_lowercase(st.as_str());
    chars_of(low.as_str())
}

/// The weight of each project for an executable path: the byte length of its
/// folder when the normalized executable path begins with the normalized
/// folder.
pub open spec fn exe_weights(exe_path: Seq<char>, projects: Seq<Project>) -> Seq<Option<int>> {
    Seq::new(
        projects.len(),
        |i: int|
            if starts_with_seq(normalized_path(exe_path), normalized_path(projects[i].path@)) {
                Some(byte_len(projects[i].path@))
            } else {
                None
            },
    )
}

/// The project whose folder holds the executable: the longest such folder
/// (the last of equals), comparing case-insensitively with either slash.
fn best_project_match<'a>(exe_path: &str, projects: &'a [Project]) -> (r: Option<&'a Project>)
    ensures
        r == match pick_last_max(exe_weights(exe_path@, projects@)) {
            Some(i) => Some(&projects@[i]),
            None => None,
        },
{
    let norm_exe = normalize_path(exe_path);
    let ghost target = exe_weights(exe_path@, projects@);
    let mut weights: Vec<Option<usize>> = Vec::new();
    let mut i: usize = 0;
    while i < projects.len()
        invariant
            i <= projects@.len(),
            target == exe_weights(exe_path@, projects@),
            norm_exe@ == normalized_path(exe_path@),
            weights_view(weights@) =~= target.take(i as int),
        decreases projects@.len() - i,
    {
        let norm_proj = normalize_path(projects[i].path.as_str());
        let ghost before = weights@;
        if starts_with_chars(norm_exe.as_slice(), norm_proj.as_slice()) {
            weights.push(Some(str_byte_len(projects[i].path.as_str())));
        } else {
            weights.push(None);
        }
        assert(weights@ == before.push(weights@.last()));
        assert(weights_view(weights@) =~= weights_view(before).push(target[i as int]));
        assert(target.take(i + 1) =~= target.take(i as int).push(target[i as int]));
        i = i + 1;
    }
    assert(target.take(projects@.len() as int) =~= target);
    match last_max_index(weights.as_slice()) {
        Some(k) => Some(&projects[k]),
        None => None,
    }
}

/// The lower-cased title contains the lower-cased name of project `i`.
pub open spec fn title_names_project(title: Seq<char>, projects: Seq<Project>, i: int) -> bool {
    contains_seq(lowercase(title), lowercase(projects[i].name@))
}

/// The first project whose name the title contains, ignoring case.
pub open spec fn first_title_match(title: Seq<char>, projects: Seq<Project>) -> Option<int> {
    if exists|i: int| 0 <= i < projects.len() && title_names_project(title, projects, i) {
        Some(
            choose|i: int|
                0 <= i < projects.len() && title_names_project(title, projects, i) && forall|j: int|
                    0 <= j < i ==> !title_names_project(title, projects, j),
        )
    } else {
        None
    }
}

fn find_project_by_title<'a>(title: &str, projects: &'a [Project]) -> (r: Option<&'a Project>)
    ensures
        r == match first_title_match(title@, projects@) {
            Some(i) => Some(&projects@[i]),
            None => None,
        },
{
    let lower_title = to_lowercase(title);
    let lt = chars_of(lower_title.as_str());
    let mut i: usize = 0;
    while i < projects.len()
        invariant
            i <= projects@.len(),
            lt@ == lowercase(title@),
            forall|j: int| 0 <= j < i ==> !title_names_project(title@, projects@, j),
        decreases projects@.len() - i,
    {
        let lname = to_lowercase(projects[i].name.as_str());
        let ln = chars_of(lname.as_str());
        if contains_chars(lt.as_slice(), ln.as_slice()) {
            proof {
                let c = choose|k: int|
                    0 <= k < projects@.len() && title_names_project(title@, projects@, k) && forall|j: int|
                        0 <= j < k ==> !title_names_project(title@, projects@, j);
                assert(title_names_project(title@, projects@, i as int));
                if c < i {
                } else if c > i {
                    assert(!title_names_project(title@, projects@, i as int));
                }
            }
            return Some(&projects[i]);
        }
        i = i + 1;
    }
    None
}

/// The weight of each project for a window title: the byte length of its
/// lower-cased folder name when that is at least 3 and the lower-cased title
/// contains it.
pub open spec fn folder_weights(title: Seq<char>, projects: Seq<Project>) -> Seq<Option<int>> {
    Seq::new(
        projects.len(),
        |i: int|
            match path_file_name(projects[i].path@) {
                Some(folder) => if byte_len(lowercase(folder)) >= 3 && contains_seq(
                    lowercase(title),
                    lowercase(folder),
                ) {
                    Some(byte_len(lowercase(folder)))
                } else {
                    None
                },
                None => None,
            },
    )
}

/// Matches the window title against the last folder-name segment of each
/// registered project path, e.g. project path `D:/code/myapp` gives folder
/// `myapp`, which "file.ts - myapp - Visual Studio Code" contains.  The
/// longest folder name wins (the last of equals).
fn find_project_by_folder_name<'a>(title: &str, projects: &'a [Project]) -> (r: Option<&'a Project>)
    ensures
        r == match pick_last_max(folder_weights(title@, projects@)) {
            Some(i) => Some(&projects@[i]),
            None => None,
        },
{
    let lower_title = to_lowercase(title);
    let lt = chars_of(lower_title.as_str());
    let ghost target = folder_weights(title@, projects@);
    let mut weights: Vec<Option<usize>> = Vec::new();
    let mut i: usize = 0;
    while i < projects.len()
        invariant
            i <= projects@.len(),
            target == folder_weights(title@, projects@),
            lt@ == lowercase(title@),
            weights_view(weights@) =~= target.take(i as int),
        decreases projects@.len() - i,
    {
        let pc = chars_of(projects[i].path.as_str());
        let ghost before = weights@;
        match path_file_name_bounds(pc.as_slice()) {
            Some((from, to)) => {
                let folder = string_from_chars(pc.as_slice(), from, to);
                let lf = to_lowercase(folder.as_str());
                let len = str_byte_len(lf.as_str());
                let lfc = chars_of(lf.as_str());
                if len >= 3 && contains_chars(lt.as_slice(), lfc.as_slice()) {
                    weights.push(Some(len));
                } else {
                    weights.push(None);
                }
            },
            None => {
                weights.push(None);
            },
        }
        assert(weights@ == before.push(weights@.last()));
        assert(weights_view(weights@) =~= weights_view(before).push(target[i as int]));
        assert(target.take(i + 1) =~= target.take(i as int).push(target[i as int]));
        i = i + 1;
    }
    assert(target.take(projects@.len() as int) =~= target);
    match last_max_index(weights.as_slice()) {
        Some(k) => Some(&projects[k]),
        None => None,
    }
}

/// The project a window is attributed to: the one whose folder holds its
/// executable; failing that, the first whose name its title contains;
/// failing that, the one whose folder name its title contains.
pub open spec fn matched_project(window: ActiveWindowInfo, projects: Seq<Project>) -> Option<int> {
    let by_exe = match window.exe_path {
        Some(exe) => pick_last_max(exe_weights(exe@, projects)),
        None => None,
    };
    if by_exe is Some {
        by_exe
    } else if first_title_match(window.window_title@, projects) is Some {
        first_title_match(window.window_title@, projects)
    } else {
        pick_last_max(folder_weights(window.window_title@, projects))
    }
}

/// The confidence of an attribution: high with a project and a Jira key,
/// medium with a project only, low without a project.
pub open spec fn confidence_for(has_project: bool, has_key: bool) -> Confidence {
    if has_project && has_key {
        Confidence::High
    } else if has_project {
        Confidence::Medium
    } else {
        Confidence::Low
    }
}

impl AttributionEngine {
    pub fn new(jira_patterns: Vec<JiraKeyPattern>) -> (e: Self)
        ensures
            e.jira_patterns() == jira_patterns@,
    {
        Self { jira_patterns }
    }

    /// The patterns the engine finds Jira keys with.
    pub closed spec fn jira_patterns(&self) -> Seq<JiraKeyPattern> {
        self.jira_patterns@
    }

    /// Attributes a window event to a project and Jira issue; `projects`
    /// should be all registered projects.  The matched project's folder is
    /// probed with git, run through `run_git`.
    pub fn attribute<F: Fn(Vec<String>) -> Option<GitOutput>>(
        &self,
        window: &ActiveWindowInfo,
        projects: &[Project],
        run_git: &F,
    ) -> (a: Attribution)
        requires
            forall|v: Vec<String>| call_requires(*run_git, (v,)),
        ensures
            match matched_project(*window, projects@) {
                None => {
                    &&& a.project_id is None
                    &&& a.project_name is None
                    &&& a.jira_key is None
                    &&& a.branch is None
                    &&& a.confidence == Confidence::Low
                },
                Some(i) => {
                    &&& opt_chars(a.project_id) == Some(projects@[i].id@)
                    &&& opt_chars(a.project_name) == Some(projects@[i].name@)
                    &&& exists|g: GitInfo|
                        {
                            &&& probe_outcome(*run_git, projects@[i].path@, self.jira_patterns(), g)
                            &&& opt_chars(a.jira_key) == opt_chars(g.jira_key)
                            &&& opt_chars(a.branch) == opt_chars(g.branch)
                        }
                    &&& a.confidence == confidence_for(true, a.jira_key is Some)
                },
            },
    {
        let by_exe = match &window.exe_path {
            Some(exe) => best_project_match(exe.as_str(), projects),
            None => None,
        };
        let matching = match by_exe {
            Some(p) => Some(p),
            None => match find_project_by_title(window.window_title.as_str(), projects) {
                Some(p) => Some(p),
                None => find_project_by_folder_name(window.window_title.as_str(), projects),
            },
        };
        match matching {
            Some(proj) => {
                let git_info = probe(proj.path.as_str(), self.jira_patterns.as_slice(), run_git);
                let confidence = match &git_info.jira_key {
                    Some(_) => Confidence::High,
                    None => Confidence::Medium,
                };
                let a = Attribution {
                    project_id: Some(proj.id.clone()),
                    project_name: Some(proj.name.clone()),
                    jira_key: clone_opt(&git_info.jira_key),
                    branch: clone_opt(&git_info.branch),
                    confidence,
                };
                proof {
                    let i = matched_project(*window, projects@)->0;
                    assert(matched_project(*window, projects@) is Some);
                    assert(*proj == projects@[i]);
                    assert(opt_chars(a.jira_key) == opt_chars(git_info.jira_key));
                    assert(probe_outcome(*run_git, projects@[i].path@, self.jira_patterns(), git_info));
                }
                a
            },
            None => Attribution {
                project_id: None,
                project_name: None,
                jira_key: None,
                branch: None,
                confidence: Confidence::Low,
            },
        }
    }
}

/// Sessions separated by at most this many seconds count as adjacent.
pub const MERGE_GAP_SECS: i64 = 300;

/// Several adjacent sessions shown as one.
#[derive(Debug, Clone)]
pub struct MergedSession {
    pub session_ids: Vec<String>,
    pub project_id: Option<String>,
    pub start_time: String,
    pub end_time: Option<String>,
    pub duration_secs: i64,
    pub jira_key: Option<String>,
    pub branch: Option<String>,
    pub is_published: bool,
    pub notes: Option<String>,
    pub is_huddle: bool,
    pub huddle_channel: Option<String>,
    pub is_manual: bool,
    pub window_title: Option<String>,
}

/// A merged session as plain values.
pub struct MergedView {
    pub session_ids: Seq<Seq<char>>,
    pub project_id: Option<Seq<char>>,
    pub start_time: Seq<char>,
    pub end_time: Option<Seq<char>>,
    pub duration_secs: int,
    pub jira_key: Option<Seq<char>>,
    pub branch: Option<Seq<char>>,
    pub is_published: bool,
    pub notes: Option<Seq<char>>,
    pub is_huddle: bool,
    pub huddle_channel: Option<Seq<char>>,
    pub is_manual: bool,
    pub window_title: Option<Seq<char>>,
}

impl View for MergedSession {
    type V = MergedView;

    open spec fn view(&self) -> MergedView {
        MergedView {
            session_ids: self.session_ids@.map_values(|s: String| s@),
            project_id: opt_chars(self.project_id),
            start_time: self.start_time@,
            end_time: opt_chars(self.end_time),
            duration_secs: self.duration_secs as int,
            jira_key: opt_chars(self.jira_key),
            branch: opt_chars(self.branch),
            is_published: self.is_published,
            notes: opt_chars(self.notes),
            is_huddle: self.is_huddle,
            huddle_channel: opt_chars(self.huddle_channel),
            is_manual: self.is_manual,
            window_title: opt_chars(self.window_title),
        }
    }
}

/// A merged session made of one session.
pub open spec fn merged_of(s: SessionView) -> MergedView {
    MergedView {
        session_ids: seq![s.id],
        project_id: s.project_id,
        start_time: s.start_time,
        end_time: s.end_time,
        duration_secs: s.duration_secs,
        jira_key: s.jira_key,
        branch: s.branch,
        is_published: s.is_published,
        notes: s.notes,
        is_huddle: s.is_huddle,
        huddle_channel: s.huddle_channel,
        is_manual: s.is_manual,
        window_title: s.window_title,
    }
}

/// `start` follows `end` by at least 0 and at most `gap` whole seconds; both
/// must be RFC 3339 date-times.
pub open spec fn spec_is_contiguous(end: Option<Seq<char>>, start: Seq<char>, gap: int) -> bool {
    match end {
        Some(e) => match (spec_instant_of(e), spec_instant_of(start)) {
            (Some(et), Some(st)) => 0 <= seconds_between(et, st) <= gap,
            _ => false,
        },
        None => false,
    }
}

/// `s` extends the merged session `last`: same Jira key and project, it
/// starts within the merge gap after `last` ends, and neither is published
/// or a huddle.
pub open spec fn can_absorb(last: MergedView, s: SessionView) -> bool {
    &&& last.jira_key == s.jira_key
    &&& last.project_id == s.project_id
    &&& spec_is_contiguous(last.end_time, s.start_time, MERGE_GAP_SECS as int)
    &&& !s.is_published
    &&& !last.is_published
    &&& !s.is_huddle
    &&& !last.is_huddle
}

/// `last` extended by `s`: the end time of `s`, the sum of the durations,
/// and the id of `s` appended.
pub open spec fn absorb(last: MergedView, s: SessionView) -> MergedView {
    MergedView {
        end_time: s.end_time,
        duration_secs: last.duration_secs + s.duration_secs,
        session_ids: last.session_ids.push(s.id),
        ..last
    }
}

/// The sessions merged in order: each session either extends the last
/// merged session or starts a new one.
pub open spec fn merge_spec(ss: Seq<SessionView>) -> Seq<MergedView>
    decreases ss.len(),
{
    if ss.len() == 0 {
        Seq::<MergedView>::empty()
    } else {
        let prev = merge_spec(ss.drop_last());
        let s = ss.last();
        if prev.len() > 0 && can_absorb(prev.last(), s) {
            prev.update(prev.len() - 1, absorb(prev.last(), s))
        } else {
            prev.push(merged_of(s))
        }
    }
}

/// Every merging step keeps the summed duration within `i64`.
pub open spec fn merge_fits(ss: Seq<SessionView>) -> bool {
    forall|k: int|
        0 <= k < ss.len() ==> {
            let prev = #[trigger] merge_spec(ss.take(k));
            (prev.len() > 0 && can_absorb(prev.last(), ss[k])) ==> i64::MIN <= prev.last().duration_secs
                + ss[k].duration_secs <= i64::MAX
        }
}

/// The views of a sequence of sessions.
pub open spec fn session_views(ss: Seq<Session>) -> Seq<SessionView> {
    ss.map_values(|s: Session| s@)
}

/// The views of a sequence of merged sessions.
pub open spec fn merged_views(ms: Seq<MergedSession>) -> Seq<MergedView> {
    ms.map_values(|m: MergedSession| m@)
}

/// Whether `start` follows `end` by at least 0 and at most `gap_secs` whole
/// seconds.
pub fn is_contiguous(end: &Option<String>, start: &str, gap_secs: i64) -> (r: bool)
    ensures
        r == spec_is_contiguous(opt_chars(*end), start@, gap_secs as int),
{
    let e = match end {
        Some(e) => e,
        None => return false,
    };
    let et = match parse_rfc3339(e.as_str()) {
        Some(t) => t,
        None => return false,
    };
    let st = match parse_rfc3339(start) {
        Some(t) => t,
        None => return false,
    };
    let gap = whole_seconds_between(et, st);
    gap >= 0 && gap <= gap_secs
}

impl MergedSession {
    /// A merged session made of one session.
    pub fn from_session(s: &Session) -> (m: MergedSession)
        ensures
            m@ == merged_of(s@),
    {
        let mut ids: Vec<String> = Vec::new();
        ids.push(s.id.clone());
        let m = MergedSession {
            session_ids: ids,
            project_id: clone_opt(&s.project_id),
            start_time: s.start_time.clone(),
            end_time: clone_opt(&s.end_time),
            duration_secs: s.duration_secs,
            jira_key: clone_opt(&s.jira_key),
            branch: clone_opt(&s.branch),
            is_published: s.is_published,
            notes: clone_opt(&s.notes),
            is_huddle: s.is_huddle,
            huddle_channel: clone_opt(&s.huddle_channel),
            is_manual: s.is_manual,
            window_title: clone_opt(&s.window_title),
        };
        assert(m@.session_ids =~= seq![s.id@]);
        m
    }
}

/// Merges in order, stopping with `None` at a step whose summed duration
/// would leave `i64`.
fn merge_core(sessions: &[Session]) -> (result: Option<Vec<MergedSession>>)
    ensures
        result is Some <==> merge_fits(session_views(sessions@)),
        result matches Some(v) ==> merged_views(v@) == merge_spec(session_views(sessions@)),
{
    let mut result: Vec<MergedSession> = Vec::new();
    let ghost ss = session_views(sessions@);
    let mut i: usize = 0;
    while i < sessions.len()
        invariant
            i <= sessions@.len(),
            ss == session_views(sessions@),
            merge_fits(ss.take(i as int)),
            merged_views(result@) == merge_spec(ss.take(i as int)),
        decreases sessions@.len() - i,
    {
        let s = &sessions[i];
        let ghost prev = merge_spec(ss.take(i as int));
        assert(ss.take(i + 1).drop_last() =~= ss.take(i as int));
        assert(ss.take(i + 1).last() == s@);
        proof {
            assert forall|k: int| 0 <= k <= i implies #[trigger] ss.take(i + 1).take(k) == ss.take(k) by {
                assert(ss.take(i + 1).take(k) =~= ss.take(k));
            }
            assert forall|k: int| 0 <= k < i implies #[trigger] ss.take(i as int).take(k) == ss.take(k) by {
                assert(ss.take(i as int).take(k) =~= ss.take(k));
            }
        }
        let n = result.len();
        let mut absorbed = false;
        if n > 0 {
            let last = &result[n - 1];
            assert(last@ == prev.last());
            let same_key = opt_eq(&last.jira_key, &s.jira_key);
            let same_project = opt_eq(&last.project_id, &s.project_id);
            let contiguous = is_contiguous(&last.end_time, s.start_time.as_str(), MERGE_GAP_SECS);
            if same_key && same_project && contiguous && !s.is_published && !last.is_published
                && !s.is_huddle && !last.is_huddle {
                assert(can_absorb(prev.last(), s@));
                let total = match last.duration_secs.checked_add(s.duration_secs) {
                    Some(t) => t,
                    None => {
                        proof {
                            let k = i as int;
                            assert(ss.take(k) == ss.take(i as int));
                            assert(!(i64::MIN <= prev.last().duration_secs + ss[k].duration_secs <= i64::MAX));
                            assert(!merge_fits(ss));
                            assert(!merge_fits(session_views(sessions@)));
                        }
                        return None;
                    },
                };
                let mut m = result.pop().unwrap();
                m.end_time = clone_opt(&s.end_time);
                m.duration_secs = total;
                m.session_ids.push(s.id.clone());
                assert(m@.session_ids =~= prev.last().session_ids.push(s.id@));
                result.push(m);
                absorbed = true;
                assert(merged_views(result@) =~= prev.update(prev.len() - 1, absorb(prev.last(), s@)));
            } else {
                assert(!can_absorb(prev.last(), s@));
            }
        }
        if !absorbed {
            let m = MergedSession::from_session(s);
            result.push(m);
            assert(merged_views(result@) =~= prev.push(merged_of(s@)));
        }
        assert(merge_fits(ss.take(i + 1))) by {
            assert forall|k: int| 0 <= k < i + 1 implies {
                let p = #[trigger] merge_spec(ss.take(i + 1).take(k));
                (p.len() > 0 && can_absorb(p.last(), ss.take(i + 1)[k])) ==> i64::MIN <= p.last().duration_secs
                    + ss.take(i + 1)[k].duration_secs <= i64::MAX
            } by {
                assert(ss.take(i + 1).take(k) == ss.take(k));
                if k < i {
                    assert(ss.take(i as int).take(k) == ss.take(k));
                    assert(ss.take(i as int)[k] == ss.take(i + 1)[k]);
                }
            }
        }
        i = i + 1;
    }
    assert(ss.take(sessions@.len() as int) =~= ss);
    Some(result)
}

/// Merges adjacent sessions with the same attribution into one; used before
/// showing a day in the review list.
pub fn merge_adjacent_sessions(sessions: &[Session]) -> (result: Vec<MergedSession>)
    requires
        merge_fits(session_views(sessions@)),
    ensures
        merged_views(result@) == merge_spec(session_views(sessions@)),
{
    merge_core(sessions).unwrap()
}

/// Merges adjacent sessions as `merge_adjacent_sessions` does, or gives
/// `None` where a merged duration would not fit in `i64`.
pub fn try_merge_adjacent_sessions(sessions: &[Session]) -> (result: Option<Vec<MergedSession>>)
    ensures
        result is Some <==> merge_fits(session_views(sessions@)),
        result matches Some(v) ==> merged_views(v@) == merge_spec(session_views(sessions@)),
{
    if merge_core(sessions).is_some() {
        Some(merge_adjacent_sessions(sessions))
    } else {
        None
    }
}

/// The summed duration of some sessions.
pub open spec fn total_session_secs(ss: Seq<SessionView>) -> int
    decreases ss.len(),
{
    if ss.len() == 0 {
        0
    } else {
        total_session_secs(ss.drop_last()) + ss.last().duration_secs
    }
}

/// The summed duration of some merged sessions.
pub open spec fn total_merged_secs(ms: Seq<MergedView>) -> int
    decreases ms.len(),
{
    if ms.len() == 0 {
        0
    } else {
        total_merged_secs(ms.drop_last()) + ms.last().duration_secs
    }
}

/// The ids of some sessions, in order.
pub open spec fn session_ids_of(ss: Seq<SessionView>) -> Seq<Seq<char>>
    decreases ss.len(),
{
    if ss.len() == 0 {
        Seq::<Seq<char>>::empty()
    } else {
        session_ids_of(ss.drop_last()).push(ss.last().id)
    }
}

/// The ids held by some merged sessions, one after the other.
pub open spec fn merged_ids_of(ms: Seq<MergedView>) -> Seq<Seq<char>>
    decreases ms.len(),
{
    if ms.len() == 0 {
        Seq::<Seq<char>>::empty()
    } else {
        merged_ids_of(ms.drop_last()) + ms.last().session_ids
    }
}

/// `next` could not have been absorbed by `prev`: judged on the fields that
/// a merged session keeps from its first session.
pub open spec fn starts_apart(prev: MergedView, next: MergedView) -> bool {
    !{
        &&& prev.jira_key == next.jira_key
        &&& prev.project_id == next.project_id
        &&& spec_is_contiguous(prev.end_time, next.start_time, MERGE_GAP_SECS as int)
        &&& !next.is_published
        &&& !prev.is_published
        &&& !next.is_huddle
        &&& !prev.is_huddle
    }
}

/// Merging keeps the total tracked time: the merged durations add up to the
/// durations of the sessions.
pub proof fn lemma_merge_keeps_total_duration(ss: Seq<SessionView>)
    ensures
        total_merged_secs(merge_spec(ss)) == total_session_secs(ss),
    decreases ss.len(),
{
    if ss.len() > 0 {
        lemma_merge_keeps_total_duration(ss.drop_last());
        let prev = merge_spec(ss.drop_last());
        let s = ss.last();
        if prev.len() > 0 && can_absorb(prev.last(), s) {
            let next = prev.update(prev.len() - 1, absorb(prev.last(), s));
            assert(next.drop_last() =~= prev.drop_last());
        } else {
            assert(prev.push(merged_of(s)).drop_last() =~= prev);
        }
    }
}

/// Merging keeps every session id exactly once and in order: the ids of the
/// merged sessions, one after the other, are the ids of the sessions.
pub proof fn lemma_merge_keeps_ids_in_order(ss: Seq<SessionView>)
    ensures
        merged_ids_of(merge_spec(ss)) == session_ids_of(ss),
    decreases ss.len(),
{
    if ss.len() > 0 {
        lemma_merge_keeps_ids_in_order(ss.drop_last());
        let prev = merge_spec(ss.drop_last());
        let s = ss.last();
        if prev.len() > 0 && can_absorb(prev.last(), s) {
            let next = prev.update(prev.len() - 1, absorb(prev.last(), s));
            assert(next.drop_last() =~= prev.drop_last());
            assert(merged_ids_of(prev) == merged_ids_of(prev.drop_last()) + prev.last().session_ids);
            assert(merged_ids_of(next) =~= merged_ids_of(prev).push(s.id));
        } else {
            assert(prev.push(merged_of(s)).drop_last() =~= prev);
            assert(merged_ids_of(prev.push(merged_of(s))) =~= merged_ids_of(prev).push(s.id));
        }
    }
}

/// Merging goes as far as it can: no merged session could have absorbed the
/// one that follows it.
pub proof fn lemma_merge_is_maximal(ss: Seq<SessionView>)
    ensures
        forall|i: int|
            0 <= i < merge_spec(ss).len() - 1 ==> starts_apart(#[trigger] merge_spec(ss)[i], merge_spec(ss)[i + 1]),
    decreases ss.len(),
{
    if ss.len() > 0 {
        lemma_merge_is_maximal(ss.drop_last());
        let prev = merge_spec(ss.drop_last());
        let s = ss.last();
        let ms = merge_spec(ss);
        if prev.len() > 0 && can_absorb(prev.last(), s) {
            assert forall|i: int| 0 <= i < ms.len() - 1 implies starts_apart(#[trigger] ms[i], ms[i + 1]) by {
                assert(ms[i] == prev[i]);
                if i + 1 < prev.len() - 1 {
                    assert(ms[i + 1] == prev[i + 1]);
                } else {
                    assert(starts_apart(prev[i], prev[i + 1]));
                }
            }
        } else {
            assert forall|i: int| 0 <= i < ms.len() - 1 implies starts_apart(#[trigger] ms[i], ms[i + 1]) by {
                if i + 1 < prev.len() {
                    assert(starts_apart(prev[i], prev[i + 1]));
                } else {
                    assert(ms[i] == prev.last());
                }
            }
        }
    }
}

/// Every merged session holds at least one session, and one that holds
/// several is neither published nor a huddle: published and huddle sessions
/// are never merged with others.
pub proof fn lemma_merge_keeps_published_and_huddles_apart(ss: Seq<SessionView>)
    ensures
        forall|i: int|
            0 <= i < merge_spec(ss).len() ==> {
                &&& #[trigger] merge_spec(ss)[i].session_ids.len() >= 1
                &&& merge_spec(ss)[i].session_ids.len() > 1 ==> !merge_spec(ss)[i].is_published
                    && !merge_spec(ss)[i].is_huddle
            },
    decreases ss.len(),
{
    if ss.len() > 0 {
        lemma_merge_keeps_published_and_huddles_apart(ss.drop_last());
        let prev = merge_spec(ss.drop_last());
        let ms = merge_spec(ss);
        assert forall|i: int| 0 <= i < ms.len() implies {
            &&& #[trigger] ms[i].session_ids.len() >= 1
            &&& ms[i].session_ids.len() > 1 ==> !ms[i].is_published && !ms[i].is_huddle
        } by {
            if i < prev.len() {
                assert(prev[i].session_ids.len() >= 1);
            }
        }
    }
}

/// An executable path that lies under no project's folder never keeps a
/// window from being attributed by its title or its folder name: the window
/// is attributed exactly as it would be without that path.
pub proof fn lemma_unmatched_exe_falls_back(window: ActiveWindowInfo, projects: Seq<Project>)
    requires
        window.exe_path is Some,
        forall|i: int|
            0 <= i < projects.len() ==> !starts_with_seq(
                normalized_path(window.exe_path->0@),
                normalized_path(#[trigger] projects[i].path@),
            ),
    ensures
        matched_project(window, projects) == matched_project(ActiveWindowInfo { exe_path: None, ..window }, projects),
{
    let ws = exe_weights(window.exe_path->0@, projects);
    assert forall|i: int| !is_last_max(ws, i) by {
        if 0 <= i < ws.len() {
            assert(!starts_with_seq(normalized_path(window.exe_path->0@), normalized_path(projects[i].path@)));
            assert(ws[i] is None);
        }
    }
    assert(pick_last_max(ws) is None);
}

/// A project's folder name matches a title regardless of letter case: titles
/// that agree once lower-cased, and project folders that agree once
/// lower-cased, give the same weights.
pub proof fn lemma_folder_match_ignores_case(
    title1: Seq<char>,
    title2: Seq<char>,
    projects1: Seq<Project>,
    projects2: Seq<Project>,
)
    requires
        lowercase(title1) == lowercase(title2),
        projects1.len() == projects2.len(),
        forall|i: int|
            0 <= i < projects1.len() ==> match (
                path_file_name(#[trigger] projects1[i].path@),
                path_file_name(projects2[i].path@),
            ) {
                (Some(f1), Some(f2)) => lowercase(f1) == lowercase(f2),
                (None, None) => true,
                _ => false,
            },
    ensures
        folder_weights(title1, projects1) == folder_weights(title2, projects2),
{
    let w1 = folder_weights(title1, projects1);
    let w2 = folder_weights(title2, projects2);
    assert forall|i: int| 0 <= i < w1.len() implies w1[i] == w2[i] by {
        match (path_file_name(projects1[i].path@), path_file_name(projects2[i].path@)) {
            (Some(f1), Some(f2)) => {
                assert(lowercase(f1) == lowercase(f2));
            },
            _ => {},
        }
    }
    assert(w1 =~= w2);
}

/// Each merged session listed once per session it holds, with its project
/// and Jira key.
pub open spec fn merged_labels(ms: Seq<MergedView>) -> Seq<(Option<Seq<char>>, Option<Seq<char>>)>
    decreases ms.len(),
{
    if ms.len() == 0 {
        Seq::empty()
    } else {
        merged_labels(ms.drop_last()) + Seq::new(
            ms.last().session_ids.len(),
            |i: int| (ms.last().project_id, ms.last().jira_key),
        )
    }
}

/// The project and Jira key of each session, in order.
pub open spec fn session_labels(ss: Seq<SessionView>) -> Seq<(Option<Seq<char>>, Option<Seq<char>>)> {
    ss.map_values(|s: SessionView| (s.project_id, s.jira_key))
}

/// A merged session holds sessions of one project and one Jira key only:
/// listing each merged session's project and key once for every session it
/// holds gives, in order, the project and key of every session (whose ids,
/// by `lemma_merge_keeps_ids_in_order`, come in the same order).
pub proof fn lemma_merge_keeps_projects_and_keys_apart(ss: Seq<SessionView>)
    ensures
        merged_labels(merge_spec(ss)) == session_labels(ss),
    decreases ss.len(),
{
    if ss.len() > 0 {
        lemma_merge_keeps_projects_and_keys_apart(ss.drop_last());
        let prev = merge_spec(ss.drop_last());
        let s = ss.last();
        assert(session_labels(ss) =~= session_labels(ss.drop_last()).push((s.project_id, s.jira_key)));
        if prev.len() > 0 && can_absorb(prev.last(), s) {
            let last = prev.last();
            let next = prev.update(prev.len() - 1, absorb(last, s));
            assert(next.drop_last() =~= prev.drop_last());
            assert(next.last() == absorb(last, s));
            assert(merged_labels(prev) == merged_labels(prev.drop_last()) + Seq::new(
                last.session_ids.len(),
                |i: int| (last.project_id, last.jira_key),
            ));
            assert(merged_labels(next) == merged_labels(prev.drop_last()) + Seq::new(
                last.session_ids.len() + 1,
                |i: int| (last.project_id, last.jira_key),
            ));
            assert(merged_labels(next) =~= merged_labels(prev).push((s.project_id, s.jira_key)));
        } else {
            let next = prev.push(merged_of(s));
            assert(next.drop_last() =~= prev);
            assert(merged_labels(next) =~= merged_labels(prev).push((s.project_id, s.jira_key)));
        }
    }
}

} // verus!
