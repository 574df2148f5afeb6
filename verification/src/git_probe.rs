//! Git information of a project folder and the Jira key in its branch name.
use vstd::prelude::*;
use crate::session_store::opt_chars;
use crate::text::{to_uppercase, uppercase, chars_of, trim_bounds, string_from_chars, trim};
use vstd::utf8::{valid_utf8, decode_utf8};

verus! {

/// The branch, Jira key and repository root found for a folder.
#[derive(Debug, Clone, Default)]
pub struct GitInfo {
    pub branch: Option<String>,
    pub jira_key: Option<String>,
    pub repo_root: Option<String>,
}

/// A regular expression that finds a Jira key in a branch name: its first
/// capture group, or else its whole match, is the key.
#[derive(Debug, Clone)]
pub struct JiraKeyPattern {
    pub pattern: String,
    pub description: String,
}

/// The standard Jira key pattern, e.g. `PROJ-123`.
pub open spec fn default_pattern_text() -> Seq<char> {
    "([A-Z][A-Z0-9]+-\\d+)"@
}

/// The description of the standard Jira key pattern.
pub open spec fn default_description_text() -> Seq<char> {
    "Standard Jira key (e.g. PROJ-123)"@
}

impl Default for JiraKeyPattern {
    fn default() -> (p: Self)
        ensures
            p.pattern@ == default_pattern_text(),
            p.description@ == default_description_text(),
    {
        JiraKeyPattern {
            pattern: String::from_str("([A-Z][A-Z0-9]+-\\d+)"),
            description: String::from_str("Standard Jira key (e.g. PROJ-123)"),
        }
    }
}

/// Whether `regex::Regex::new` accepts a pattern.
pub uninterp spec fn regex_compiles(pattern: Seq<char>) -> bool;

/// What `regex::Regex::captures` finds in a text for a pattern that
/// compiles: `None` when nothing matches, else the text of capture group 1
/// (if it took part) and of the whole match.
pub uninterp spec fn regex_captures(pattern: Seq<char>, text: Seq<char>) -> Option<(Option<Seq<char>>, Seq<char>)>;

/// The view of a capture result.
pub open spec fn captures_view(c: Option<(Option<String>, String)>) -> Option<(Option<Seq<char>>, Seq<char>)> {
    match c {
        Some((g1, g0)) => Some((opt_chars(g1), g0@)),
        None => None,
    }
}

/// Compiles `pattern` with `regex::Regex::new` and searches `text` with
/// `Regex::captures`, reading group 1 with `Captures::get` and the whole
/// match (group 0, always present in a match).  Claimed: `None` exactly when
/// the pattern does not compile (named `regex_compiles`); otherwise the
/// captures are a function of pattern and text (named `regex_captures`).
#[verifier::external_body]
fn regex_search(pattern: &str, text: &str) -> (r: Option<Option<(Option<String>, String)>>)
    ensures
        r is Some <==> regex_compiles(pattern@),
        r matches Some(c) ==> captures_view(c) == regex_captures(pattern@, text@),
{
    match regex::Regex::new(pattern) {
        Ok(re) => match re.captures(text) {
            Some(caps) => {
                let group1 = match caps.get(1) {
                    Some(m) => Some(m.as_str().to_string()),
                    None => None,
                };
                Some(Some((group1, caps[0].to_string())))
            },
            None => Some(None),
        },
        Err(_) => None,
    }
}

/// The key that the first pattern (in order) that compiles and matches
/// `text` yields: its group 1, or else its whole match.
pub open spec fn first_pattern_key(patterns: Seq<Seq<char>>, text: Seq<char>) -> Option<Seq<char>>
    decreases patterns.len(),
{
    if patterns.len() == 0 {
        None
    } else if regex_compiles(patterns[0]) && regex_captures(patterns[0], text) is Some {
        match regex_captures(patterns[0], text) {
            Some((Some(g1), _)) => Some(g1),
            Some((None, g0)) => Some(g0),
            None => None,
        }
    } else {
        first_pattern_key(patterns.drop_first(), text)
    }
}

/// The key the standard pattern yields for `branch`, upper-cased: its
/// capture group 1.
pub open spec fn spec_extract_with_default(branch: Seq<char>) -> Option<Seq<char>> {
    let text = uppercase(branch);
    if regex_compiles(default_pattern_text()) {
        match regex_captures(default_pattern_text(), text) {
            Some((Some(g1), _)) => Some(g1),
            _ => None,
        }
    } else {
        None
    }
}

/// The texts of some patterns.
pub open spec fn pattern_texts(patterns: Seq<JiraKeyPattern>) -> Seq<Seq<char>> {
    patterns.map_values(|p: JiraKeyPattern| p.pattern@)
}

/// The Jira key in a branch name: with no patterns, the standard one;
/// otherwise the first pattern, in order, that matches the upper-cased name.
pub open spec fn spec_extract_jira_key(branch: Seq<char>, patterns: Seq<JiraKeyPattern>) -> Option<Seq<char>> {
    if patterns.len() == 0 {
        spec_extract_with_default(branch)
    } else {
        first_pattern_key(pattern_texts(patterns), uppercase(branch))
    }
}

/// Extracts a Jira issue key from a branch name using the given patterns:
/// tries each pattern in order on the upper-cased name and returns the first
/// match.
pub fn extract_jira_key(branch: &str, patterns: &[JiraKeyPattern]) -> (r: Option<String>)
    ensures
        opt_chars(r) == spec_extract_jira_key(branch@, patterns@),
{
    if patterns.len() == 0 {
        return extract_with_default(branch);
    }
    let upper = to_uppercase(branch);
    let ghost texts = pattern_texts(patterns@);
    assert(texts.subrange(0, texts.len() as int) =~= texts);
    let mut i: usize = 0;
    while i < patterns.len()
        invariant
            i <= patterns@.len(),
            texts == pattern_texts(patterns@),
            upper@ == uppercase(branch@),
            first_pattern_key(texts, upper@) == first_pattern_key(texts.subrange(i as int, texts.len() as int), upper@),
        decreases patterns@.len() - i,
    {
        let ghost rest = texts.subrange(i as int, texts.len() as int);
        assert(rest[0] == patterns@[i as int].pattern@);
        assert(rest.drop_first() =~= texts.subrange(i + 1, texts.len() as int));
        match regex_search(patterns[i].pattern.as_str(), upper.as_str()) {
            Some(Some((g1, g0))) => {
                return match g1 {
                    Some(k) => Some(k),
                    None => Some(g0),
                };
            },
            _ => {},
        }
        i = i + 1;
    }
    None
}

/// Extracts a key with the standard pattern from the upper-cased branch name.
pub fn extract_with_default(branch: &str) -> (r: Option<String>)
    ensures
        opt_chars(r) == spec_extract_with_default(branch@),
{
    let upper = to_uppercase(branch);
    match regex_search("([A-Z][A-Z0-9]+-\\d+)", upper.as_str()) {
        Some(Some((Some(k), _))) => Some(k),
        _ => None,
    }
}

/// What running `git` gave: whether it exited successfully, and its
/// standard output.
#[derive(Debug, Clone)]
pub struct GitOutput {
    pub success: bool,
    pub stdout: Vec<u8>,
}

/// Converts bytes with `String::from_utf8`.  Claimed, as its documentation
/// says: `None` exactly when the bytes are not UTF-8; otherwise the string
/// they encode.
#[verifier::external_body]
fn utf8_to_string(bytes: Vec<u8>) -> (r: Option<String>)
    ensures
        r is Some <==> valid_utf8(bytes@),
        r matches Some(s) ==> s@ == decode_utf8(bytes@),
{
    match String::from_utf8(bytes) {
        Ok(s) => Some(s),
        Err(_) => None,
    }
}

/// The characters of these strings.
pub open spec fn string_views(v: Seq<String>) -> Seq<Seq<char>> {
    v.map_values(|s: String| s@)
}

/// Running `git` with arguments `args` may have given `out` (`None`: it
/// could not be started).
pub open spec fn git_ran<F: Fn(Vec<String>) -> Option<GitOutput>>(
    run_git: F,
    args: Seq<Seq<char>>,
    out: Option<GitOutput>,
) -> bool {
    exists|v: Vec<String>| string_views(v@) == args && call_ensures(run_git, (v,), out)
}

/// `git -C <dir> rev-parse --show-toplevel`.
pub open spec fn repo_root_args(dir: Seq<char>) -> Seq<Seq<char>> {
    seq!["-C"@, dir, "rev-parse"@, "--show-toplevel"@]
}

/// The trimmed text of a successful run's output, if it is UTF-8.
pub open spec fn output_text(out: Option<GitOutput>) -> Option<Seq<char>> {
    match out {
        Some(o) => if o.success && valid_utf8(o.stdout@) {
            Some(trim(decode_utf8(o.stdout@)))
        } else {
            None
        },
        None => None,
    }
}

fn trimmed_output(out: Option<GitOutput>) -> (r: Option<String>)
    ensures
        opt_chars(r) == output_text(out),
{
    match out {
        Some(o) => {
            if !o.success {
                return None;
            }
            match utf8_to_string(o.stdout) {
                Some(text) => {
                    let cs = chars_of(text.as_str());
                    let (from, to) = trim_bounds(cs.as_slice());
                    Some(string_from_chars(cs.as_slice(), from, to))
                },
                None => None,
            }
        },
        None => None,
    }
}

/// Asks git for the root of the repository that holds `dir`.
pub fn find_repo_root<F: Fn(Vec<String>) -> Option<GitOutput>>(dir: &str, run_git: &F) -> (r: Option<String>)
    requires
        forall|v: Vec<String>| call_requires(*run_git, (v,)),
    ensures
        exists|out: Option<GitOutput>| git_ran(*run_git, repo_root_args(dir@), out) && opt_chars(r) == output_text(out),
{
    let mut args: Vec<String> = Vec::new();
    args.push(String::from_str("-C"));
    args.push(String::from_str(dir));
    args.push(String::from_str("rev-parse"));
    args.push(String::from_str("--show-toplevel"));
    let ghost a = args;
    assert(string_views(args@) =~= repo_root_args(dir@));
    let out = run_git(args);
    assert(git_ran(*run_git, repo_root_args(dir@), out));
    trimmed_output(out)
}

/// `git -C <root> symbolic-ref --short HEAD`.
pub open spec fn branch_args(root: Seq<char>) -> Seq<Seq<char>> {
    seq!["-C"@, root, "symbolic-ref"@, "--short"@, "HEAD"@]
}

/// `git -C <root> rev-parse --short HEAD`.
pub open spec fn head_hash_args(root: Seq<char>) -> Seq<Seq<char>> {
    seq!["-C"@, root, "rev-parse"@, "--short"@, "HEAD"@]
}

/// A text, unless it is empty.
pub open spec fn non_empty(t: Option<Seq<char>>) -> Option<Seq<char>> {
    match t {
        Some(x) => if x.len() > 0 { Some(x) } else { None },
        None => None,
    }
}

/// The branch name shown for a detached HEAD: `detached:<hash>`.
pub open spec fn detached_name(t: Option<Seq<char>>) -> Option<Seq<char>> {
    match t {
        Some(h) => Some("detached:"@ + h),
        None => None,
    }
}

/// `branch` is what `get_branch` may find in `root`: the checked-out branch
/// if HEAD names one, else `detached:<short hash>` of HEAD; nothing if git
/// cannot be run, fails, or prints no branch.
pub open spec fn branch_outcome<F: Fn(Vec<String>) -> Option<GitOutput>>(
    run_git: F,
    root: Seq<char>,
    branch: Option<Seq<char>>,
) -> bool {
    exists|o1: Option<GitOutput>| {
        &&& git_ran(run_git, branch_args(root), o1)
        &&& match o1 {
            None => branch is None,
            Some(o) => if o.success {
                branch == non_empty(output_text(o1))
            } else {
                exists|o2: Option<GitOutput>|
                    git_ran(run_git, head_hash_args(root), o2) && branch == detached_name(output_text(o2))
            },
        }
    }
}

fn git_args(root: &str, a: &str, b: &str, c: &str) -> (v: Vec<String>)
    ensures
        string_views(v@) == seq!["-C"@, root@, a@, b@, c@],
{
    let mut args: Vec<String> = Vec::new();
    args.push(String::from_str("-C"));
    args.push(String::from_str(root));
    args.push(String::from_str(a));
    args.push(String::from_str(b));
    args.push(String::from_str(c));
    assert(string_views(args@) =~= seq!["-C"@, root@, a@, b@, c@]);
    args
}

/// Asks git for the branch checked out in `repo_root`; for a detached HEAD,
/// `detached:<short hash>`.
pub fn get_branch<F: Fn(Vec<String>) -> Option<GitOutput>>(repo_root: &str, run_git: &F) -> (r: Option<String>)
    requires
        forall|v: Vec<String>| call_requires(*run_git, (v,)),
    ensures
        branch_outcome(*run_git, repo_root@, opt_chars(r)),
{
    let args = git_args(repo_root, "symbolic-ref", "--short", "HEAD");
    let out = run_git(args);
    assert(git_ran(*run_git, branch_args(repo_root@), out));
    let success = match &out {
        Some(o) => o.success,
        None => return None,
    };
    if success {
        let text = trimmed_output(out);
        match text {
            Some(b) => {
                if b.as_str().is_empty() {
                    None
                } else {
                    Some(b)
                }
            },
            None => None,
        }
    } else {
        let args2 = git_args(repo_root, "rev-parse", "--short", "HEAD");
        let out2 = run_git(args2);
        assert(git_ran(*run_git, head_hash_args(repo_root@), out2));
        match trimmed_output(out2) {
            Some(h) => Some(String::from_str("detached:").concat(h.as_str())),
            None => None,
        }
    }
}

/// `g` is what `probe` may find for `dir`: the repository root git reports,
/// the branch checked out there, and the Jira key the patterns find in that
/// branch name.
pub open spec fn probe_outcome<F: Fn(Vec<String>) -> Option<GitOutput>>(
    run_git: F,
    dir: Seq<char>,
    patterns: Seq<JiraKeyPattern>,
    g: GitInfo,
) -> bool {
    &&& exists|out: Option<GitOutput>| {
        &&& git_ran(run_git, repo_root_args(dir), out)
        &&& opt_chars(g.repo_root) == output_text(out)
    }
    &&& match opt_chars(g.repo_root) {
        None => g.branch is None,
        Some(root) => branch_outcome(run_git, root, opt_chars(g.branch)),
    }
    &&& opt_chars(g.jira_key) == match opt_chars(g.branch) {
        Some(b) => spec_extract_jira_key(b, patterns),
        None => None,
    }
}

/// Probes a directory for git information and extracts a Jira key from the
/// branch name.
pub fn probe<F: Fn(Vec<String>) -> Option<GitOutput>>(
    dir: &str,
    patterns: &[JiraKeyPattern],
    run_git: &F,
) -> (g: GitInfo)
    requires
        forall|v: Vec<String>| call_requires(*run_git, (v,)),
    ensures
        probe_outcome(*run_git, dir@, patterns@, g),
{
    let repo_root = find_repo_root(dir, run_git);
    let branch = match &repo_root {
        Some(root) => get_branch(root.as_str(), run_git),
        None => None,
    };
    let jira_key = match &branch {
        Some(b) => extract_jira_key(b.as_str(), patterns),
        None => None,
    };
    GitInfo { branch, jira_key, repo_root }
}

/// The key comes from the first pattern, in order, that compiles and
/// matches: its capture group 1 when that group took part in the match, and
/// the whole match only when it did not.
pub proof fn lemma_first_match_gives_group_one(
    patterns: Seq<Seq<char>>,
    text: Seq<char>,
    k: int,
    group1: Option<Seq<char>>,
    whole: Seq<char>,
)
    requires
        0 <= k < patterns.len(),
        forall|j: int| 0 <= j < k ==> !(regex_compiles(#[trigger] patterns[j]) && regex_captures(patterns[j], text) is Some),
        regex_compiles(patterns[k]),
        regex_captures(patterns[k], text) == Some((group1, whole)),
    ensures
        first_pattern_key(patterns, text) == Some(
            match group1 {
                Some(g) => g,
                None => whole,
            },
        ),
    decreases k,
{
    if k > 0 {
        assert(!(regex_compiles(patterns[0]) && regex_captures(patterns[0], text) is Some));
        let rest = patterns.drop_first();
        assert forall|j: int| 0 <= j < k - 1 implies !(regex_compiles(#[trigger] rest[j]) && regex_captures(
            rest[j],
            text,
        ) is Some) by {
            assert(rest[j] == patterns[j + 1]);
        }
        assert(rest[k - 1] == patterns[k]);
        lemma_first_match_gives_group_one(rest, text, k - 1, group1, whole);
    }
}

/// With patterns given, a branch name in which none of them (compiling)
/// matches the upper-cased name yields no key; otherwise the key is the one
/// the first matching pattern gives, its group 1 taking precedence over the
/// whole match.
pub proof fn lemma_extract_uses_first_match(
    branch: Seq<char>,
    patterns: Seq<JiraKeyPattern>,
    k: int,
    group1: Option<Seq<char>>,
    whole: Seq<char>,
)
    requires
        0 <= k < patterns.len(),
        forall|j: int|
            0 <= j < k ==> !(regex_compiles(#[trigger] patterns[j].pattern@) && regex_captures(
                patterns[j].pattern@,
                uppercase(branch),
            ) is Some),
        regex_compiles(patterns[k].pattern@),
        regex_captures(patterns[k].pattern@, uppercase(branch)) == Some((group1, whole)),
    ensures
        spec_extract_jira_key(branch, patterns) == Some(
            match group1 {
                Some(g) => g,
                None => whole,
            },
        ),
{
    let texts = pattern_texts(patterns);
    assert forall|j: int| 0 <= j < k implies !(regex_compiles(#[trigger] texts[j]) && regex_captures(
        texts[j],
        uppercase(branch),
    ) is Some) by {
        assert(texts[j] == patterns[j].pattern@);
    }
    assert(texts[k] == patterns[k].pattern@);
    lemma_first_match_gives_group_one(texts, uppercase(branch), k, group1, whole);
}

} // verus!
