//! Whether a published release is newer than the running build.
use vstd::prelude::*;
use crate::text::{chars_of, string_from_chars};

verus! {

/// Whether `semver::Version::parse` accepts a text.
pub uninterp spec fn semver_parses(text: Seq<char>) -> bool;

/// Whether the version `a` parses to is greater than the one `b` parses to,
/// in `semver::Version`'s order.
pub uninterp spec fn semver_greater(a: Seq<char>, b: Seq<char>) -> bool;

/// Parses both texts with `semver::Version::parse` and compares them with
/// `>`.  Claimed: `None` exactly when one of them does not parse (named
/// `semver_parses`); otherwise whether the first is greater (named
/// `semver_greater`), which is never so of a text and itself, as `Version`'s
/// derived order compares equal versions equal.
#[verifier::external_body]
fn semver_newer(a: &str, b: &str) -> (r: Option<bool>)
    ensures
        r is Some <==> (semver_parses(a@) && semver_parses(b@)),
        r matches Some(g) ==> g == semver_greater(a@, b@),
        r matches Some(g) ==> (a@ == b@ ==> !g),
{
    match (semver::Version::parse(a), semver::Version::parse(b)) {
        (Ok(remote), Ok(local)) => Some(remote > local),
        _ => None,
    }
}

/// `s` without its leading `v`s.
pub open spec fn strip_leading_v(s: Seq<char>) -> Seq<char>
    decreases s.len(),
{
    if s.len() > 0 && s[0] == 'v' {
        strip_leading_v(s.drop_first())
    } else {
        s
    }
}

fn strip_v(s: &str) -> (r: String)
    ensures
        r@ == strip_leading_v(s@),
{
    let cs = chars_of(s);
    let n = cs.len();
    let mut from: usize = 0;
    assert(cs@.subrange(0, n as int) =~= cs@);
    while from < n && cs[from] == 'v'
        invariant
            from <= n,
            n == cs@.len(),
            strip_leading_v(cs@) == strip_leading_v(cs@.subrange(from as int, n as int)),
        decreases n - from,
    {
        assert(cs@.subrange(from as int, n as int).drop_first() =~= cs@.subrange(from + 1, n as int));
        from = from + 1;
    }
    string_from_chars(cs.as_slice(), from, n)
}

/// The release tag is newer than the running version: both without leading
/// `v`s, compared as semantic versions when both parse, else newer when the
/// texts differ.
pub open spec fn spec_is_newer(tag: Seq<char>, current: Seq<char>) -> bool {
    let t = strip_leading_v(tag);
    let c = strip_leading_v(current);
    if semver_parses(t) && semver_parses(c) {
        semver_greater(t, c)
    } else {
        t != c
    }
}

/// The release tag to offer when it is newer than the running version
/// `current`; `None` when the running version is up to date or ahead.
pub fn newer_release(tag: &str, current: &str) -> (r: Option<String>)
    ensures
        r matches Some(t) ==> t@ == tag@,
        r is Some <==> spec_is_newer(tag@, current@),
        strip_leading_v(tag@) == strip_leading_v(current@) ==> r is None,
{
    let tag_bare = strip_v(tag);
    let current_bare = strip_v(current);
    let is_newer = match semver_newer(tag_bare.as_str(), current_bare.as_str()) {
        Some(g) => g,
        None => !(tag_bare == current_bare),
    };
    if is_newer {
        Some(String::from_str(tag))
    } else {
        None
    }
}

} // verus!
