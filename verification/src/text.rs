//! Character-level string operations with their specifications.
use vstd::prelude::*;

verus! {

/// What `str::to_lowercase` returns for a string: full Unicode lower-casing.
pub uninterp spec fn lowercase(s: Seq<char>) -> Seq<char>;

/// What `str::to_uppercase` returns for a string: full Unicode upper-casing.
pub uninterp spec fn uppercase(s: Seq<char>) -> Seq<char>;

/// Calls `str::to_lowercase`.  Claimed: the result is the Unicode lower-case
/// form of `s`, a function of `s` alone (named `lowercase`).
#[verifier::external_body]
pub(crate) fn to_lowercase(s: &str) -> (r: String)
    ensures
        r@ == lowercase(s@),
{
    s.to_lowercase()
}

/// Calls `str::to_uppercase`.  Claimed: the result is the Unicode upper-case
/// form of `s`, a function of `s` alone (named `uppercase`).
#[verifier::external_body]
pub(crate) fn to_uppercase(s: &str) -> (r: String)
    ensures
        r@ == uppercase(s@),
{
    s.to_uppercase()
}

/// Calls `String::push`.  Claimed: the character is appended at the end.
#[verifier::external_body]
pub(crate) fn push_char(s: &mut String, c: char)
    ensures
        final(s)@ == old(s)@.push(c),
{
    s.push(c)
}

/// The characters of `s`, in order.
pub fn chars_of(s: &str) -> (v: Vec<char>)
    ensures
        v@ == s@,
{
    let n = s.unicode_len();
    let mut v: Vec<char> = Vec::new();
    let mut i: usize = 0;
    while i < n
        invariant
            n == s@.len(),
            i <= n,
            v@ == s@.subrange(0, i as int),
        decreases n - i,
    {
        let c = s.get_char(i);
        v.push(c);
        i = i + 1;
    }
    v
}

/// A `String` holding the characters `cs[from..to]`.
pub fn string_from_chars(cs: &[char], from: usize, to: usize) -> (s: String)
    requires
        from <= to <= cs@.len(),
    ensures
        s@ == cs@.subrange(from as int, to as int),
{
    let mut s = String::new();
    let mut i = from;
    while i < to
        invariant
            from <= i <= to,
            to <= cs@.len(),
            s@ == cs@.subrange(from as int, i as int),
        decreases to - i,
    {
        push_char(&mut s, cs[i]);
        i = i + 1;
    }
    s
}

/// `p` occurs in `s` at position `i`.
pub open spec fn occurs_at<A>(s: Seq<A>, p: Seq<A>, i: int) -> bool {
    0 <= i && i + p.len() <= s.len() && s.subrange(i, i + p.len()) == p
}

/// `p` occurs somewhere in `s` (the empty string occurs everywhere).
pub open spec fn contains_seq<A>(s: Seq<A>, p: Seq<A>) -> bool {
    exists|i: int| occurs_at(s, p, i)
}

/// `s` begins with `p`.
pub open spec fn starts_with_seq<A>(s: Seq<A>, p: Seq<A>) -> bool {
    occurs_at(s, p, 0)
}

fn occurs_at_exec(s: &[char], p: &[char], i: usize) -> (b: bool)
    requires
        i + p@.len() <= s@.len(),
    ensures
        b == occurs_at(s@, p@, i as int),
{
    let mut k: usize = 0;
    while k < p.len()
        invariant
            i + p@.len() <= s@.len(),
            k <= p@.len(),
            forall|j: int| 0 <= j < k ==> s@[i + j] == p@[j],
        decreases p@.len() - k,
    {
        assert(i + k < s@.len());
        assert(s@.len() == s.len());
        if s[i + k] != p[k] {
            assert(s@.subrange(i as int, i + p@.len())[k as int] != p@[k as int]);
            return false;
        }
        k = k + 1;
    }
    assert(s@.subrange(i as int, i + p@.len()) =~= p@);
    true
}

/// The first position at which `p` occurs in `s`.
pub open spec fn first_occurrence<A>(s: Seq<A>, p: Seq<A>) -> Option<int> {
    if contains_seq(s, p) {
        Some(choose|i: int| occurs_at(s, p, i) && forall|j: int| 0 <= j < i ==> !occurs_at(s, p, j))
    } else {
        None
    }
}

/// Finds the first position at which `p` occurs in `s`.
pub fn find_chars(s: &[char], p: &[char]) -> (r: Option<usize>)
    ensures
        match r {
            Some(i) => occurs_at(s@, p@, i as int) && forall|j: int| 0 <= j < i ==> !occurs_at(s@, p@, j),
            None => !contains_seq(s@, p@),
        },
{
    if p.len() > s.len() {
        return None;
    }
    let last = s.len() - p.len();
    let mut i: usize = 0;
    while i <= last
        invariant
            last == s@.len() - p@.len(),
            p@.len() <= s@.len(),
            i <= last + 1,
            forall|j: int| 0 <= j < i ==> !occurs_at(s@, p@, j),
        decreases last + 1 - i,
    {
        if occurs_at_exec(s, p, i) {
            return Some(i);
        }
        if i == last {
            return None;
        }
        i = i + 1;
    }
    None
}

/// Whether `p` occurs in `s`.
pub fn contains_chars(s: &[char], p: &[char]) -> (b: bool)
    ensures
        b == contains_seq(s@, p@),
{
    match find_chars(s, p) {
        Some(_) => true,
        None => false,
    }
}

/// Whether `s` begins with `p`.
pub fn starts_with_chars(s: &[char], p: &[char]) -> (b: bool)
    ensures
        b == starts_with_seq(s@, p@),
{
    if p.len() > s.len() {
        false
    } else {
        occurs_at_exec(s, p, 0)
    }
}


/// `c` has the Unicode `White_Space` property (what `char::is_whitespace`
/// tests).
pub open spec fn is_white_space(c: char) -> bool {
    ||| ('\u{9}' <= c && c <= '\u{d}')
    ||| c == ' '
    ||| c == '\u{85}'
    ||| c == '\u{a0}'
    ||| c == '\u{1680}'
    ||| ('\u{2000}' <= c && c <= '\u{200a}')
    ||| c == '\u{2028}'
    ||| c == '\u{2029}'
    ||| c == '\u{202f}'
    ||| c == '\u{205f}'
    ||| c == '\u{3000}'
}

pub fn is_white_space_exec(c: char) -> (b: bool)
    ensures
        b == is_white_space(c),
{
    ('\u{9}' <= c && c <= '\u{d}') || c == ' ' || c == '\u{85}' || c == '\u{a0}'
        || c == '\u{1680}' || ('\u{2000}' <= c && c <= '\u{200a}') || c == '\u{2028}'
        || c == '\u{2029}' || c == '\u{202f}' || c == '\u{205f}' || c == '\u{3000}'
}

/// `s` without its leading white space.
pub open spec fn trim_start(s: Seq<char>) -> Seq<char>
    decreases s.len(),
{
    if s.len() > 0 && is_white_space(s[0]) {
        trim_start(s.drop_first())
    } else {
        s
    }
}

/// `s` without its trailing white space.
pub open spec fn trim_end(s: Seq<char>) -> Seq<char>
    decreases s.len(),
{
    if s.len() > 0 && is_white_space(s.last()) {
        trim_end(s.drop_last())
    } else {
        s
    }
}

/// `s` without leading and trailing white space (what `str::trim` returns).
pub open spec fn trim(s: Seq<char>) -> Seq<char> {
    trim_end(trim_start(s))
}

/// The bounds `[from, to)` of `trim(cs)` within `cs`.
pub fn trim_bounds(cs: &[char]) -> (r: (usize, usize))
    ensures
        r.0 <= r.1 <= cs@.len(),
        cs@.subrange(r.0 as int, r.1 as int) == trim(cs@),
{
    let n = cs.len();
    assert(cs@.subrange(0, n as int) =~= cs@);
    let mut from: usize = 0;
    while from < n && is_white_space_exec(cs[from])
        invariant
            n == cs@.len(),
            from <= n,
            trim_start(cs@) == trim_start(cs@.subrange(from as int, n as int)),
        decreases n - from,
    {
        assert(cs@.subrange(from as int, n as int).drop_first() =~= cs@.subrange(from + 1, n as int));
        from = from + 1;
    }
    assert(trim_start(cs@.subrange(from as int, n as int)) == cs@.subrange(from as int, n as int));
    let mut to: usize = n;
    while to > from && is_white_space_exec(cs[to - 1])
        invariant
            n == cs@.len(),
            from <= to <= n,
            trim(cs@) == trim_end(cs@.subrange(from as int, to as int)),
        decreases to,
    {
        assert(cs@.subrange(from as int, to as int).drop_last() =~= cs@.subrange(from as int, to - 1));
        to = to - 1;
    }
    (from, to)
}

/// `s` with every backslash turned into a forward slash.
pub open spec fn forward_slashes(s: Seq<char>) -> Seq<char> {
    s.map_values(|c: char| if c == '\\' { '/' } else { c })
}

/// The characters of `s` with every backslash turned into a forward slash
/// (what `s.replace('\\', "/")` holds).
pub fn forward_slashes_exec(s: &[char]) -> (r: Vec<char>)
    ensures
        r@ == forward_slashes(s@),
{
    let mut r: Vec<char> = Vec::new();
    let mut i: usize = 0;
    while i < s.len()
        invariant
            i <= s@.len(),
            r@ == forward_slashes(s@.subrange(0, i as int)),
        decreases s@.len() - i,
    {
        let c = s[i];
        if c == '\\' {
            r.push('/');
        } else {
            r.push(c);
        }
        assert(forward_slashes(s@.subrange(0, i + 1)) =~= forward_slashes(s@.subrange(0, i as int)).push(
            if c == '\\' { '/' } else { c },
        ));
        i = i + 1;
    }
    assert(s@.subrange(0, s@.len() as int) =~= s@);
    r
}

/// `p` without trailing separators and trailing `.` components.
pub open spec fn strip_path_tail(p: Seq<char>) -> Seq<char>
    decreases p.len(),
{
    if p.len() > 0 && p.last() == '/' {
        strip_path_tail(p.drop_last())
    } else if p.len() >= 2 && p.last() == '.' && p[p.len() - 2] == '/' {
        strip_path_tail(p.drop_last())
    } else {
        p
    }
}

/// The characters after the last `/` of `p` (all of `p` when it has none).
pub open spec fn after_last_slash(p: Seq<char>) -> Seq<char>
    decreases p.len(),
{
    if p.len() == 0 {
        p
    } else if p.last() == '/' {
        Seq::<char>::empty()
    } else {
        after_last_slash(p.drop_last()).push(p.last())
    }
}

/// The final component of a `/`-separated path, if it is a name: none for an
/// empty path, the root, or a path that ends in `.` or `..` as its only or
/// last component (what `Path::file_name` returns on Unix).
pub open spec fn path_file_name(p: Seq<char>) -> Option<Seq<char>> {
    let q = strip_path_tail(p);
    let seg = after_last_slash(q);
    if q.len() == 0 || seg == seq!['.'] || seg == seq!['.', '.'] {
        None
    } else {
        Some(seg)
    }
}

proof fn lemma_after_last_slash_split(p: Seq<char>, k: int)
    requires
        0 <= k <= p.len(),
        forall|j: int| k <= j < p.len() ==> p[j] != '/',
    ensures
        after_last_slash(p) == after_last_slash(p.subrange(0, k)) + p.subrange(k, p.len() as int),
    decreases p.len() - k,
{
    if k == p.len() {
        assert(p.subrange(0, k) =~= p);
        assert(p.subrange(k, p.len() as int) =~= Seq::<char>::empty());
        assert(after_last_slash(p) + Seq::<char>::empty() =~= after_last_slash(p));
    } else {
        lemma_after_last_slash_split(p.drop_last(), k);
        assert(p.drop_last().subrange(0, k) =~= p.subrange(0, k));
        assert(p.subrange(k, p.len() as int) =~= p.drop_last().subrange(k, p.len() - 1).push(p.last()));
        assert((after_last_slash(p.subrange(0, k)) + p.drop_last().subrange(k, p.len() - 1)).push(p.last())
            =~= after_last_slash(p.subrange(0, k)) + p.drop_last().subrange(k, p.len() - 1).push(p.last()));
    }
}

/// The bounds `[from, to)` of `path_file_name(cs)` within `cs`, if it has one.
pub fn path_file_name_bounds(cs: &[char]) -> (r: Option<(usize, usize)>)
    ensures
        match r {
            Some((from, to)) => from <= to <= cs@.len() && path_file_name(cs@) == Some(
                cs@.subrange(from as int, to as int),
            ),
            None => path_file_name(cs@) is None,
        },
{
    let n = cs.len();
    assert(cs@.subrange(0, n as int) =~= cs@);
    let mut end: usize = n;
    loop
        invariant
            n == cs@.len(),
            end <= n,
            strip_path_tail(cs@) == strip_path_tail(cs@.subrange(0, end as int)),
        ensures
            end <= n,
            strip_path_tail(cs@) == cs@.subrange(0, end as int),
        decreases end,
    {
        let ghost q = cs@.subrange(0, end as int);
        if end > 0 && cs[end - 1] == '/' {
            assert(q.drop_last() =~= cs@.subrange(0, end - 1));
            end = end - 1;
        } else if end >= 2 && cs[end - 1] == '.' && cs[end - 2] == '/' {
            assert(q.drop_last() =~= cs@.subrange(0, end - 1));
            end = end - 1;
        } else {
            proof {
                if end > 0 {
                    assert(q.last() == cs@[end - 1]);
                }
                if end >= 2 {
                    assert(q[q.len() - 2] == cs@[end - 2]);
                }
            }
            assert(strip_path_tail(q) == q);
            break;
        }
    }
    let ghost q = cs@.subrange(0, end as int);
    let mut start: usize = end;
    while start > 0 && cs[start - 1] != '/'
        invariant
            end <= n,
            n == cs@.len(),
            start <= end,
            forall|j: int| start <= j < end ==> cs@[j] != '/',
        decreases start,
    {
        start = start - 1;
    }
    proof {
        lemma_after_last_slash_split(q, start as int);
        assert(q.subrange(start as int, end as int) =~= cs@.subrange(start as int, end as int));
        if start > 0 {
            assert(q.subrange(0, start as int).last() == '/');
        }
        assert(after_last_slash(q.subrange(0, start as int)) =~= Seq::<char>::empty());
        assert(after_last_slash(q) =~= cs@.subrange(start as int, end as int));
    }
    if end == 0 {
        return None;
    }
    let len = end - start;
    if len == 1 && cs[start] == '.' {
        assert(cs@.subrange(start as int, end as int) =~= seq!['.']);
        return None;
    }
    if len == 2 && cs[start] == '.' && cs[start + 1] == '.' {
        assert(cs@.subrange(start as int, end as int) =~= seq!['.', '.']);
        return None;
    }
    proof {
        let seg = cs@.subrange(start as int, end as int);
        if seg == seq!['.'] {
            assert(seg[0] == '.');
        }
        if seg == seq!['.', '.'] {
            assert(seg[0] == '.' && seg[1] == '.');
        }
    }
    Some((start, end))
}

/// The length of a string in UTF-8 bytes (what `str::len` returns, a
/// `usize`).
pub open spec fn byte_len(s: Seq<char>) -> int {
    (vstd::utf8::encode_utf8(s).len() as usize) as int
}

/// The length of a string in UTF-8 bytes.
pub fn str_byte_len(s: &str) -> (n: usize)
    ensures
        n == byte_len(s@),
{
    s.len()
}

fn occurs_at_bytes(s: &[u8], p: &[u8], i: usize) -> (b: bool)
    requires
        i + p@.len() <= s@.len(),
    ensures
        b == occurs_at(s@, p@, i as int),
{
    let mut k: usize = 0;
    while k < p.len()
        invariant
            i + p@.len() <= s@.len(),
            k <= p@.len(),
            forall|j: int| 0 <= j < k ==> s@[i + j] == p@[j],
        decreases p@.len() - k,
    {
        assert(i + k < s@.len());
        assert(s@.len() == s.len());
        if s[i + k] != p[k] {
            assert(s@.subrange(i as int, i + p@.len())[k as int] != p@[k as int]);
            return false;
        }
        k = k + 1;
    }
    assert(s@.subrange(i as int, i + p@.len()) =~= p@);
    true
}

/// Finds the first position at which the bytes `p` occur in `s`.
pub fn find_bytes(s: &[u8], p: &[u8]) -> (r: Option<usize>)
    ensures
        match r {
            Some(i) => occurs_at(s@, p@, i as int) && forall|j: int| 0 <= j < i ==> !occurs_at(s@, p@, j),
            None => !contains_seq(s@, p@),
        },
{
    if p.len() > s.len() {
        return None;
    }
    let last = s.len() - p.len();
    let mut i: usize = 0;
    while i <= last
        invariant
            last == s@.len() - p@.len(),
            p@.len() <= s@.len(),
            i <= last + 1,
            forall|j: int| 0 <= j < i ==> !occurs_at(s@, p@, j),
        decreases last + 1 - i,
    {
        if occurs_at_bytes(s, p, i) {
            return Some(i);
        }
        if i == last {
            return None;
        }
        i = i + 1;
    }
    None
}

/// The first occurrence is unique: it is where `find_chars` and
/// `find_bytes` stop.
pub proof fn lemma_first_occurrence<A>(s: Seq<A>, p: Seq<A>, i: int)
    requires
        occurs_at(s, p, i),
        forall|j: int| 0 <= j < i ==> !occurs_at(s, p, j),
    ensures
        first_occurrence(s, p) == Some(i),
{
    let c = choose|k: int| occurs_at(s, p, k) && forall|j: int| 0 <= j < k ==> !occurs_at(s, p, j);
    assert(occurs_at(s, p, c));
    if c < i {
    } else if c > i {
    }
}

/// The decimal digits, `'0'` to `'9'`.
pub open spec fn decimal_digits() -> Seq<char> {
    seq!['0', '1', '2', '3', '4', '5', '6', '7', '8', '9']
}

/// The decimal notation of a natural number, without leading zeros.
pub open spec fn decimal(v: nat) -> Seq<char>
    decreases v,
{
    if v < 10 {
        seq![decimal_digits()[v as int]]
    } else {
        decimal(v / 10).push(decimal_digits()[(v % 10) as int])
    }
}

/// The decimal notation of `v`, left-padded with zeros to at least `width`
/// characters.
pub open spec fn zero_padded(v: nat, width: nat) -> Seq<char> {
    let d = decimal(v);
    if d.len() >= width {
        d
    } else {
        Seq::new((width - d.len()) as nat, |i: int| '0') + d
    }
}

/// The decimal notation of `v`.
pub fn decimal_text(v: u64) -> (r: Vec<char>)
    ensures
        r@ == decimal(v as nat),
    decreases v,
{
    let digits: [char; 10] = ['0', '1', '2', '3', '4', '5', '6', '7', '8', '9'];
    assert(digits@ =~= decimal_digits());
    if v < 10 {
        let mut r: Vec<char> = Vec::new();
        r.push(digits[v as usize]);
        assert(r@ =~= decimal(v as nat));
        r
    } else {
        let mut r = decimal_text(v / 10);
        r.push(digits[(v % 10) as usize]);
        r
    }
}

/// Appends the decimal notation of `v`, left-padded with zeros to at least
/// `width` characters.
pub fn push_zero_padded(s: &mut String, v: u64, width: usize)
    ensures
        final(s)@ == old(s)@ + zero_padded(v as nat, width as nat),
{
    let ghost s0 = s@;
    let d = decimal_text(v);
    let n = d.len();
    let mut k: usize = n;
    while k < width
        invariant
            n <= k,
            k <= width || k == n,
            s@ == s0 + Seq::new((k - n) as nat, |i: int| '0'),
        decreases width - k,
    {
        push_char(s, '0');
        assert(Seq::new((k + 1 - n) as nat, |i: int| '0') =~= Seq::new((k - n) as nat, |i: int| '0').push('0'));
        k = k + 1;
    }
    let ghost pad = s@;
    let mut i: usize = 0;
    while i < n
        invariant
            i <= n,
            n == d@.len(),
            s@ == pad + d@.subrange(0, i as int),
        decreases n - i,
    {
        push_char(s, d[i]);
        assert(d@.subrange(0, i + 1) =~= d@.subrange(0, i as int).push(d@[i as int]));
        i = i + 1;
    }
    assert(d@.subrange(0, n as int) =~= d@);
    if n >= width {
        assert(Seq::new((k - n) as nat, |i: int| '0') =~= Seq::<char>::empty());
        assert(s@ =~= s0 + zero_padded(v as nat, width as nat));
    } else {
        assert(s@ =~= s0 + zero_padded(v as nat, width as nat));
    }
}

} // verus!
