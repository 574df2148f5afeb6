//! Which windows count: IDE windows by their process name, and Slack Huddle
//! windows by their title, with the channel read from the title.
use vstd::prelude::*;
use vstd::utf8::{encode_utf8, decode_utf8, is_char_boundary};
use crate::text::{
    chars_of, to_lowercase, lowercase, contains_chars, contains_seq, find_bytes, first_occurrence,
    lemma_first_occurrence, trim, trim_bounds, string_from_chars,
};
use crate::recorder::same_text;
use crate::session_store::opt_chars;
use crate::platform::types::{ActiveWindowInfo, HuddleInfo};

verus! {

/// Known IDE executable names (lower-case, no extension).
pub open spec fn ide_process_names() -> Seq<Seq<char>> {
    seq![
        "code"@, "code - insiders"@, "cursor"@, "devenv"@, "rider64"@, "rider"@, "webstorm64"@,
        "webstorm"@, "idea64"@, "intellijidea64"@, "clion64"@, "clion"@, "phpstorm64"@, "goland64"@,
        "pycharm64"@, "studio64"@, "fleet"@, "zed"@, "sublime_text"@, "notepad++"@, "eclipse"@,
        "netbeans"@,
    ]
}

/// Whether a lower-cased executable name (no extension) is a known IDE:
/// VS Code, Cursor, Visual Studio, the JetBrains IDEs, Zed, Sublime Text,
/// Notepad++, Eclipse or NetBeans.
pub fn is_ide_process(process_name: &str) -> (b: bool)
    ensures
        b == ide_process_names().contains(process_name@),
{
    let names: [&str; 22] = [
        "code", "code - insiders", "cursor", "devenv", "rider64", "rider", "webstorm64", "webstorm",
        "idea64", "intellijidea64", "clion64", "clion", "phpstorm64", "goland64", "pycharm64", "studio64",
        "fleet", "zed", "sublime_text", "notepad++", "eclipse", "netbeans",
    ];
    assert(names@.map_values(|s: &str| s@) =~= ide_process_names());
    let mut i: usize = 0;
    while i < 22
        invariant
            i <= 22,
            names@.map_values(|s: &str| s@) == ide_process_names(),
            forall|j: int| 0 <= j < i ==> ide_process_names()[j] != process_name@,
        decreases 22 - i,
    {
        if same_text(names[i], process_name) {
            assert(ide_process_names()[i as int] == process_name@);
            return true;
        }
        i = i + 1;
    }
    false
}

/// A visible window is a Slack Huddle: its lower-cased title contains
/// `huddle` and it belongs to the `slack` process.
pub open spec fn spec_is_huddle_window(title: Seq<char>, process_name: Seq<char>) -> bool {
    contains_seq(lowercase(title), "huddle"@) && process_name == "slack"@
}

/// Whether a window (title, lower-cased executable name without extension)
/// is a Slack Huddle.
pub fn is_huddle_window(title: &str, process_name: &str) -> (b: bool)
    ensures
        b == spec_is_huddle_window(title@, process_name@),
{
    let lower = to_lowercase(title);
    let lc = chars_of(lower.as_str());
    let word = chars_of("huddle");
    contains_chars(lc.as_slice(), word.as_slice()) && same_text(process_name, "slack")
}

/// The UTF-8 bytes of ` in #`.
pub open spec fn in_channel_marker() -> Seq<u8> {
    seq![32u8, 105u8, 110u8, 32u8, 35u8]
}

/// The UTF-8 bytes of ` with `.
pub open spec fn with_marker() -> Seq<u8> {
    seq![32u8, 119u8, 105u8, 116u8, 104u8, 32u8]
}

/// Where, in the title's UTF-8 bytes, the channel text starts: just after
/// the first ` in #` of the lower-cased title, else after its first ` with `
/// (byte offsets in the lower-cased title, applied to the title).
pub open spec fn huddle_channel_offset(title: Seq<char>) -> Option<int> {
    let lb = encode_utf8(lowercase(title));
    match first_occurrence(lb, in_channel_marker()) {
        Some(p) => Some(p + 5),
        None => match first_occurrence(lb, with_marker()) {
            Some(p) => Some(p + 6),
            None => None,
        },
    }
}

/// The offset falls on a character boundary of the title, where slicing it
/// does not panic.
pub open spec fn huddle_title_splits(title: Seq<char>) -> bool {
    match huddle_channel_offset(title) {
        Some(k) => k <= encode_utf8(title).len() && is_char_boundary(encode_utf8(title), k),
        None => true,
    }
}

/// The channel or recipient in a huddle window title: the trimmed rest of
/// the title after ` in #` or ` with `, e.g. "Huddle in #general" gives
/// "general", "Huddle with @alice" gives "@alice", "Huddle" gives none.
pub open spec fn spec_huddle_channel(title: Seq<char>) -> Option<Seq<char>> {
    match huddle_channel_offset(title) {
        Some(k) => Some(trim(decode_utf8(encode_utf8(title).subrange(k, encode_utf8(title).len() as int)))),
        None => None,
    }
}

/// Parses a channel/recipient name from common Slack huddle window titles.
pub fn parse_huddle_channel(title: &str) -> (r: Option<String>)
    requires
        huddle_title_splits(title@),
    ensures
        match r {
            Some(c) => spec_huddle_channel(title@) == Some(c@),
            None => spec_huddle_channel(title@) is None,
        },
{
    let lower = to_lowercase(title);
    let lb = lower.as_str().as_bytes();
    let in_marker: [u8; 5] = [32, 105, 110, 32, 35];
    let with_m: [u8; 6] = [32, 119, 105, 116, 104, 32];
    assert(in_marker@ =~= in_channel_marker());
    assert(with_m@ =~= with_marker());
    let offset: usize = match find_bytes(lb, &in_marker) {
        Some(p) => {
            proof {
                lemma_first_occurrence(lb@, in_channel_marker(), p as int);
                assert(lb@.len() == lb.len());
            }
            p + 5
        },
        None => match find_bytes(lb, &with_m) {
            Some(p) => {
                proof {
                    lemma_first_occurrence(lb@, with_marker(), p as int);
                    assert(lb@.len() == lb.len());
                }
                p + 6
            },
            None => {
                return None;
            },
        },
    };
    let (_, rest) = title.split_at(offset);
    proof {
        vstd::utf8::encode_utf8_decode_utf8(rest@);
    }
    let cs = chars_of(rest);
    let (from, to) = trim_bounds(cs.as_slice());
    Some(string_from_chars(cs.as_slice(), from, to))
}

/// Parses the channel as `parse_huddle_channel` does; `None` when the title
/// is one on which slicing at the found offset would panic.
pub fn try_parse_huddle_channel(title: &str) -> (r: Option<Option<String>>)
    ensures
        r is Some <==> huddle_title_splits(title@),
        r matches Some(c) ==> match c {
            Some(ch) => spec_huddle_channel(title@) == Some(ch@),
            None => spec_huddle_channel(title@) is None,
        },
{
    let lower = to_lowercase(title);
    let lb = lower.as_str().as_bytes();
    let tb = title.as_bytes();
    let in_marker: [u8; 5] = [32, 105, 110, 32, 35];
    let with_m: [u8; 6] = [32, 119, 105, 116, 104, 32];
    assert(in_marker@ =~= in_channel_marker());
    assert(with_m@ =~= with_marker());
    let offset: Option<usize> = match find_bytes(lb, &in_marker) {
        Some(p) => {
            proof {
                lemma_first_occurrence(lb@, in_channel_marker(), p as int);
                assert(lb@.len() == lb.len());
            }
            Some(p + 5)
        },
        None => match find_bytes(lb, &with_m) {
            Some(p) => {
                proof {
                    lemma_first_occurrence(lb@, with_marker(), p as int);
                    assert(lb@.len() == lb.len());
                }
                Some(p + 6)
            },
            None => None,
        },
    };
    match offset {
        Some(k) => {
            if k <= tb.len() && title.is_char_boundary(k) {
                Some(parse_huddle_channel(title))
            } else {
                None
            }
        },
        None => Some(parse_huddle_channel(title)),
    }
}

/// Seconds since the last input, from the system tick count and the tick of
/// the last input (both in milliseconds): the difference, saturating at
/// zero, in whole seconds.
pub fn idle_secs_from_ticks(tick_now_ms: u64, last_input_ms: u32) -> (s: u64)
    ensures
        s == (if tick_now_ms >= last_input_ms { (tick_now_ms - last_input_ms) / 1000 } else { 0 }),
{
    let last: u64 = last_input_ms as u64;
    let elapsed_ms: u64 = if tick_now_ms >= last { tick_now_ms - last } else { 0 };
    elapsed_ms / 1000
}

/// What the window system tells of one top-level window, in the order the
/// windows are enumerated: whether it is visible, its title, the id of the
/// process that owns it (0 when unknown), the full path of that process's
/// executable (none when the process cannot be opened), and the file stem of
/// that path (empty when it has none).
#[derive(Debug, Clone)]
pub struct WindowFacts {
    pub visible: bool,
    pub title: String,
    pub pid: u32,
    pub exe_path: Option<String>,
    pub exe_stem: String,
}

/// A window counts when it is visible, has a title, and belongs to a process
/// that could be opened.
pub open spec fn facts_usable(w: WindowFacts) -> bool {
    w.visible && w.title@.len() > 0 && w.pid != 0 && w.exe_path is Some
}

/// The window is a Slack Huddle window: its lower-cased title contains
/// `huddle` and its executable's lower-cased stem is `slack`.
pub open spec fn facts_huddle(w: WindowFacts) -> bool {
    facts_usable(w) && spec_is_huddle_window(w.title@, lowercase(w.exe_stem@))
}

/// The window belongs to a known IDE, by its executable's lower-cased stem.
pub open spec fn facts_ide(w: WindowFacts) -> bool {
    facts_usable(w) && ide_process_names().contains(lowercase(w.exe_stem@))
}

/// The first Slack Huddle window, in enumeration order.
pub open spec fn first_huddle(ws: Seq<WindowFacts>) -> Option<int> {
    if exists|i: int| 0 <= i < ws.len() && facts_huddle(ws[i]) {
        Some(choose|i: int| 0 <= i < ws.len() && facts_huddle(ws[i]) && forall|j: int| 0 <= j < i ==> !facts_huddle(ws[j]))
    } else {
        None
    }
}

/// The view of a window description: process name, title, executable path.
pub open spec fn window_view(w: ActiveWindowInfo) -> (Seq<char>, Seq<char>, Option<Seq<char>>) {
    (w.process_name@, w.window_title@, opt_chars(w.exe_path))
}

/// The IDE windows, in enumeration order, each with its lower-cased stem as
/// process name, its title and its executable path.
pub open spec fn ide_views(ws: Seq<WindowFacts>) -> Seq<(Seq<char>, Seq<char>, Option<Seq<char>>)>
    decreases ws.len(),
{
    if ws.len() == 0 {
        Seq::empty()
    } else {
        let prev = ide_views(ws.drop_last());
        let w = ws.last();
        if facts_ide(w) {
            prev.push((lowercase(w.exe_stem@), w.title@, opt_chars(w.exe_path)))
        } else {
            prev
        }
    }
}

fn usable(w: &WindowFacts) -> (b: bool)
    ensures
        b == facts_usable(*w),
{
    w.visible && w.title.as_str().unicode_len() > 0 && w.pid != 0 && w.exe_path.is_some()
}

/// The Slack Huddle window among the enumerated ones: the first, with the
/// channel read from its title.
pub fn find_huddle_window(ws: &[WindowFacts]) -> (r: Option<HuddleInfo>)
    requires
        forall|i: int| 0 <= i < ws@.len() && facts_huddle(#[trigger] ws@[i]) ==> huddle_title_splits(ws@[i].title@),
    ensures
        match first_huddle(ws@) {
            Some(i) => r matches Some(h) && h.window_title == ws@[i].title && opt_chars(h.channel)
                == spec_huddle_channel(ws@[i].title@),
            None => r is None,
        },
{
    let mut i: usize = 0;
    while i < ws.len()
        invariant
            i <= ws@.len(),
            forall|j: int| 0 <= j < i ==> !facts_huddle(#[trigger] ws@[j]),
            forall|k: int| 0 <= k < ws@.len() && facts_huddle(#[trigger] ws@[k]) ==> huddle_title_splits(ws@[k].title@),
        decreases ws@.len() - i,
    {
        let w = &ws[i];
        if usable(w) {
            let stem = to_lowercase(w.exe_stem.as_str());
            if is_huddle_window(w.title.as_str(), stem.as_str()) {
                assert(facts_huddle(ws@[i as int]));
                proof {
                    let c = choose|k: int|
                        0 <= k < ws@.len() && facts_huddle(ws@[k]) && forall|j: int| 0 <= j < k ==> !facts_huddle(ws@[j]);
                    if c < i {
                    } else if c > i {
                        assert(!facts_huddle(ws@[i as int]));
                    }
                }
                let channel = parse_huddle_channel(w.title.as_str());
                let title = w.title.clone();
                return Some(HuddleInfo { channel, window_title: title });
            }
        }
        i = i + 1;
    }
    None
}

/// The IDE windows among the enumerated ones, in order.
pub fn collect_ide_windows(ws: &[WindowFacts]) -> (r: Vec<ActiveWindowInfo>)
    ensures
        r@.map_values(|w: ActiveWindowInfo| window_view(w)) == ide_views(ws@),
{
    let mut r: Vec<ActiveWindowInfo> = Vec::new();
    let mut i: usize = 0;
    while i < ws.len()
        invariant
            i <= ws@.len(),
            r@.map_values(|w: ActiveWindowInfo| window_view(w)) == ide_views(ws@.take(i as int)),
        decreases ws@.len() - i,
    {
        assert(ws@.take(i + 1).drop_last() =~= ws@.take(i as int));
        assert(ws@.take(i + 1).last() == ws@[i as int]);
        let ghost before = r@;
        let w = &ws[i];
        if usable(w) {
            let stem = to_lowercase(w.exe_stem.as_str());
            if is_ide_process(stem.as_str()) {
                let info = ActiveWindowInfo {
                    process_name: stem,
                    window_title: w.title.clone(),
                    exe_path: crate::session_store::clone_opt(&w.exe_path),
                };
                r.push(info);
                assert(r@.map_values(|w: ActiveWindowInfo| window_view(w)) =~= before.map_values(
                    |w: ActiveWindowInfo| window_view(w),
                ).push(window_view(info)));
            }
        }
        i = i + 1;
    }
    assert(ws@.take(ws@.len() as int) =~= ws@);
    r
}

} // verus!
