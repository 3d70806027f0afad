//! What the console and log-file subscribers say of an instrumented event.
//! Writing, colouring and the clock are the caller's.

use vstd::prelude::*;
use crate::keyed::{keyed_map, distinct_keyed, get_keyed};
use crate::text::{copy_str, push_str, decimal, decimal_string, str_eq};
use crate::strs::replace_all;
use crate::instrumentable::InstrumentInfo;
use vstd::string::StringSliceAdditionalSpecFns;
use vstd::utf8::{encode_utf8, is_char_boundary, is_continuation_byte};
use crate::utf8_text::{str_slice, push_str_bytes, push_spaces, space_bytes, lemma_str_valid, lemma_boundary_at_lead};

verus! {

/// The width used when the terminal's is not known.
pub const DEFAULT_TERMINAL_WIDTH: usize = 80;

/// The colour a console line is written in.
#[derive(Debug, Clone, Copy, PartialEq, Eq)]
pub enum EventColor {
    Cyan,
    Green,
    Yellow,
    Red,
}

/// A URL without its `http://` and `https://`.
pub open spec fn short_url(url: Seq<char>) -> Seq<char> {
    replace_all(replace_all(url, "http://"@, ""@), "https://"@, ""@)
}

/// The value of a payload key, if the payload has it.
pub open spec fn payload_value(info: InstrumentInfo, key: Seq<char>) -> Option<Seq<char>> {
    if keyed_map(info.payload@).contains_key(key) {
        Some(keyed_map(info.payload@)[key]@)
    } else {
        None
    }
}

/// ` [<ms>ms]` when the event has a duration, nothing otherwise.
pub open spec fn duration_suffix(duration_ms: Option<u64>) -> Seq<char> {
    match duration_ms {
        Some(ms) => " ["@ + decimal(ms as nat) + "ms]"@,
        None => Seq::empty(),
    }
}

/// The console line for an event and its colour: requests in cyan,
/// responses in green, index and database sizes in yellow with the given
/// percentage, warnings in red, and anything else uncoloured with its name
/// and duration; none for a known event that lacks its payload.
pub open spec fn console_line(info: InstrumentInfo, before_len: nat, after_len: nat, percent: Seq<char>)
    -> Option<(Seq<char>, Option<EventColor>)>
{
    let name = info.name@;
    if name == "response.request"@ {
        match payload_value(info, "url"@) {
            Some(u) => Some(("Request: "@ + short_url(u), Some(EventColor::Cyan))),
            None => None,
        }
    } else if name == "handle_response.requester"@ {
        match payload_value(info, "url"@) {
            Some(u) => Some(("Response: "@ + short_url(u), Some(EventColor::Green))),
            None => None,
        }
    } else if name == "index.doc"@ || name == "db.doc"@ {
        let label = if name == "index.doc"@ { "Index"@ } else { "Database"@ };
        if payload_value(info, "before"@) is Some && payload_value(info, "after"@) is Some {
            Some((label + ": "@ + decimal(before_len) + " -> "@ + decimal(after_len) + " bytes ["@ + percent + "%]"@,
                Some(EventColor::Yellow)))
        } else {
            None
        }
    } else if name == "warn.doc"@ {
        match payload_value(info, "msg"@) {
            Some(m) => Some(("Warning: "@ + m, Some(EventColor::Red))),
            None => None,
        }
    } else {
        Some(("Event: "@ + name + duration_suffix(info.duration_ms), None))
    }
}

/// `key=value` for each payload pair, in order, separated by `, `.
pub open spec fn payload_text(p: Seq<(String, String)>) -> Seq<char>
    decreases p.len(),
{
    if p.len() == 0 {
        Seq::empty()
    } else if p.len() == 1 {
        p[0].0@ + "="@ + p[0].1@
    } else {
        payload_text(p.drop_last()) + ", "@ + p.last().0@ + "="@ + p.last().1@
    }
}

/// The log-file line for an event at a time: `[name] time`, the duration,
/// and the payload after `: ` when there is one.
pub open spec fn file_line(info: InstrumentInfo, timestamp: Seq<char>) -> Seq<char> {
    "["@ + info.name@ + "] "@ + timestamp + duration_suffix(info.duration_ms)
        + if info.payload@.len() > 0 { ": "@ + payload_text(info.payload@) } else { Seq::empty() }
}

/// A URL without its `http://` and `https://`.
pub fn format_url(url: &str) -> (res: String)
    ensures
        res@ == short_url(url@),
{
    proof {
        reveal_strlit("http://");
        reveal_strlit("https://");
    }
    let a = crate::strs::replace_str(url, "http://", "");
    crate::strs::replace_str(a.as_str(), "https://", "")
}

/// A path with every occurrence of the current directory removed.
pub fn format_path(path: &str, current_dir: &str) -> (res: String)
    requires
        current_dir@.len() > 0,
    ensures
        res@ == replace_all(path@, current_dir@, ""@),
{
    crate::strs::replace_str(path, current_dir, "")
}

/// ` [<ms>ms]` when there is a duration.
fn duration_text(duration_ms: Option<u64>) -> (res: String)
    ensures
        res@ == duration_suffix(duration_ms),
{
    match duration_ms {
        Some(ms) => {
            let mut s = " [".to_string();
            let d = decimal_string(ms);
            push_str(&mut s, d.as_str());
            push_str(&mut s, "ms]");
            s
        },
        None => String::new(),
    }
}

/// The start of the last ` [` in the bytes, or `-1`.
pub open spec fn last_tag_start(t: Seq<u8>) -> int
    decreases t.len(),
{
    if t.len() < 2 {
        -1
    } else if t[t.len() - 2] == 32 && t[t.len() - 1] == 91 {
        t.len() - 2
    } else {
        last_tag_start(t.drop_last())
    }
}

/// The last ` [` lies inside the bytes.
proof fn lemma_last_tag_bound(t: Seq<u8>)
    ensures
        last_tag_start(t) == -1 || 0 <= last_tag_start(t) <= t.len() - 2,
        last_tag_start(t) >= 0 ==> t[last_tag_start(t)] == 32 && t[last_tag_start(t) + 1] == 91,
    decreases t.len(),
{
    if t.len() >= 2 && !(t[t.len() - 2] == 32 && t[t.len() - 1] == 91) {
        lemma_last_tag_bound(t.drop_last());
    }
}

/// `a - b`, or zero.
pub open spec fn sat_sub(a: int, b: int) -> int {
    if a > b { a - b } else { 0 }
}

/// The first `m` bytes, the last three of them made `...` when `m` is over three.
pub open spec fn cut_bytes(b: Seq<u8>, m: int) -> Seq<u8> {
    if m > 3 { b.take(m - 3) + encode_utf8("..."@) } else { b.take(m) }
}

/// A line fitted to a width, in bytes: with a ` [tag]` at its end, the
/// text before the tag cut (ending in `...`) or padded with spaces so that
/// the tag ends at the width; without one, the whole line cut or padded.
pub open spec fn justified_bytes(t: Seq<u8>, w: int) -> Seq<u8> {
    let k = last_tag_start(t);
    if k >= 0 {
        let content = t.take(k);
        let tag = t.skip(k);
        let m = sat_sub(w, tag.len() as int);
        let tr = if content.len() > m { cut_bytes(content, m) } else { content };
        tr + space_bytes(sat_sub(m, tr.len() as int) as nat) + tag
    } else if t.len() > w {
        cut_bytes(t, w)
    } else {
        t + space_bytes((w - t.len()) as nat)
    }
}

/// The places where a line is cut fall between characters.
pub open spec fn justify_cuts_ok(t: Seq<u8>, w: int) -> bool {
    let k = last_tag_start(t);
    if k >= 0 {
        let m = sat_sub(w, t.len() - k);
        k > m ==> is_char_boundary(t, m) && (m > 3 ==> is_char_boundary(t, m - 3))
    } else {
        t.len() > w ==> is_char_boundary(t, w) && (w > 3 ==> is_char_boundary(t, w - 3))
    }
}

/// The start of the last ` [` in the bytes (`str::rfind`).
fn find_last_tag(b: &[u8]) -> (r: Option<usize>)
    ensures
        match r {
            Some(k) => last_tag_start(b@) == k,
            None => last_tag_start(b@) == -1,
        },
{
    let ghost t = b@;
    let mut j: usize = b.len();
    assert(t.take(j as int) =~= t);
    while j >= 2
        invariant
            t == b@,
            j <= b@.len(),
            last_tag_start(t) == last_tag_start(t.take(j as int)),
        decreases j,
    {
        assert(t.take(j as int).drop_last() =~= t.take(j - 1));
        if b[j - 2] == 32 && b[j - 1] == 91 {
            return Some(j - 2);
        }
        j = j - 1;
    }
    None
}

/// `...` is three bytes 46.
proof fn lemma_dots_bytes()
    ensures
        encode_utf8("..."@) == seq![46u8, 46u8, 46u8],
{
    reveal_strlit("...");
    let c = "..."@;
    assert(vstd::utf8::is_ascii_chars(c));
    vstd::utf8::is_ascii_chars_encode_utf8(c);
    assert(encode_utf8(c) =~= seq![46u8, 46u8, 46u8]);
}

/// The width used: the terminal's, or the default.
pub open spec fn width_of(terminal_width: Option<usize>) -> int {
    match terminal_width { Some(w) => w as int, None => DEFAULT_TERMINAL_WIDTH as int }
}

/// Writes events to the console.
#[derive(Debug, Clone)]
pub struct ConsoleSubscriber {
    pub use_color: bool,
    pub terminal_width: Option<usize>,
}

impl ConsoleSubscriber {
    /// A subscriber that colours its lines or not, for a terminal of the
    /// given width.
    pub fn new(use_color: bool, terminal_width: Option<usize>) -> (res: Self)
        ensures
            res.use_color == use_color,
            res.terminal_width == terminal_width,
    {
        ConsoleSubscriber { use_color, terminal_width }
    }

    /// The first `m` bytes of the text, the last three made `...` when `m`
    /// is over three, appended.
    fn push_cut(out: &mut String, text: &str, m: usize)
        requires
            m <= text.spec_bytes().len(),
            is_char_boundary(text.spec_bytes(), m as int),
            m > 3 ==> is_char_boundary(text.spec_bytes(), m - 3),
        ensures
            encode_utf8(final(out)@) == encode_utf8(old(out)@) + cut_bytes(text.spec_bytes(), m as int),
    {
        proof {
            lemma_str_valid(text);
            vstd::utf8::is_char_boundary_start_end_of_seq(text.spec_bytes());
        }
        if m > 3 {
            let part = str_slice(text, 0, m - 3);
            push_str_bytes(out, part);
            push_str_bytes(out, "...");
            assert(encode_utf8(out@) =~= encode_utf8(old(out)@) + cut_bytes(text.spec_bytes(), m as int));
        } else {
            let part = str_slice(text, 0, m);
            push_str_bytes(out, part);
            assert(encode_utf8(out@) =~= encode_utf8(old(out)@) + cut_bytes(text.spec_bytes(), m as int));
        }
    }

    /// A line fitted to the terminal width: with a ` [tag]` at its end, the
    /// text before the tag cut (ending in `...`) or padded so that the tag
    /// ends at the width; without one, the whole line cut or padded. Widths
    /// count bytes; the cuts must fall between characters.
    pub fn justify(&self, text: &str) -> (res: String)
        requires
            justify_cuts_ok(text.spec_bytes(), width_of(self.terminal_width)),
        ensures
            encode_utf8(res@) == justified_bytes(text.spec_bytes(), width_of(self.terminal_width)),
    {
        let width: usize = match self.terminal_width { Some(w) => w, None => DEFAULT_TERMINAL_WIDTH };
        let b = text.as_bytes();
        let ghost t = text.spec_bytes();
        let n = b.len();
        proof {
            lemma_str_valid(text);
            vstd::utf8::is_char_boundary_start_end_of_seq(t);
            lemma_dots_bytes();
        }
        let found = find_last_tag(b);
        proof {
            lemma_last_tag_bound(t);
        }
        let mut out = String::new();
        assert(encode_utf8(out@) =~= Seq::<u8>::empty());
        match found {
            Some(k) => {
                assert(last_tag_start(t) == k);
                proof {
                    lemma_boundary_at_lead(t, k as int);
                }
                let tag = str_slice(text, k, n);
                let tag_len = n - k;
                let m: usize = if width > tag_len { width - tag_len } else { 0 };
                let tr_len: usize;
                if k > m {
                    Self::push_cut(&mut out, text, m);
                    tr_len = m;
                    proof {
                        assert(t.take(k as int).take(m as int) =~= t.take(m as int));
                        if m > 3 {
                            assert(t.take(k as int).take(m - 3) =~= t.take(m - 3));
                        }
                    }
                } else {
                    let content = str_slice(text, 0, k);
                    push_str_bytes(&mut out, content);
                    tr_len = k;
                }
                let pad: usize = if m > tr_len { m - tr_len } else { 0 };
                push_spaces(&mut out, pad);
                push_str_bytes(&mut out, tag);
                proof {
                    let content = t.take(k as int);
                    let tr = if content.len() > m { cut_bytes(content, m as int) } else { content };
                    assert(tr.len() == tr_len);
                    assert(t.skip(k as int) =~= t.subrange(k as int, n as int));
                    assert(encode_utf8(out@) =~= justified_bytes(t, width as int));
                }
            },
            None => {
                assert(last_tag_start(t) == -1);
                if n > width {
                    Self::push_cut(&mut out, text, width);
                    assert(encode_utf8(out@) =~= justified_bytes(t, width as int));
                } else {
                    push_str_bytes(&mut out, text);
                    push_spaces(&mut out, width - n);
                    assert(encode_utf8(out@) =~= justified_bytes(t, width as int));
                }
            },
        }
        out
    }

    /// `justify`, where the cuts fall between characters; `None` where one
    /// would split a character.
    pub fn try_justify(&self, text: &str) -> (res: Option<String>)
        ensures
            res is None <==> !justify_cuts_ok(text.spec_bytes(), width_of(self.terminal_width)),
            res matches Some(s) ==> encode_utf8(s@) == justified_bytes(text.spec_bytes(), width_of(self.terminal_width)),
    {
        let width: usize = match self.terminal_width { Some(w) => w, None => DEFAULT_TERMINAL_WIDTH };
        let b = text.as_bytes();
        let ghost t = text.spec_bytes();
        let n = b.len();
        let found = find_last_tag(b);
        proof {
            lemma_last_tag_bound(t);
        }
        let ok = match found {
            Some(k) => {
                let tag_len = n - k;
                let m: usize = if width > tag_len { width - tag_len } else { 0 };
                !(k > m) || (text.is_char_boundary(m) && (!(m > 3) || text.is_char_boundary(m - 3)))
            },
            None => {
                !(n > width) || (text.is_char_boundary(width) && (!(width > 3) || text.is_char_boundary(width - 3)))
            },
        };
        if ok { Some(self.justify(text)) } else { None }
    }

    /// The console line for an event and its colour. `percent` is the size
    /// change of an index or database event, computed by the caller.
    pub fn event_line(&self, info: &InstrumentInfo, percent: &str) -> (res: Option<(String, Option<EventColor>)>)
        requires
            info.wf(),
        ensures
            match res {
                Some((line, color)) => console_line(*info, payload_len(*info, "before"@), payload_len(*info, "after"@),
                    percent@) == Some((line@, color)),
                None => console_line(*info, payload_len(*info, "before"@), payload_len(*info, "after"@), percent@) is None,
            },
    {
        let name = info.name.as_str();
        if str_eq(name, "response.request") || str_eq(name, "handle_response.requester") {
            let (prefix, color): (&str, EventColor) = if str_eq(name, "response.request") {
                ("Request: ", EventColor::Cyan)
            } else {
                ("Response: ", EventColor::Green)
            };
            match get_keyed(&info.payload, "url") {
                Some(u) => {
                    let mut s = prefix.to_string();
                    let f = format_url(u.as_str());
                    push_str(&mut s, f.as_str());
                    Some((s, Some(color)))
                },
                None => None,
            }
        } else if str_eq(name, "index.doc") || str_eq(name, "db.doc") {
            let label: &str = if str_eq(name, "index.doc") { "Index" } else { "Database" };
            match (get_keyed(&info.payload, "before"), get_keyed(&info.payload, "after")) {
                (Some(b), Some(a)) => {
                    let mut s = label.to_string();
                    push_str(&mut s, ": ");
                    let bd = decimal_string(b.as_str().len() as u64);
                    push_str(&mut s, bd.as_str());
                    push_str(&mut s, " -> ");
                    let ad = decimal_string(a.as_str().len() as u64);
                    push_str(&mut s, ad.as_str());
                    push_str(&mut s, " bytes [");
                    push_str(&mut s, percent);
                    push_str(&mut s, "%]");
                    Some((s, Some(EventColor::Yellow)))
                },
                _ => None,
            }
        } else if str_eq(name, "warn.doc") {
            match get_keyed(&info.payload, "msg") {
                Some(m) => {
                    let mut s = "Warning: ".to_string();
                    push_str(&mut s, m.as_str());
                    Some((s, Some(EventColor::Red)))
                },
                None => None,
            }
        } else {
            let mut s = "Event: ".to_string();
            push_str(&mut s, name);
            let d = duration_text(info.duration_ms);
            push_str(&mut s, d.as_str());
            Some((s, None))
        }
    }
}

/// The byte length of a payload value, or zero.
pub open spec fn payload_len(info: InstrumentInfo, key: Seq<char>) -> nat {
    if keyed_map(info.payload@).contains_key(key) {
        (vstd::utf8::encode_utf8(keyed_map(info.payload@)[key]@).len() as usize) as nat
    } else {
        0
    }
}

/// Appends events to a log file.
#[derive(Debug, Clone)]
pub struct FileSubscriber {
    file_path: String,
}

impl FileSubscriber {
    /// The file written to.
    pub closed spec fn path_view(&self) -> Seq<char> {
        self.file_path@
    }

    /// A subscriber writing to the file at `file_path`.
    pub fn new(file_path: &str) -> (res: Self)
        ensures
            res.path_view() == file_path@,
    {
        FileSubscriber { file_path: copy_str(file_path) }
    }

    /// The file written to.
    pub fn file_path(&self) -> (res: &str)
        ensures
            res@ == self.path_view(),
    {
        self.file_path.as_str()
    }

    /// The line written for an event at the given time.
    pub fn log_line(&self, info: &InstrumentInfo, timestamp: &str) -> (res: String)
        ensures
            res@ == file_line(*info, timestamp@),
    {
        let mut s = "[".to_string();
        push_str(&mut s, info.name.as_str());
        push_str(&mut s, "] ");
        push_str(&mut s, timestamp);
        let d = duration_text(info.duration_ms);
        push_str(&mut s, d.as_str());
        if info.payload.len() > 0 {
            push_str(&mut s, ": ");
            let mut i: usize = 0;
            let ghost p = info.payload@;
            while i < info.payload.len()
                invariant
                    0 <= i <= info.payload.len(),
                    p == info.payload@,
                    p.len() > 0,
                    s@ == "["@ + info.name@ + "] "@ + timestamp@ + duration_suffix(info.duration_ms) + ": "@
                        + payload_text(p.take(i as int)),
                decreases info.payload.len() - i,
            {
                let ghost before = s@;
                if i > 0 {
                    push_str(&mut s, ", ");
                }
                push_str(&mut s, info.payload[i].0.as_str());
                push_str(&mut s, "=");
                push_str(&mut s, info.payload[i].1.as_str());
                proof {
                    assert(p.take(i + 1).drop_last() =~= p.take(i as int));
                    if i == 0 {
                        assert(payload_text(p.take(0)) =~= Seq::<char>::empty());
                        assert(p.take(1).len() == 1);
                    }
                    assert(s@ =~= "["@ + info.name@ + "] "@ + timestamp@ + duration_suffix(info.duration_ms) + ": "@
                        + payload_text(p.take(i + 1)));
                }
                i = i + 1;
            }
            assert(p.take(p.len() as int) =~= p);
        } else {
            assert(s@ =~= file_line(*info, timestamp@));
        }
        s
    }
}

} // verus!
