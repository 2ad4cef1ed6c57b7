//! Desktop windows: which windows are listed, how a title query selects
//! them, and the keyboard events a shortcut such as `ctrl+3` turns into.
use vstd::prelude::*;

use crate::text::{
    ascii_lower, ascii_lower_seq, chars_of, chars_view_seq, contains_chars, contains_seq, eq_str,
    is_ascii_seq, lemma_ascii_lower_twice, lemma_contains_trans, spec_to_lowercase, split_chars,
    split_seq, to_lowercase, trim_chars, trim_seq,
};

verus! {

/// Information about a visible top-level window.
#[derive(Debug, Clone)]
pub struct WindowInfo {
    /// Window handle (a window number on macOS).
    pub hwnd: u64,
    pub title: String,
    /// Process that owns the window.
    pub pid: u32,
    /// Left edge in physical pixels.
    pub x: i32,
    /// Top edge in physical pixels.
    pub y: i32,
    pub width: u32,
    pub height: u32,
    /// Window class (the owning application's name on macOS).
    pub class_name: String,
}

// ---------------------------------------------------------------------------
// Listing
// ---------------------------------------------------------------------------
/// `max(a - b, 0)`.
pub open spec fn extent(a: i32, b: i32) -> u32 {
    if a - b < 0 {
        0
    } else {
        (a - b) as u32
    }
}

/// The listing entry for a visible Win32 window whose title and rectangle
/// could be read: none for an empty title or a rectangle without area in
/// both directions; sizes below zero count as zero.
pub fn window_from_rect(
    hwnd: u64,
    title: String,
    pid: u32,
    left: i32,
    top: i32,
    right: i32,
    bottom: i32,
    class_name: String,
) -> (r: Option<WindowInfo>)
    requires
        i32::MIN <= right - left <= i32::MAX,
        i32::MIN <= bottom - top <= i32::MAX,
    ensures
        (title@.len() == 0 || (extent(right, left) == 0 && extent(bottom, top) == 0)) ==> r is None,
        !(title@.len() == 0 || (extent(right, left) == 0 && extent(bottom, top) == 0)) ==> r
            == Some(
            WindowInfo {
                hwnd,
                title,
                pid,
                x: left,
                y: top,
                width: extent(right, left),
                height: extent(bottom, top),
                class_name,
            },
        ),
{
    if title.as_str().is_empty() {
        return None;
    }
    let w = right - left;
    let h = bottom - top;
    let width: u32 = if w < 0 {
        0
    } else {
        w as u32
    };
    let height: u32 = if h < 0 {
        0
    } else {
        h as u32
    };
    if width == 0 && height == 0 {
        return None;
    }
    assert(title@.len() != 0);
    Some(WindowInfo { hwnd, title, pid, x: left, y: top, width, height, class_name })
}

/// The listing entry for an on-screen macOS window: only normal windows
/// (layer 0) with a non-empty title and some area are listed; the window
/// number and owner pid are taken modulo 2^64 and 2^32, a missing owner name
/// is empty and missing bounds are all zero.
pub fn window_from_mac(
    layer: i64,
    title: Option<String>,
    window_number: i64,
    owner_pid: i64,
    owner_name: Option<String>,
    bounds: Option<(i32, i32, u32, u32)>,
) -> (r: Option<WindowInfo>)
    ensures
        ({
            let (x, y, w, h) = match bounds {
                Some(b) => b,
                None => (0i32, 0i32, 0u32, 0u32),
            };
            if layer != 0 || title is None || title->0@.len() == 0 || (w == 0 && h == 0) {
                r is None
            } else {
                &&& r is Some
                &&& r->0.hwnd == window_number as u64
                &&& r->0.title == title->0
                &&& r->0.pid == owner_pid as u32
                &&& r->0.x == x && r->0.y == y && r->0.width == w && r->0.height == h
                &&& r->0.class_name@ == match owner_name {
                    Some(n) => n@,
                    None => Seq::<char>::empty(),
                }
            }
        }),
{
    if layer != 0 {
        return None;
    }
    let t = match title {
        Some(t) => t,
        None => return None,
    };
    if t.as_str().is_empty() {
        return None;
    }
    assert(t@.len() != 0);
    let (x, y, width, height) = match bounds {
        Some(b) => b,
        None => (0i32, 0i32, 0u32, 0u32),
    };
    if width == 0 && height == 0 {
        return None;
    }
    let class_name = match owner_name {
        Some(n) => n,
        None => String::new(),
    };
    Some(
        WindowInfo {
            hwnd: window_number as u64,
            title: t,
            pid: owner_pid as u32,
            x,
            y,
            width,
            height,
            class_name,
        },
    )
}

/// The owner of the first listed window with handle `hwnd`.
pub fn window_pid(windows: &Vec<WindowInfo>, hwnd: u64) -> (r: Option<u32>)
    ensures
        match r {
            Some(pid) => exists|i: int|
                0 <= i < windows@.len() && (#[trigger] windows@[i]).hwnd == hwnd && windows@[i].pid
                    == pid && forall|j: int| 0 <= j < i ==> (#[trigger] windows@[j]).hwnd != hwnd,
            None => forall|i: int| 0 <= i < windows@.len() ==> (#[trigger] windows@[i]).hwnd != hwnd,
        },
{
    let mut i: usize = 0;
    while i < windows.len()
        invariant
            i <= windows@.len(),
            forall|j: int| 0 <= j < i ==> (#[trigger] windows@[j]).hwnd != hwnd,
        decreases windows.len() - i,
    {
        if windows[i].hwnd == hwnd {
            return Some(windows[i].pid);
        }
        i += 1;
    }
    None
}

/// The title contains the query, both lower-cased.
pub open spec fn title_matches(title: Seq<char>, query: Seq<char>) -> bool {
    contains_seq(spec_to_lowercase(title), spec_to_lowercase(query))
}

/// The lower-cased title contains the already lower-cased query `lq`.
pub open spec fn title_has(w: WindowInfo, lq: Seq<char>) -> bool {
    contains_seq(spec_to_lowercase(w.title@), lq)
}

/// The listed windows whose title contains `query`, ignoring case, in the
/// listing's order; all of them for an empty query. An ASCII query is
/// lower-cased letter by letter.
pub fn find_windows(windows: Vec<WindowInfo>, query: &str) -> (r: Vec<WindowInfo>)
    ensures
        query@.len() == 0 ==> r@ == windows@,
        query@.len() != 0 ==> r@ == windows@.filter(
            |w: WindowInfo| title_matches(w.title@, query@),
        ),
        query@.len() != 0 && is_ascii_seq(query@) ==> r@ == windows@.filter(
            |w: WindowInfo| title_has(w, ascii_lower_seq(query@)),
        ),
{
    broadcast use vstd::string::group_string_axioms;

    let q = chars_of(query);
    if q.len() == 0 {
        return windows;
    }
    let ql = chars_of(to_lowercase(query).as_str());
    let ghost all = windows@;
    let ghost pred = |w: WindowInfo| title_matches(w.title@, query@);
    // Take the windows from the back, keeping the matching ones.
    let mut rest = windows;
    let mut kept_rev: Vec<WindowInfo> = Vec::new();
    while rest.len() > 0
        invariant
            pred == (|w: WindowInfo| title_matches(w.title@, query@)),
            ql@ == spec_to_lowercase(query@),
            rest@ == all.take(rest@.len() as int),
            rest@.len() <= all.len(),
            kept_rev@.reverse() == all.skip(rest@.len() as int).filter(pred),
        decreases rest.len(),
    {
        let ghost n = rest@.len() as int;
        let w = rest.pop().unwrap();
        assert(w == all[n - 1]);
        let tl = chars_of(to_lowercase(w.title.as_str()).as_str());
        let m = contains_chars(&tl, &ql);
        assert(pred(w) == title_matches(w.title@, query@));
        assert(m == pred(w));
        proof {
            let tail = all.skip(n - 1);
            assert(tail.drop_first() =~= all.skip(n));
            assert(tail =~= seq![w] + all.skip(n));
            lemma_filter_cons(w, all.skip(n), pred);
        }
        if m {
            let ghost before = kept_rev@;
            kept_rev.push(w);
            assert(kept_rev@.reverse() =~= seq![all[n - 1]] + before.reverse());
        }
        assert(rest@ =~= all.take(n - 1));
    }
    assert(all.skip(0) =~= all);
    // Restore the listing order.
    let mut out: Vec<WindowInfo> = Vec::new();
    let ghost kept = kept_rev@.reverse();
    while kept_rev.len() > 0
        invariant
            pred == (|w: WindowInfo| title_matches(w.title@, query@)),
            kept == all.filter(pred),
            out@ + kept_rev@.reverse() == kept,
        decreases kept_rev.len(),
    {
        let ghost before = kept_rev@;
        let w = kept_rev.pop().unwrap();
        assert(before.reverse() =~= seq![w] + kept_rev@.reverse());
        out.push(w);
        assert(out@ + kept_rev@.reverse() =~= kept);
    }
    assert(out@ =~= out@ + kept_rev@.reverse());
    proof {
        if is_ascii_seq(query@) {
            assert(pred =~= (|w: WindowInfo| title_has(w, ascii_lower_seq(query@))));
        }
    }
    out
}

/// For an ASCII query, letter case does not matter: the query and its
/// lower-cased form, which is ASCII as well, keep the same windows.
pub proof fn law_query_case_is_ignored(ws: Seq<WindowInfo>, q: Seq<char>)
    requires
        is_ascii_seq(q),
    ensures
        is_ascii_seq(ascii_lower_seq(q)),
        ascii_lower_seq(q).len() == q.len(),
        ws.filter(|w: WindowInfo| title_has(w, ascii_lower_seq(ascii_lower_seq(q)))) == ws.filter(
            |w: WindowInfo| title_has(w, ascii_lower_seq(q)),
        ),
{
    assert forall|i: int| 0 <= i < ascii_lower_seq(q).len() implies (#[trigger] ascii_lower_seq(
        q,
    )[i] as u32) < 128 by {
        let c = q[i];
        assert((c as u32) < 128);
        if 'A' <= c <= 'Z' {
            assert(65 <= (c as u32) <= 90);
        }
        assert(ascii_lower_seq(q)[i] == ascii_lower(c));
    }
    lemma_ascii_lower_twice(q);
}

/// The windows a nonempty query keeps (see `find_windows`).
pub open spec fn kept_for(ws: Seq<WindowInfo>, q: Seq<char>) -> Seq<WindowInfo> {
    ws.filter(|v: WindowInfo| title_matches(v.title@, q))
}

/// A longer query keeps no more windows: when the lower-cased `shorter`
/// occurs in the lower-cased `longer`, every window kept for `longer` is
/// kept for `shorter`.
pub proof fn law_longer_query_keeps_no_more(
    ws: Seq<WindowInfo>,
    shorter: Seq<char>,
    longer: Seq<char>,
)
    requires
        contains_seq(spec_to_lowercase(longer), spec_to_lowercase(shorter)),
    ensures
        forall|w: WindowInfo| #[trigger]
            kept_for(ws, longer).contains(w) ==> kept_for(ws, shorter).contains(w),
{
    let p_long = |v: WindowInfo| title_matches(v.title@, longer);
    let p_short = |v: WindowInfo| title_matches(v.title@, shorter);
    assert(kept_for(ws, longer) == ws.filter(p_long));
    assert(kept_for(ws, shorter) == ws.filter(p_short));
    assert forall|w: WindowInfo| #[trigger] kept_for(ws, longer).contains(w) implies kept_for(
        ws,
        shorter,
    ).contains(w) by {
        let k = choose|k: int| 0 <= k < ws.filter(p_long).len() && ws.filter(p_long)[k] == w;
        ws.lemma_filter_pred(p_long, k);
        ws.lemma_filter_contains_rev(p_long, w);
        let i = choose|i: int| 0 <= i < ws.len() && ws[i] == w;
        lemma_contains_trans(
            spec_to_lowercase(w.title@),
            spec_to_lowercase(longer),
            spec_to_lowercase(shorter),
        );
        ws.lemma_filter_contains(p_short, i);
    }
}

proof fn lemma_filter_cons(x: WindowInfo, s: Seq<WindowInfo>, pred: spec_fn(WindowInfo) -> bool)
    ensures
        (seq![x] + s).filter(pred) == if pred(x) {
            seq![x] + s.filter(pred)
        } else {
            s.filter(pred)
        },
    decreases s.len(),
{
    reveal(Seq::filter);
    if s.len() == 0 {
        assert(seq![x] + s =~= Seq::<WindowInfo>::empty().push(x));
        Seq::<WindowInfo>::empty().lemma_filter_push(x, pred);
        assert(Seq::<WindowInfo>::empty().filter(pred) =~= Seq::<WindowInfo>::empty());
        assert(s =~= Seq::<WindowInfo>::empty());
        if pred(x) {
            assert(seq![x] + s.filter(pred) =~= Seq::<WindowInfo>::empty().push(x));
        }
    } else {
        let s0 = s.drop_last();
        lemma_filter_cons(x, s0, pred);
        assert(seq![x] + s =~= (seq![x] + s0).push(s.last()));
        assert(s =~= s0.push(s.last()));
        (seq![x] + s0).lemma_filter_push(s.last(), pred);
        s0.lemma_filter_push(s.last(), pred);
        if pred(x) {
            assert(seq![x] + s0.filter(pred).push(s.last()) =~= (seq![x] + s0.filter(pred)).push(
                s.last(),
            ));
        }
    }
}

// ---------------------------------------------------------------------------
// Keyboard shortcuts on Windows
// ---------------------------------------------------------------------------
pub const VK_CONTROL: u8 = 0x11;

pub const VK_MENU: u8 = 0x12;

pub const VK_TAB: u8 = 0x09;

/// One key transition: the virtual-key code, pressed or released.
#[derive(Debug, Clone, Copy, PartialEq, Eq)]
pub struct KeyEvent {
    pub key: u8,
    pub key_up: bool,
}

/// What one `+`-separated part of a shortcut contributes on Windows:
/// `ctrl` and `alt` add a modifier, `tab`, a digit or a letter sets the key
/// (letters as their upper-case code); anything else is ignored.
pub open spec fn win_part(mods: Seq<u8>, key: Option<u8>, part: Seq<char>) -> (Seq<u8>, Option<u8>) {
    if part == "ctrl"@ {
        (mods.push(VK_CONTROL), key)
    } else if part == "alt"@ {
        (mods.push(VK_MENU), key)
    } else if part == "tab"@ {
        (mods, Some(VK_TAB))
    } else if part.len() == 1 && '0' <= part[0] <= '9' {
        (mods, Some(part[0] as u8))
    } else if part.len() == 1 && 'a' <= part[0] <= 'z' {
        (mods, Some(((part[0] as u32) - 32) as u8))
    } else if part.len() == 1 && 'A' <= part[0] <= 'Z' {
        (mods, Some(part[0] as u8))
    } else {
        (mods, key)
    }
}

/// The modifiers and key of the parts, read left to right.
pub open spec fn win_scan(parts: Seq<Seq<char>>) -> (Seq<u8>, Option<u8>)
    decreases parts.len(),
{
    if parts.len() == 0 {
        (Seq::empty(), None)
    } else {
        let prev = win_scan(parts.drop_last());
        win_part(prev.0, prev.1, trim_seq(parts.last()))
    }
}

pub open spec fn down(k: u8) -> KeyEvent {
    KeyEvent { key: k, key_up: false }
}

pub open spec fn up(k: u8) -> KeyEvent {
    KeyEvent { key: k, key_up: true }
}

/// Modifiers pressed in order, the key pressed and released, modifiers
/// released in reverse order; nothing without a key.
pub open spec fn key_events(mods: Seq<u8>, key: Option<u8>) -> Seq<KeyEvent> {
    match key {
        None => Seq::empty(),
        Some(k) => mods.map_values(|m: u8| down(m)) + seq![down(k), up(k)] + mods.reverse().map_values(
            |m: u8| up(m),
        ),
    }
}

/// The key events a shortcut such as `ctrl+3` or `ctrl+tab` sends on
/// Windows: the shortcut is lower-cased and split at `+`, each part trimmed.
pub fn send_key_combo(combo: &str) -> (r: Vec<KeyEvent>)
    ensures
        ({
            let (mods, key) = win_scan(split_seq(spec_to_lowercase(combo@), '+'));
            r@ == key_events(mods, key)
        }),
{
    let lower = chars_of(to_lowercase(combo).as_str());
    let parts = split_chars(&lower, '+');
    let ghost pv = chars_view_seq(parts@);
    let mut mods: Vec<u8> = Vec::new();
    let mut key: Option<u8> = None;
    let mut i: usize = 0;
    assert(pv.take(0) =~= Seq::<Seq<char>>::empty());
    while i < parts.len()
        invariant
            i <= parts@.len(),
            pv == chars_view_seq(parts@),
            (mods@, key) == win_scan(pv.take(i as int)),
        decreases parts.len() - i,
    {
        let part = trim_chars(&parts[i]);
        assert(pv.take(i as int + 1).drop_last() =~= pv.take(i as int));
        assert(pv[i as int] == parts@[i as int]@);
        if eq_str(&part, "ctrl") {
            mods.push(VK_CONTROL);
        } else if eq_str(&part, "alt") {
            mods.push(VK_MENU);
        } else if eq_str(&part, "tab") {
            key = Some(VK_TAB);
        } else if part.len() == 1 && '0' <= part[0] && part[0] <= '9' {
            key = Some(part[0] as u8);
        } else if part.len() == 1 && 'a' <= part[0] && part[0] <= 'z' {
            key = Some(((part[0] as u32) - 32) as u8);
        } else if part.len() == 1 && 'A' <= part[0] && part[0] <= 'Z' {
            key = Some(part[0] as u8);
        }
        i += 1;
    }
    assert(pv.take(parts@.len() as int) =~= pv);
    let mut r: Vec<KeyEvent> = Vec::new();
    match key {
        None => {
            return r;
        },
        Some(k) => {
            let mut j: usize = 0;
            while j < mods.len()
                invariant
                    j <= mods@.len(),
                    r@ == mods@.take(j as int).map_values(|m: u8| down(m)),
                decreases mods.len() - j,
            {
                r.push(KeyEvent { key: mods[j], key_up: false });
                assert(r@ =~= mods@.take(j as int + 1).map_values(|m: u8| down(m)));
                j += 1;
            }
            assert(mods@.take(mods@.len() as int) =~= mods@);
            r.push(KeyEvent { key: k, key_up: false });
            r.push(KeyEvent { key: k, key_up: true });
            let ghost front = r@;
            assert(front =~= mods@.map_values(|m: u8| down(m)) + seq![down(k), up(k)]);
            let mut q: usize = mods.len();
            while q > 0
                invariant
                    q <= mods@.len(),
                    r@ == front + mods@.reverse().take(mods@.len() - q).map_values(
                        |m: u8| up(m),
                    ),
                decreases q,
            {
                r.push(KeyEvent { key: mods[q - 1], key_up: true });
                assert(mods@.reverse()[mods@.len() - q] == mods@[q - 1]);
                assert(r@ =~= front + mods@.reverse().take(mods@.len() - q + 1).map_values(
                    |m: u8| up(m),
                ));
                q -= 1;
            }
            assert(mods@.reverse().take(mods@.len() as int) =~= mods@.reverse());
        },
    }
    r
}

// ---------------------------------------------------------------------------
// Keyboard shortcuts on macOS
// ---------------------------------------------------------------------------
/// The macOS virtual key code of a key name.
pub open spec fn keycode_of(s: Seq<char>) -> Option<u16> {
    if s == "a"@ {
        Some(0)
    } else if s == "s"@ {
        Some(1)
    } else if s == "d"@ {
        Some(2)
    } else if s == "f"@ {
        Some(3)
    } else if s == "h"@ {
        Some(4)
    } else if s == "g"@ {
        Some(5)
    } else if s == "z"@ {
        Some(6)
    } else if s == "x"@ {
        Some(7)
    } else if s == "c"@ {
        Some(8)
    } else if s == "v"@ {
        Some(9)
    } else if s == "b"@ {
        Some(11)
    } else if s == "q"@ {
        Some(12)
    } else if s == "w"@ {
        Some(13)
    } else if s == "e"@ {
        Some(14)
    } else if s == "r"@ {
        Some(15)
    } else if s == "y"@ {
        Some(16)
    } else if s == "t"@ {
        Some(17)
    } else if s == "1"@ {
        Some(18)
    } else if s == "2"@ {
        Some(19)
    } else if s == "3"@ {
        Some(20)
    } else if s == "4"@ {
        Some(21)
    } else if s == "6"@ {
        Some(22)
    } else if s == "5"@ {
        Some(23)
    } else if s == "9"@ {
        Some(25)
    } else if s == "7"@ {
        Some(26)
    } else if s == "8"@ {
        Some(28)
    } else if s == "0"@ {
        Some(29)
    } else if s == "o"@ {
        Some(31)
    } else if s == "u"@ {
        Some(32)
    } else if s == "i"@ {
        Some(34)
    } else if s == "p"@ {
        Some(35)
    } else if s == "l"@ {
        Some(37)
    } else if s == "j"@ {
        Some(38)
    } else if s == "k"@ {
        Some(40)
    } else if s == "n"@ {
        Some(45)
    } else if s == "m"@ {
        Some(46)
    } else if s == "tab"@ {
        Some(48)
    } else if s == "return"@ || s == "enter"@ {
        Some(0x24)
    } else if s == "space"@ {
        Some(0x31)
    } else if s == "delete"@ || s == "backspace"@ {
        Some(0x33)
    } else if s == "escape"@ || s == "esc"@ {
        Some(0x35)
    } else if s == "left"@ {
        Some(0x7B)
    } else if s == "right"@ {
        Some(0x7C)
    } else if s == "down"@ {
        Some(0x7D)
    } else if s == "up"@ {
        Some(0x7E)
    } else {
        None
    }
}

/// Two key names with the same key code name the same key: the table sends
/// no two different keys as one (only the spelled-out aliases `return` and
/// `enter`, `delete` and `backspace`, `escape` and `esc` share a code).
pub open spec fn same_key(a: Seq<char>, b: Seq<char>) -> bool {
    ||| a == b
    ||| (a == "return"@ || a == "enter"@) && (b == "return"@ || b == "enter"@)
    ||| (a == "delete"@ || a == "backspace"@) && (b == "delete"@ || b == "backspace"@)
    ||| (a == "escape"@ || a == "esc"@) && (b == "escape"@ || b == "esc"@)
}

pub proof fn law_key_codes_tell_keys_apart(a: Seq<char>, b: Seq<char>)
    ensures
        keycode_of(a) is Some && keycode_of(a) == keycode_of(b) ==> same_key(a, b),
{
}

/// Letters and digits get the codes of the keys that carry them on the ANSI
/// keyboard (the `kVK_ANSI_*` constants of macOS).
pub proof fn law_letter_and_digit_codes()
    ensures
        keycode_of("a"@) == Some(0u16),
        keycode_of("b"@) == Some(11u16),
        keycode_of("c"@) == Some(8u16),
        keycode_of("d"@) == Some(2u16),
        keycode_of("e"@) == Some(14u16),
        keycode_of("f"@) == Some(3u16),
        keycode_of("g"@) == Some(5u16),
        keycode_of("h"@) == Some(4u16),
        keycode_of("i"@) == Some(34u16),
        keycode_of("j"@) == Some(38u16),
        keycode_of("k"@) == Some(40u16),
        keycode_of("l"@) == Some(37u16),
        keycode_of("m"@) == Some(46u16),
        keycode_of("n"@) == Some(45u16),
        keycode_of("o"@) == Some(31u16),
        keycode_of("p"@) == Some(35u16),
        keycode_of("q"@) == Some(12u16),
        keycode_of("r"@) == Some(15u16),
        keycode_of("s"@) == Some(1u16),
        keycode_of("t"@) == Some(17u16),
        keycode_of("u"@) == Some(32u16),
        keycode_of("v"@) == Some(9u16),
        keycode_of("w"@) == Some(13u16),
        keycode_of("x"@) == Some(7u16),
        keycode_of("y"@) == Some(16u16),
        keycode_of("z"@) == Some(6u16),
        keycode_of("0"@) == Some(29u16),
        keycode_of("1"@) == Some(18u16),
        keycode_of("2"@) == Some(19u16),
        keycode_of("3"@) == Some(20u16),
        keycode_of("4"@) == Some(21u16),
        keycode_of("5"@) == Some(23u16),
        keycode_of("6"@) == Some(22u16),
        keycode_of("7"@) == Some(26u16),
        keycode_of("8"@) == Some(28u16),
        keycode_of("9"@) == Some(25u16),
{
    reveal_strlit("a");
    assert("a"@ =~= seq!['a']);
    assert("a"@[0] == 'a');
    reveal_strlit("s");
    assert("s"@ =~= seq!['s']);
    assert("s"@[0] == 's');
    reveal_strlit("d");
    assert("d"@ =~= seq!['d']);
    assert("d"@[0] == 'd');
    reveal_strlit("f");
    assert("f"@ =~= seq!['f']);
    assert("f"@[0] == 'f');
    reveal_strlit("h");
    assert("h"@ =~= seq!['h']);
    assert("h"@[0] == 'h');
    reveal_strlit("g");
    assert("g"@ =~= seq!['g']);
    assert("g"@[0] == 'g');
    reveal_strlit("z");
    assert("z"@ =~= seq!['z']);
    assert("z"@[0] == 'z');
    reveal_strlit("x");
    assert("x"@ =~= seq!['x']);
    assert("x"@[0] == 'x');
    reveal_strlit("c");
    assert("c"@ =~= seq!['c']);
    assert("c"@[0] == 'c');
    reveal_strlit("v");
    assert("v"@ =~= seq!['v']);
    assert("v"@[0] == 'v');
    reveal_strlit("b");
    assert("b"@ =~= seq!['b']);
    assert("b"@[0] == 'b');
    reveal_strlit("q");
    assert("q"@ =~= seq!['q']);
    assert("q"@[0] == 'q');
    reveal_strlit("w");
    assert("w"@ =~= seq!['w']);
    assert("w"@[0] == 'w');
    reveal_strlit("e");
    assert("e"@ =~= seq!['e']);
    assert("e"@[0] == 'e');
    reveal_strlit("r");
    assert("r"@ =~= seq!['r']);
    assert("r"@[0] == 'r');
    reveal_strlit("y");
    assert("y"@ =~= seq!['y']);
    assert("y"@[0] == 'y');
    reveal_strlit("t");
    assert("t"@ =~= seq!['t']);
    assert("t"@[0] == 't');
    reveal_strlit("1");
    assert("1"@ =~= seq!['1']);
    assert("1"@[0] == '1');
    reveal_strlit("2");
    assert("2"@ =~= seq!['2']);
    assert("2"@[0] == '2');
    reveal_strlit("3");
    assert("3"@ =~= seq!['3']);
    assert("3"@[0] == '3');
    reveal_strlit("4");
    assert("4"@ =~= seq!['4']);
    assert("4"@[0] == '4');
    reveal_strlit("6");
    assert("6"@ =~= seq!['6']);
    assert("6"@[0] == '6');
    reveal_strlit("5");
    assert("5"@ =~= seq!['5']);
    assert("5"@[0] == '5');
    reveal_strlit("9");
    assert("9"@ =~= seq!['9']);
    assert("9"@[0] == '9');
    reveal_strlit("7");
    assert("7"@ =~= seq!['7']);
    assert("7"@[0] == '7');
    reveal_strlit("8");
    assert("8"@ =~= seq!['8']);
    assert("8"@[0] == '8');
    reveal_strlit("0");
    assert("0"@ =~= seq!['0']);
    assert("0"@[0] == '0');
    reveal_strlit("o");
    assert("o"@ =~= seq!['o']);
    assert("o"@[0] == 'o');
    reveal_strlit("u");
    assert("u"@ =~= seq!['u']);
    assert("u"@[0] == 'u');
    reveal_strlit("i");
    assert("i"@ =~= seq!['i']);
    assert("i"@[0] == 'i');
    reveal_strlit("p");
    assert("p"@ =~= seq!['p']);
    assert("p"@[0] == 'p');
    reveal_strlit("l");
    assert("l"@ =~= seq!['l']);
    assert("l"@[0] == 'l');
    reveal_strlit("j");
    assert("j"@ =~= seq!['j']);
    assert("j"@[0] == 'j');
    reveal_strlit("k");
    assert("k"@ =~= seq!['k']);
    assert("k"@[0] == 'k');
    reveal_strlit("n");
    assert("n"@ =~= seq!['n']);
    assert("n"@[0] == 'n');
    reveal_strlit("m");
    assert("m"@ =~= seq!['m']);
    assert("m"@[0] == 'm');
}

/// Named keys get their macOS codes: tab 48, return (or enter) 36, space
/// 49, delete (or backspace) 51, escape (or esc) 53, and the arrows 123 to
/// 126 (left, right, down, up).
pub proof fn law_named_key_codes()
    ensures
        keycode_of("tab"@) == Some(48u16),
        keycode_of("return"@) == Some(36u16),
        keycode_of("enter"@) == Some(36u16),
        keycode_of("space"@) == Some(49u16),
        keycode_of("delete"@) == Some(51u16),
        keycode_of("backspace"@) == Some(51u16),
        keycode_of("escape"@) == Some(53u16),
        keycode_of("esc"@) == Some(53u16),
        keycode_of("left"@) == Some(123u16),
        keycode_of("right"@) == Some(124u16),
        keycode_of("down"@) == Some(125u16),
        keycode_of("up"@) == Some(126u16),
{
    reveal_strlit("a");
    assert("a"@.len() == 1);
    reveal_strlit("s");
    assert("s"@.len() == 1);
    reveal_strlit("d");
    assert("d"@.len() == 1);
    reveal_strlit("f");
    assert("f"@.len() == 1);
    reveal_strlit("h");
    assert("h"@.len() == 1);
    reveal_strlit("g");
    assert("g"@.len() == 1);
    reveal_strlit("z");
    assert("z"@.len() == 1);
    reveal_strlit("x");
    assert("x"@.len() == 1);
    reveal_strlit("c");
    assert("c"@.len() == 1);
    reveal_strlit("v");
    assert("v"@.len() == 1);
    reveal_strlit("b");
    assert("b"@.len() == 1);
    reveal_strlit("q");
    assert("q"@.len() == 1);
    reveal_strlit("w");
    assert("w"@.len() == 1);
    reveal_strlit("e");
    assert("e"@.len() == 1);
    reveal_strlit("r");
    assert("r"@.len() == 1);
    reveal_strlit("y");
    assert("y"@.len() == 1);
    reveal_strlit("t");
    assert("t"@.len() == 1);
    reveal_strlit("1");
    assert("1"@.len() == 1);
    reveal_strlit("2");
    assert("2"@.len() == 1);
    reveal_strlit("3");
    assert("3"@.len() == 1);
    reveal_strlit("4");
    assert("4"@.len() == 1);
    reveal_strlit("6");
    assert("6"@.len() == 1);
    reveal_strlit("5");
    assert("5"@.len() == 1);
    reveal_strlit("9");
    assert("9"@.len() == 1);
    reveal_strlit("7");
    assert("7"@.len() == 1);
    reveal_strlit("8");
    assert("8"@.len() == 1);
    reveal_strlit("0");
    assert("0"@.len() == 1);
    reveal_strlit("o");
    assert("o"@.len() == 1);
    reveal_strlit("u");
    assert("u"@.len() == 1);
    reveal_strlit("i");
    assert("i"@.len() == 1);
    reveal_strlit("p");
    assert("p"@.len() == 1);
    reveal_strlit("l");
    assert("l"@.len() == 1);
    reveal_strlit("j");
    assert("j"@.len() == 1);
    reveal_strlit("k");
    assert("k"@.len() == 1);
    reveal_strlit("n");
    assert("n"@.len() == 1);
    reveal_strlit("m");
    assert("m"@.len() == 1);
    reveal_strlit("tab");
    assert("tab"@.len() == 3 && "tab"@[0] == 't' && "tab"@[1] == 'a');
    reveal_strlit("return");
    assert("return"@.len() == 6 && "return"@[0] == 'r' && "return"@[1] == 'e');
    reveal_strlit("enter");
    assert("enter"@.len() == 5 && "enter"@[0] == 'e' && "enter"@[1] == 'n');
    reveal_strlit("space");
    assert("space"@.len() == 5 && "space"@[0] == 's' && "space"@[1] == 'p');
    reveal_strlit("delete");
    assert("delete"@.len() == 6 && "delete"@[0] == 'd' && "delete"@[1] == 'e');
    reveal_strlit("backspace");
    assert("backspace"@.len() == 9 && "backspace"@[0] == 'b' && "backspace"@[1] == 'a');
    reveal_strlit("escape");
    assert("escape"@.len() == 6 && "escape"@[0] == 'e' && "escape"@[1] == 's');
    reveal_strlit("esc");
    assert("esc"@.len() == 3 && "esc"@[0] == 'e' && "esc"@[1] == 's');
    reveal_strlit("left");
    assert("left"@.len() == 4 && "left"@[0] == 'l' && "left"@[1] == 'e');
    reveal_strlit("right");
    assert("right"@.len() == 5 && "right"@[0] == 'r' && "right"@[1] == 'i');
    reveal_strlit("down");
    assert("down"@.len() == 4 && "down"@[0] == 'd' && "down"@[1] == 'o');
    reveal_strlit("up");
    assert("up"@.len() == 2 && "up"@[0] == 'u' && "up"@[1] == 'p');
}

/// Maps a key character or name to its macOS virtual key code.
pub fn char_to_keycode(s: &str) -> (r: Option<u16>)
    ensures
        r == keycode_of(s@),
{
    let v = chars_of(s);
    keycode_of_chars(&v)
}

fn keycode_of_chars(v: &Vec<char>) -> (r: Option<u16>)
    ensures
        r == keycode_of(v@),
{
    if eq_str(v, "a") {
        Some(0)
    } else if eq_str(v, "s") {
        Some(1)
    } else if eq_str(v, "d") {
        Some(2)
    } else if eq_str(v, "f") {
        Some(3)
    } else if eq_str(v, "h") {
        Some(4)
    } else if eq_str(v, "g") {
        Some(5)
    } else if eq_str(v, "z") {
        Some(6)
    } else if eq_str(v, "x") {
        Some(7)
    } else if eq_str(v, "c") {
        Some(8)
    } else if eq_str(v, "v") {
        Some(9)
    } else if eq_str(v, "b") {
        Some(11)
    } else if eq_str(v, "q") {
        Some(12)
    } else if eq_str(v, "w") {
        Some(13)
    } else if eq_str(v, "e") {
        Some(14)
    } else if eq_str(v, "r") {
        Some(15)
    } else if eq_str(v, "y") {
        Some(16)
    } else if eq_str(v, "t") {
        Some(17)
    } else if eq_str(v, "1") {
        Some(18)
    } else if eq_str(v, "2") {
        Some(19)
    } else if eq_str(v, "3") {
        Some(20)
    } else if eq_str(v, "4") {
        Some(21)
    } else if eq_str(v, "6") {
        Some(22)
    } else if eq_str(v, "5") {
        Some(23)
    } else if eq_str(v, "9") {
        Some(25)
    } else if eq_str(v, "7") {
        Some(26)
    } else if eq_str(v, "8") {
        Some(28)
    } else if eq_str(v, "0") {
        Some(29)
    } else if eq_str(v, "o") {
        Some(31)
    } else if eq_str(v, "u") {
        Some(32)
    } else if eq_str(v, "i") {
        Some(34)
    } else if eq_str(v, "p") {
        Some(35)
    } else if eq_str(v, "l") {
        Some(37)
    } else if eq_str(v, "j") {
        Some(38)
    } else if eq_str(v, "k") {
        Some(40)
    } else if eq_str(v, "n") {
        Some(45)
    } else if eq_str(v, "m") {
        Some(46)
    } else if eq_str(v, "tab") {
        Some(48)
    } else if eq_str(v, "return") || eq_str(v, "enter") {
        Some(0x24)
    } else if eq_str(v, "space") {
        Some(0x31)
    } else if eq_str(v, "delete") || eq_str(v, "backspace") {
        Some(0x33)
    } else if eq_str(v, "escape") || eq_str(v, "esc") {
        Some(0x35)
    } else if eq_str(v, "left") {
        Some(0x7B)
    } else if eq_str(v, "right") {
        Some(0x7C)
    } else if eq_str(v, "down") {
        Some(0x7D)
    } else if eq_str(v, "up") {
        Some(0x7E)
    } else {
        None
    }
}

/// A macOS key press: the key and the modifier flags held with it.
#[derive(Debug, Clone, Copy, PartialEq, Eq)]
pub struct MacKeyPress {
    pub keycode: u16,
    pub control: bool,
    pub command: bool,
    pub alternate: bool,
    pub shift: bool,
}

/// Modifier flags and key gathered so far while reading a macOS shortcut.
pub struct MacScan {
    pub control: bool,
    pub command: bool,
    pub alternate: bool,
    pub shift: bool,
    pub key: Option<u16>,
}

/// What one part contributes on macOS: modifier names set their flag; the
/// first other part that names a key sets the key.
pub open spec fn mac_part(st: MacScan, part: Seq<char>) -> MacScan {
    if part == "ctrl"@ || part == "control"@ {
        MacScan { control: true, ..st }
    } else if part == "cmd"@ || part == "command"@ || part == "meta"@ {
        MacScan { command: true, ..st }
    } else if part == "alt"@ || part == "option"@ {
        MacScan { alternate: true, ..st }
    } else if part == "shift"@ {
        MacScan { shift: true, ..st }
    } else if st.key is None {
        MacScan { key: keycode_of(part), ..st }
    } else {
        st
    }
}

pub open spec fn mac_scan(parts: Seq<Seq<char>>) -> MacScan
    decreases parts.len(),
{
    if parts.len() == 0 {
        MacScan { control: false, command: false, alternate: false, shift: false, key: None }
    } else {
        mac_part(mac_scan(parts.drop_last()), trim_seq(parts.last()))
    }
}

/// The key press a shortcut such as `cmd+shift+t` sends on macOS; none when
/// no part names a key.
pub fn mac_key_combo(combo: &str) -> (r: Option<MacKeyPress>)
    ensures
        ({
            let st = mac_scan(split_seq(spec_to_lowercase(combo@), '+'));
            match st.key {
                None => r is None,
                Some(k) => r == Some(
                    MacKeyPress {
                        keycode: k,
                        control: st.control,
                        command: st.command,
                        alternate: st.alternate,
                        shift: st.shift,
                    },
                ),
            }
        }),
{
    let lower = chars_of(to_lowercase(combo).as_str());
    let parts = split_chars(&lower, '+');
    let ghost pv = chars_view_seq(parts@);
    let mut control = false;
    let mut command = false;
    let mut alternate = false;
    let mut shift = false;
    let mut key: Option<u16> = None;
    let mut i: usize = 0;
    assert(pv.take(0) =~= Seq::<Seq<char>>::empty());
    while i < parts.len()
        invariant
            i <= parts@.len(),
            pv == chars_view_seq(parts@),
            mac_scan(pv.take(i as int)) == (MacScan { control, command, alternate, shift, key }),
        decreases parts.len() - i,
    {
        let part = trim_chars(&parts[i]);
        assert(pv.take(i as int + 1).drop_last() =~= pv.take(i as int));
        assert(pv[i as int] == parts@[i as int]@);
        if eq_str(&part, "ctrl") || eq_str(&part, "control") {
            control = true;
        } else if eq_str(&part, "cmd") || eq_str(&part, "command") || eq_str(&part, "meta") {
            command = true;
        } else if eq_str(&part, "alt") || eq_str(&part, "option") {
            alternate = true;
        } else if eq_str(&part, "shift") {
            shift = true;
        } else if key.is_none() {
            key = keycode_of_chars(&part);
        }
        i += 1;
    }
    assert(pv.take(parts@.len() as int) =~= pv);
    match key {
        Some(k) => Some(MacKeyPress { keycode: k, control, command, alternate, shift }),
        None => None,
    }
}

} // verus!
