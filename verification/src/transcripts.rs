//! Names of recorded chunk and transcript files, and the listing of
//! transcripts by application and time.
use vstd::prelude::*;

use crate::datetime::{
    date_time_from_unix_nanos, field, parse_rfc3339, rfc3339_date_time, rfc3339_or_display,
    rfc3339_plain, utc_date_time, valid_calendar, whole_second_utc, DateTime, DateTimeView,
};
use crate::retention::{extension_of, has_extension, lex_le, names_view};
use crate::text::{
    all_digits, chars_of, concat_chars, contains_seq, dec_seq, digit_char, digit_val,
    digits_value, ends_with_chars, ends_with_seq, int_dec_seq, is_ascii_seq, matches_at, occurs_at,
    pad2_seq, push_i64_dec, push_pad2, string_of,
};

verus! {

broadcast use {vstd::seq_lib::group_to_multiset_ensures, vstd::multiset::group_multiset_axioms};

// ---------------------------------------------------------------------------
// Replacing text
// ---------------------------------------------------------------------------
/// `str::replace` with a non-empty pattern: every occurrence, scanning left
/// to right without overlap, is replaced.
pub open spec fn replace_seq(s: Seq<char>, from: Seq<char>, to: Seq<char>) -> Seq<char>
    decreases s.len(),
{
    if from.len() == 0 || s.len() == 0 {
        s
    } else if occurs_at(s, from, 0) {
        to + replace_seq(s.skip(from.len() as int), from, to)
    } else {
        seq![s[0]] + replace_seq(s.drop_first(), from, to)
    }
}

/// `s` with every occurrence of the non-empty `from` replaced by `to`.
pub fn replace_all(s: &str, from: &str, to: &str) -> (r: String)
    requires
        from@.len() > 0,
    ensures
        r@ == replace_seq(s@, from@, to@),
{
    let v = chars_of(s);
    let f = chars_of(from);
    let t = chars_of(to);
    let mut out: Vec<char> = Vec::new();
    let mut i: usize = 0;
    assert(v@.skip(0) =~= v@);
    while i < v.len()
        invariant
            i <= v@.len(),
            v@ == s@,
            f@ == from@,
            t@ == to@,
            f@.len() > 0,
            out@ + replace_seq(v@.skip(i as int), f@, t@) == replace_seq(v@, f@, t@),
        decreases v.len() - i,
    {
        let ghost rest = v@.skip(i as int);
        let m = matches_at(&v, &f, i);
        assert(occurs_at(v@, f@, i as int) == occurs_at(rest, f@, 0)) by {
            if i + f@.len() <= v@.len() {
                assert(v@.subrange(i as int, i + f@.len()) =~= rest.subrange(0, f@.len() as int));
            }
        }
        if m {
            assert(rest.skip(f@.len() as int) =~= v@.skip(i + f@.len()));
            let ghost before = out@;
            out = concat_chars(&out, &t);
            assert(out@ + replace_seq(v@.skip(i + f@.len()), f@, t@) =~= before + (t@
                + replace_seq(rest.skip(f@.len() as int), f@, t@)));
            i = i + f.len();
        } else {
            assert(rest.drop_first() =~= v@.skip(i + 1));
            assert(rest[0] == v@[i as int]);
            let ghost before = out@;
            out.push(v[i]);
            assert(out@ + replace_seq(v@.skip(i + 1), f@, t@) =~= before + (seq![rest[0]]
                + replace_seq(rest.drop_first(), f@, t@)));
            i = i + 1;
        }
    }
    assert(v@.skip(i as int).len() == 0);
    assert(out@ + replace_seq(v@.skip(i as int), f@, t@) =~= out@);
    string_of(&out)
}

// ---------------------------------------------------------------------------
// File names
// ---------------------------------------------------------------------------
/// `<app>_<YYYY><MM><DD>T<hh><mm><ss>.txt` for the chunk start time.
pub open spec fn transcript_name(app: Seq<char>, t: DateTimeView) -> Seq<char> {
    app + seq!['_'] + int_dec_seq(t.year as int) + pad2_seq(t.month as nat) + pad2_seq(
        t.day as nat,
    ) + seq!['T'] + pad2_seq(t.hour as nat) + pad2_seq(t.minute as nat) + pad2_seq(
        t.second as nat,
    ) + ".txt"@
}

/// The transcript file name of a chunk.
pub fn transcript_file_name(app_name: &str, chunk_started_at: &DateTime) -> (r: String)
    ensures
        r@ == transcript_name(app_name@, chunk_started_at@),
{
    let mut v = chars_of(app_name);
    v.push('_');
    push_i64_dec(&mut v, chunk_started_at.year as i64);
    push_pad2(&mut v, chunk_started_at.month as u64);
    push_pad2(&mut v, chunk_started_at.day as u64);
    v.push('T');
    push_pad2(&mut v, chunk_started_at.hour as u64);
    push_pad2(&mut v, chunk_started_at.minute as u64);
    push_pad2(&mut v, chunk_started_at.second as u64);
    let r = concat_chars(&v, &chars_of(".txt"));
    assert(r@ =~= transcript_name(app_name@, chunk_started_at@));
    string_of(&r)
}

/// The chunk file name: the transcript name with every `.txt` turned into
/// `.wav`.
pub fn wav_file_name(app_name: &str, chunk_started_at: &DateTime) -> (r: String)
    ensures
        r@ == replace_seq(transcript_name(app_name@, chunk_started_at@), ".txt"@, ".wav"@),
{
    proof {
        reveal_strlit(".txt");
    }
    let t = transcript_file_name(app_name, chunk_started_at);
    replace_all(t.as_str(), ".txt", ".wav")
}

/// The chunk file that belongs to a transcript file.
pub fn wav_name_for(transcript_id: &str) -> (r: String)
    ensures
        r@ == replace_seq(transcript_id@, ".txt"@, ".wav"@),
{
    proof {
        reveal_strlit(".txt");
    }
    replace_all(transcript_id, ".txt", ".wav")
}

// ---------------------------------------------------------------------------
// Chunk start times
// ---------------------------------------------------------------------------
/// The Unix time in milliseconds at which chunk `index` starts: the tap's
/// start plus `index` chunk lengths (an index beyond `i64` counts as 0),
/// saturating at the bounds of `i64`.
pub open spec fn chunk_start_ms(started_ms: i64, chunk_seconds: u16, index: u64) -> i64 {
    let i = if index <= i64::MAX {
        index as int
    } else {
        0
    };
    let t = started_ms + chunk_seconds * 1000 * i;
    if t > i64::MAX {
        i64::MAX
    } else if t < i64::MIN {
        i64::MIN
    } else {
        t as i64
    }
}

/// The start time of chunk `chunk_index`; an error when the time cannot be
/// represented.
pub fn chunk_started_at(started_ms: i64, chunk_seconds: u16, chunk_index: u64) -> (r: Result<
    DateTime,
    String,
>)
    requires
        chunk_index <= i64::MAX ==> chunk_seconds * 1000 * chunk_index <= i64::MAX,
    ensures
        ({
            let nanos = chunk_start_ms(started_ms, chunk_seconds, chunk_index) * 1_000_000;
            &&& r is Ok <==> utc_date_time(nanos as i128) is Some
            &&& r matches Ok(t) ==> utc_date_time(nanos as i128) == Some(t@)
            &&& r matches Ok(t) ==> t.unix_nanos == nanos && t.offset_seconds == 0
                && valid_calendar(
                t.year as int,
                t.month as int,
                t.day as int,
                t.hour as int,
                t.minute as int,
                t.second as int,
            )
            &&& r matches Err(e) ==> "chunk timestamp: "@.is_prefix_of(e@)
        }),
{
    let index: i64 = if chunk_index <= i64::MAX as u64 {
        chunk_index as i64
    } else {
        0
    };
    assert(0 <= (chunk_seconds as int) * 1000 * index <= i64::MAX) by (nonlinear_arith)
        requires
            index <= i64::MAX,
            index >= 0,
            chunk_index <= i64::MAX ==> chunk_seconds * 1000 * chunk_index <= i64::MAX,
            index == 0 || index == chunk_index,
    ;
    let offset_ms: i64 = (chunk_seconds as i64) * 1000 * index;
    let timestamp_ms: i64 = if started_ms > i64::MAX - offset_ms {
        i64::MAX
    } else {
        started_ms + offset_ms
    };
    assert(timestamp_ms == chunk_start_ms(started_ms, chunk_seconds, chunk_index));
    let nanos: i128 = (timestamp_ms as i128) * 1_000_000;
    match date_time_from_unix_nanos(nanos) {
        Ok(t) => Ok(t),
        Err(e) => {
            let msg = concat_chars(&chars_of("chunk timestamp: "), &chars_of(e.as_str()));
            assert(msg@.subrange(0, "chunk timestamp: "@.len() as int) =~= "chunk timestamp: "@);
            Err(string_of(&msg))
        },
    }
}

// ---------------------------------------------------------------------------
// Reading names back
// ---------------------------------------------------------------------------
/// Position of the first `c` in `s`, or -1.
pub open spec fn index_of_char(s: Seq<char>, c: char) -> int
    decreases s.len(),
{
    if s.len() == 0 {
        -1
    } else if s[0] == c {
        0
    } else {
        let k = index_of_char(s.drop_first(), c);
        if k < 0 {
            -1
        } else {
            k + 1
        }
    }
}

proof fn lemma_index_of_char(s: Seq<char>, c: char)
    ensures
        -1 <= index_of_char(s, c) < s.len(),
        index_of_char(s, c) >= 0 ==> s[index_of_char(s, c)] == c,
        forall|j: int|
            0 <= j < s.len() && (index_of_char(s, c) < 0 || j < index_of_char(s, c))
                ==> #[trigger] s[j] != c,
    decreases s.len(),
{
    if s.len() > 0 && s[0] != c {
        lemma_index_of_char(s.drop_first(), c);
        assert forall|j: int|
            0 <= j < s.len() && (index_of_char(s, c) < 0 || j < index_of_char(s, c))
                implies #[trigger] s[j] != c by {
            if j > 0 {
                assert(s.drop_first()[j - 1] == s[j]);
            }
        }
    }
}

/// The name without its `.txt` or `.wav` ending.
pub open spec fn stem_of(name: Seq<char>) -> Option<Seq<char>> {
    if ends_with_seq(name, ".txt"@) || ends_with_seq(name, ".wav"@) {
        Some(name.take(name.len() - 4))
    } else {
        None
    }
}

/// The application (before the first `_` of the stem) and the timestamp
/// text (after it).
pub open spec fn name_parts(name: Seq<char>) -> Option<(Seq<char>, Seq<char>)> {
    match stem_of(name) {
        None => None,
        Some(stem) => {
            let i = index_of_char(stem, '_');
            if i < 0 {
                None
            } else {
                Some((stem.take(i), stem.skip(i + 1)))
            }
        },
    }
}

/// `YYYYMMDDThhmmss` rewritten as `YYYY-MM-DDThh:mm:ssZ`.
pub open spec fn iso_of(ts: Seq<char>) -> Seq<char> {
    ts.subrange(0, 4) + seq!['-'] + ts.subrange(4, 6) + seq!['-'] + ts.subrange(6, 8) + seq!['T']
        + ts.subrange(9, 11) + seq![':'] + ts.subrange(11, 13) + seq![':'] + ts.subrange(13, 15)
        + seq!['Z']
}

/// Reading the timestamp text by byte positions would split a character:
/// the text is 15 bytes long and one of the cut positions falls inside a
/// multi-byte character.
pub open spec fn slicing_splits_char(ts: Seq<char>) -> bool {
    let b = vstd::utf8::encode_utf8(ts);
    b.len() == 15 && !(vstd::utf8::is_char_boundary(b, 4) && vstd::utf8::is_char_boundary(b, 6)
        && vstd::utf8::is_char_boundary(b, 8) && vstd::utf8::is_char_boundary(b, 9)
        && vstd::utf8::is_char_boundary(b, 11) && vstd::utf8::is_char_boundary(b, 13))
}

/// The application and start time a chunk or transcript name records: a
/// 15-character ASCII timestamp that is a valid UTC time. (A timestamp text
/// with other characters cannot be read as a time.)
pub open spec fn timestamped(name: Seq<char>) -> Option<(Seq<char>, DateTimeView)> {
    match name_parts(name) {
        None => None,
        Some((app, ts)) => if is_ascii_seq(ts) && ts.len() == 15 {
            match rfc3339_date_time(iso_of(ts)) {
                Some(t) => Some((app, t)),
                None => None,
            }
        } else {
            None
        },
    }
}

fn all_ascii(v: &Vec<char>) -> (b: bool)
    ensures
        b == is_ascii_seq(v@),
{
    let mut i: usize = 0;
    while i < v.len()
        invariant
            i <= v@.len(),
            forall|j: int| 0 <= j < i ==> (#[trigger] v@[j] as u32) < 128,
        decreases v.len() - i,
    {
        if (v[i] as u32) >= 128 {
            return false;
        }
        i += 1;
    }
    true
}

fn sub_chars(v: &Vec<char>, a: usize, b: usize) -> (r: Vec<char>)
    requires
        a <= b <= v@.len(),
    ensures
        r@ == v@.subrange(a as int, b as int),
{
    let mut r: Vec<char> = Vec::new();
    let mut i = a;
    while i < b
        invariant
            a <= i <= b <= v@.len(),
            r@ == v@.subrange(a as int, i as int),
        decreases b - i,
    {
        r.push(v[i]);
        i += 1;
    }
    r
}

/// Splits a name into application and timestamp text.
fn split_name(name: &Vec<char>) -> (r: Option<(Vec<char>, Vec<char>)>)
    ensures
        match r {
            Some((a, t)) => name_parts(name@) == Some((a@, t@)),
            None => name_parts(name@) is None,
        },
{
    proof {
        reveal_strlit(".txt");
        reveal_strlit(".wav");
    }
    let txt = chars_of(".txt");
    let wav = chars_of(".wav");
    if !(ends_with_chars(name, &txt) || ends_with_chars(name, &wav)) {
        return None;
    }
    let n = name.len() - 4;
    let stem = sub_chars(name, 0, n);
    assert(stem@ =~= name@.take(n as int));
    proof {
        lemma_index_of_char(stem@, '_');
    }
    let mut i: usize = 0;
    while i < stem.len() && stem[i] != '_'
        invariant
            i <= stem@.len(),
            forall|j: int| 0 <= j < i ==> stem@[j] != '_',
            -1 <= index_of_char(stem@, '_') < stem@.len(),
            index_of_char(stem@, '_') >= 0 ==> stem@[index_of_char(stem@, '_')] == '_',
            forall|j: int|
                0 <= j < stem@.len() && (index_of_char(stem@, '_') < 0 || j < index_of_char(
                    stem@,
                    '_',
                )) ==> #[trigger] stem@[j] != '_',
        decreases stem.len() - i,
    {
        i += 1;
    }
    if i == stem.len() {
        proof {
            if index_of_char(stem@, '_') >= 0 {
                assert(stem@[index_of_char(stem@, '_')] != '_');
            }
        }
        return None;
    }
    assert(index_of_char(stem@, '_') == i) by {
        if index_of_char(stem@, '_') < 0 || (i as int) < index_of_char(stem@, '_') {
            assert(stem@[i as int] != '_');
        }
    }
    let app = sub_chars(&stem, 0, i);
    let ts = sub_chars(&stem, i + 1, stem.len());
    assert(app@ =~= stem@.take(i as int));
    assert(ts@ =~= stem@.skip(i + 1));
    Some((app, ts))
}

/// A name's timestamp text `YYYYMMDD?hhmmss` in its plain form: ASCII, with
/// digits for the date and the time of day, and seconds below 60.
pub open spec fn stamp_plain(ts: Seq<char>) -> bool {
    &&& ts.len() == 15
    &&& is_ascii_seq(ts)
    &&& all_digits(ts.subrange(0, 8))
    &&& all_digits(ts.subrange(9, 15))
    &&& field(ts, 13, 15) < 60
}

/// The date and time of day a plain timestamp text writes exist.
pub open spec fn stamp_valid(ts: Seq<char>) -> bool {
    valid_calendar(
        field(ts, 0, 4),
        field(ts, 4, 6),
        field(ts, 6, 8),
        field(ts, 9, 11),
        field(ts, 11, 13),
        field(ts, 13, 15),
    )
}

/// The point is the one a plain timestamp text writes: those calendar
/// fields, no fraction of a second, UTC.
pub open spec fn reads_stamp(t: DateTimeView, ts: Seq<char>) -> bool {
    whole_second_utc(
        t,
        field(ts, 0, 4),
        field(ts, 4, 6),
        field(ts, 6, 8),
        field(ts, 9, 11),
        field(ts, 11, 13),
        field(ts, 13, 15),
    )
}

proof fn lemma_iso_of_plain(ts: Seq<char>)
    requires
        stamp_plain(ts),
    ensures
        rfc3339_plain(iso_of(ts)),
        field(iso_of(ts), 0, 4) == field(ts, 0, 4),
        field(iso_of(ts), 5, 7) == field(ts, 4, 6),
        field(iso_of(ts), 8, 10) == field(ts, 6, 8),
        field(iso_of(ts), 11, 13) == field(ts, 9, 11),
        field(iso_of(ts), 14, 16) == field(ts, 11, 13),
        field(iso_of(ts), 17, 19) == field(ts, 13, 15),
{
    let iso = iso_of(ts);
    assert(iso.subrange(0, 4) =~= ts.subrange(0, 4));
    assert(iso.subrange(5, 7) =~= ts.subrange(4, 6));
    assert(iso.subrange(8, 10) =~= ts.subrange(6, 8));
    assert(iso.subrange(11, 13) =~= ts.subrange(9, 11));
    assert(iso.subrange(14, 16) =~= ts.subrange(11, 13));
    assert(iso.subrange(17, 19) =~= ts.subrange(13, 15));
    assert forall|i: int| 0 <= i < 8 implies crate::text::is_digit(#[trigger] ts[i]) by {
        assert(ts[i] == ts.subrange(0, 8)[i]);
    }
    assert forall|i: int| 9 <= i < 15 implies crate::text::is_digit(#[trigger] ts[i]) by {
        assert(ts[i] == ts.subrange(9, 15)[i - 9]);
    }
    assert(all_digits(iso.subrange(0, 4)));
    assert(all_digits(iso.subrange(5, 7)));
    assert(all_digits(iso.subrange(8, 10)));
    assert(all_digits(iso.subrange(11, 13)));
    assert(all_digits(iso.subrange(14, 16)));
    assert(all_digits(iso.subrange(17, 19)));
}

/// The application and start time recorded in a chunk or transcript name,
/// `<app>_<YYYYMMDD>T<hhmmss>.txt` (or `.wav`).
pub fn parse_timestamped_name(filename: &str) -> (r: Option<(String, DateTime)>)
    requires
        name_parts(filename@) matches Some((_, ts)) ==> !slicing_splits_char(ts),
    ensures
        match r {
            Some((app, t)) => timestamped(filename@) == Some((app@, t@)),
            None => timestamped(filename@) is None,
        },
        name_parts(filename@) matches Some((_, ts)) ==> (stamp_plain(ts) ==> ((r is Some
            <==> stamp_valid(ts)) && (r matches Some((_, t)) ==> reads_stamp(t@, ts)))),
{
    let name = chars_of(filename);
    let (app, ts) = match split_name(&name) {
        Some(p) => p,
        None => return None,
    };
    if !(all_ascii(&ts) && ts.len() == 15) {
        return None;
    }
    let mut iso = sub_chars(&ts, 0, 4);
    iso.push('-');
    iso = concat_chars(&iso, &sub_chars(&ts, 4, 6));
    iso.push('-');
    iso = concat_chars(&iso, &sub_chars(&ts, 6, 8));
    iso.push('T');
    iso = concat_chars(&iso, &sub_chars(&ts, 9, 11));
    iso.push(':');
    iso = concat_chars(&iso, &sub_chars(&ts, 11, 13));
    iso.push(':');
    iso = concat_chars(&iso, &sub_chars(&ts, 13, 15));
    iso.push('Z');
    assert(iso@ =~= iso_of(ts@));
    proof {
        if stamp_plain(ts@) {
            lemma_iso_of_plain(ts@);
        }
    }
    let iso_text = string_of(&iso);
    match parse_rfc3339(iso_text.as_str()) {
        Ok(t) => Some((string_of(&app), t)),
        Err(_) => None,
    }
}

/// Tells whether `parse_timestamped_name` may be given the name (reading its
/// timestamp splits no character).
pub fn name_is_readable(filename: &str) -> (b: bool)
    ensures
        b == (name_parts(filename@) matches Some((_, ts)) ==> !slicing_splits_char(ts)),
{
    let name = chars_of(filename);
    match split_name(&name) {
        None => true,
        Some((_, ts)) => {
            let text = string_of(&ts);
            let s = text.as_str();
            let bytes = s.as_bytes();
            if bytes.len() != 15 {
                return true;
            }
            s.is_char_boundary(4) && s.is_char_boundary(6) && s.is_char_boundary(8)
                && s.is_char_boundary(9) && s.is_char_boundary(11) && s.is_char_boundary(13)
        },
    }
}

/// The optional lower bound of a listing, read as RFC 3339.
pub fn parse_since(since: Option<&str>) -> (r: Result<Option<DateTime>, String>)
    ensures
        match since {
            None => r matches Ok(None),
            Some(text) => match rfc3339_date_time(text@) {
                Some(t) => r matches Ok(Some(u)) && u@ == t,
                None => r matches Err(e) && ("invalid since timestamp '"@ + text@
                    + "': "@).is_prefix_of(e@),
            },
        },
{
    match since {
        None => Ok(None),
        Some(text) => match parse_rfc3339(text) {
            Ok(t) => Ok(Some(t)),
            Err(e) => {
                let head = concat_chars(
                    &concat_chars(&chars_of("invalid since timestamp '"), &chars_of(text)),
                    &chars_of("': "),
                );
                let msg = concat_chars(&head, &chars_of(e.as_str()));
                assert(msg@.subrange(0, head@.len() as int) =~= head@);
                Err(string_of(&msg))
            },
        },
    }
}

// ---------------------------------------------------------------------------
// Listing
// ---------------------------------------------------------------------------
/// A transcript file picked for a listing: its name, application and start.
#[derive(Debug, Clone)]
pub struct TranscriptMatch {
    pub id: String,
    pub app: String,
    pub created: DateTime,
}

pub open spec fn match_view(m: TranscriptMatch) -> (Seq<char>, Seq<char>, DateTimeView) {
    (m.id@, m.app@, m.created@)
}

pub open spec fn opt_chars(o: Option<&str>) -> Option<Seq<char>> {
    match o {
        Some(s) => Some(s@),
        None => None,
    }
}

/// A file name is listed: a `.txt` transcript with a readable start, of the
/// requested application, not older than `since`.
pub open spec fn listed(name: Seq<char>, app: Option<Seq<char>>, since: Option<i128>) -> bool {
    &&& extension_of(name) == Some("txt"@)
    &&& timestamped(name) matches Some((entry_app, start))
    &&& (app matches Some(a) ==> entry_app == a)
    &&& (since matches Some(s) ==> start.unix_nanos >= s)
}

/// The listed names with their application and start, in directory order.
pub open spec fn selected(names: Seq<Seq<char>>, app: Option<Seq<char>>, since: Option<i128>) -> Seq<
    (Seq<char>, Seq<char>, DateTimeView),
>
    decreases names.len(),
{
    if names.len() == 0 {
        Seq::empty()
    } else {
        let prev = selected(names.drop_last(), app, since);
        let n = names.last();
        if listed(n, app, since) {
            let (entry_app, start) = timestamped(n)->0;
            prev.push((n, entry_app, start))
        } else {
            prev
        }
    }
}

/// The name may be read back without splitting a character.
pub open spec fn readable_name(name: Seq<char>) -> bool {
    extension_of(name) == Some("txt"@) ==> (name_parts(name) matches Some((_, ts))
        ==> !slicing_splits_char(ts))
}

/// Picks, from the names of a transcript directory, the transcripts of `app`
/// (all applications when none) that started at or after `since`.
pub fn select_transcripts(names: &Vec<String>, app: Option<&str>, since: Option<&DateTime>) -> (r:
    Vec<TranscriptMatch>)
    requires
        forall|i: int|
            0 <= i < names@.len() ==> (#[trigger] names@[i])@.len() < i64::MAX && readable_name(
                names@[i]@,
            ),
    ensures
        r@.map_values(|m: TranscriptMatch| match_view(m)) == selected(
            names_view(names@),
            opt_chars(app),
            match since {
                Some(t) => Some(t.unix_nanos),
                None => None,
            },
        ),
{
    proof {
        reveal_strlit("txt");
    }
    let ghost nv = names_view(names@);
    let ghost ap = opt_chars(app);
    let ghost sn: Option<i128> = match since {
        Some(t) => Some(t.unix_nanos),
        None => None,
    };
    let txt = chars_of("txt");
    let mut r: Vec<TranscriptMatch> = Vec::new();
    let mut i: usize = 0;
    while i < names.len()
        invariant
            i <= names@.len(),
            nv == names_view(names@),
            ap == opt_chars(app),
            sn == (match since {
                Some(t) => Some(t.unix_nanos),
                None => None::<i128>,
            }),
            txt@ == "txt"@,
            forall|k: int|
                0 <= k < names@.len() ==> (#[trigger] names@[k])@.len() < i64::MAX
                    && readable_name(names@[k]@),
            r@.map_values(|m: TranscriptMatch| match_view(m)) == selected(
                nv.take(i as int),
                ap,
                sn,
            ),
        decreases names.len() - i,
    {
        assert(nv.take(i as int + 1).drop_last() =~= nv.take(i as int));
        assert(nv[i as int] == names@[i as int]@);
        assert(nv.take(i as int + 1).last() == names@[i as int]@);
        let name_chars = chars_of(names[i].as_str());
        let ghost before = r@.map_values(|m: TranscriptMatch| match_view(m));
        if has_extension(&name_chars, &txt) {
            assert(readable_name(names@[i as int]@));
            match parse_timestamped_name(names[i].as_str()) {
                Some((entry_app, created)) => {
                    let app_ok = match app {
                        Some(a) => crate::text::str_eq(entry_app.as_str(), a),
                        None => true,
                    };
                    let since_ok = match since {
                        Some(s) => !(created.unix_nanos < s.unix_nanos),
                        None => true,
                    };
                    if app_ok && since_ok {
                        let ghost m = (names@[i as int]@, entry_app@, created@);
                        r.push(TranscriptMatch { id: names[i].clone(), app: entry_app, created });
                        assert(r@.map_values(|m: TranscriptMatch| match_view(m)) =~= before.push(
                            m,
                        ));
                    }
                },
                None => {},
            }
        }
        i += 1;
    }
    assert(nv.take(names@.len() as int) =~= nv);
    r
}

#[derive(Debug, Clone, PartialEq, Eq)]
pub struct TranscriptEntry {
    pub id: String,
    pub app: String,
    pub created_at: String,
    pub wav_path: Option<String>,
    pub transcript_path: String,
}

/// The listing entry of a picked transcript: its start written in RFC 3339
/// (its display text when it has none), and the paths found for it.
pub fn transcript_entry(m: TranscriptMatch, wav_path: Option<String>, transcript_path: String) -> (r:
    TranscriptEntry)
    ensures
        r.id == m.id,
        r.app == m.app,
        r.created_at@ == match m.created@.rfc3339 {
            Some(s) => s,
            None => m.created@.display,
        },
        r.wav_path == wav_path,
        r.transcript_path == transcript_path,
{
    let created_at = rfc3339_or_display(&m.created);
    TranscriptEntry { id: m.id, app: m.app, created_at, wav_path, transcript_path }
}

/// Entries in descending order of their start text.
pub open spec fn newest_first(s: Seq<TranscriptEntry>) -> bool {
    forall|i: int, j: int|
        0 <= i < j < s.len() ==> lex_le((#[trigger] s[j]).created_at@, (#[trigger] s[i]).created_at@)
}

/// The entries ordered newest first by their start text.
pub fn sort_newest_first(entries: Vec<TranscriptEntry>) -> (r: Vec<TranscriptEntry>)
    ensures
        newest_first(r@),
        r@.to_multiset() == entries@.to_multiset(),
{
    let ghost all = entries@;
    let mut rest = entries;
    let mut out: Vec<TranscriptEntry> = Vec::new();
    while rest.len() > 0
        invariant
            newest_first(out@),
            out@.to_multiset().add(rest@.to_multiset()) == all.to_multiset(),
        decreases rest.len(),
    {
        let ghost rest_before = rest@;
        let e = rest.remove(0);
        assert(rest@ =~= rest_before.remove(0));
        let mut pos: usize = 0;
        while pos < out.len() && crate::retention::lex_le_chars(
            &chars_of(e.created_at.as_str()),
            &chars_of(out[pos].created_at.as_str()),
        )
            invariant
                pos <= out@.len(),
                newest_first(out@),
                forall|k: int| 0 <= k < pos ==> lex_le(e.created_at@, (#[trigger] out@[k]).created_at@),
            decreases out.len() - pos,
        {
            pos += 1;
        }
        let ghost old_out = out@;
        proof {
            if pos < old_out.len() {
                crate::retention::lemma_lex_total(e.created_at@, old_out[pos as int].created_at@);
                assert forall|j: int| pos <= j < old_out.len() implies lex_le(
                    (#[trigger] old_out[j]).created_at@,
                    e.created_at@,
                ) by {
                    if j > pos {
                        crate::retention::lemma_lex_trans(
                            old_out[j].created_at@,
                            old_out[pos as int].created_at@,
                            e.created_at@,
                        );
                    }
                }
            }
        }
        let ghost ev = e;
        out.insert(pos, e);
        proof {
            let nv = out@;
            assert(nv =~= old_out.insert(pos as int, ev));
            assert forall|i: int, j: int| 0 <= i < j < nv.len() implies lex_le(
                (#[trigger] nv[j]).created_at@,
                (#[trigger] nv[i]).created_at@,
            ) by {
                if j < pos {
                } else if j == pos {
                } else if i < pos {
                    assert(nv[j] == old_out[j - 1]);
                    crate::retention::lemma_lex_trans(
                        old_out[j - 1].created_at@,
                        ev.created_at@,
                        old_out[i].created_at@,
                    );
                } else if i == pos {
                    assert(nv[j] == old_out[j - 1]);
                } else {
                    assert(nv[i] == old_out[i - 1]);
                    assert(nv[j] == old_out[j - 1]);
                }
            }
            vstd::seq_lib::to_multiset_insert(old_out, pos as int, ev);
            vstd::seq_lib::to_multiset_remove(rest_before, 0);
            assert(rest_before.to_multiset().count(ev) > 0);
            assert(out@.to_multiset().add(rest@.to_multiset()) =~= all.to_multiset());
        }
    }
    assert(rest@.to_multiset() =~= vstd::multiset::Multiset::<TranscriptEntry>::empty());
    assert(out@.to_multiset().add(rest@.to_multiset()) =~= out@.to_multiset());
    out
}

// ---------------------------------------------------------------------------
// Names read back
// ---------------------------------------------------------------------------
/// The RFC 3339 text of a start's calendar fields, in UTC.
pub open spec fn iso_fields(t: DateTimeView) -> Seq<char> {
    dec_seq(t.year as nat) + seq!['-'] + pad2_seq(t.month as nat) + seq!['-'] + pad2_seq(
        t.day as nat,
    ) + seq!['T'] + pad2_seq(t.hour as nat) + seq![':'] + pad2_seq(t.minute as nat) + seq![':']
        + pad2_seq(t.second as nat) + seq!['Z']
}

proof fn lemma_dec_digits(n: nat)
    ensures
        forall|i: int| 0 <= i < dec_seq(n).len() ==> '0' <= #[trigger] dec_seq(n)[i] <= '9',
        n < 10 ==> dec_seq(n).len() == 1,
        10 <= n < 100 ==> dec_seq(n).len() == 2,
        100 <= n < 1000 ==> dec_seq(n).len() == 3,
        1000 <= n < 10000 ==> dec_seq(n).len() == 4,
    decreases n,
{
    if n >= 10 {
        lemma_dec_digits(n / 10);
        assert forall|i: int| 0 <= i < dec_seq(n).len() implies '0' <= #[trigger] dec_seq(n)[i]
            <= '9' by {
            if i < dec_seq(n / 10).len() {
                assert(dec_seq(n)[i] == dec_seq(n / 10)[i]);
            }
        }
    }
}

proof fn lemma_pad2_digits(n: nat)
    requires
        n < 100,
    ensures
        pad2_seq(n).len() == 2,
        forall|i: int| 0 <= i < 2 ==> '0' <= #[trigger] pad2_seq(n)[i] <= '9',
{
    lemma_dec_digits(n);
    if n < 10 {
        assert(pad2_seq(n)[1] == dec_seq(n)[0]);
    } else {
        assert(pad2_seq(n) == dec_seq(n));
    }
}

proof fn lemma_first_underscore(a: Seq<char>, b: Seq<char>)
    requires
        forall|i: int| 0 <= i < a.len() ==> a[i] != '_',
    ensures
        index_of_char(a + seq!['_'] + b, '_') == a.len(),
    decreases a.len(),
{
    if a.len() > 0 {
        lemma_first_underscore(a.drop_first(), b);
        assert((a + seq!['_'] + b).drop_first() =~= a.drop_first() + seq!['_'] + b);
    }
}

/// A chunk's transcript name reads back as its application and start: for
/// an application name without `_` and a four-digit year, the timestamp in
/// the name is read as the RFC 3339 text of the start's calendar fields.
pub proof fn law_transcript_name_reads_back(app: Seq<char>, t: DateTimeView)
    requires
        forall|i: int| 0 <= i < app.len() ==> app[i] != '_',
        1000 <= t.year <= 9999,
        t.month < 100,
        t.day < 100,
        t.hour < 100,
        t.minute < 100,
        t.second < 100,
    ensures
        timestamped(transcript_name(app, t)) == match rfc3339_date_time(iso_fields(t)) {
            Some(u) => Some((app, u)),
            None => None,
        },
        name_parts(transcript_name(app, t)) matches Some((_, ts)) ==> !slicing_splits_char(ts),
{
    reveal_strlit(".txt");
    reveal_strlit(".wav");
    let y = dec_seq(t.year as nat);
    let mo = pad2_seq(t.month as nat);
    let d = pad2_seq(t.day as nat);
    let h = pad2_seq(t.hour as nat);
    let mi = pad2_seq(t.minute as nat);
    let se = pad2_seq(t.second as nat);
    lemma_dec_digits(t.year as nat);
    lemma_pad2_digits(t.month as nat);
    lemma_pad2_digits(t.day as nat);
    lemma_pad2_digits(t.hour as nat);
    lemma_pad2_digits(t.minute as nat);
    lemma_pad2_digits(t.second as nat);
    assert(int_dec_seq(t.year as int) == y);
    let ts = y + mo + d + seq!['T'] + h + mi + se;
    assert(ts.len() == 15);
    let name = transcript_name(app, t);
    let stem = app + seq!['_'] + ts;
    assert(name =~= stem + ".txt"@);
    assert(ends_with_seq(name, ".txt"@)) by {
        assert(name.subrange(name.len() - 4, name.len() as int) =~= ".txt"@);
    }
    assert(name.take(name.len() - 4) =~= stem);
    lemma_first_underscore(app, ts);
    assert(stem.take(app.len() as int) =~= app);
    assert(stem.skip(app.len() as int + 1) =~= ts);
    assert(name_parts(name) == Some((app, ts)));
    assert forall|i: int| 0 <= i < ts.len() implies (#[trigger] ts[i] as u32) < 128 by {
        if i < 4 {
            assert(ts[i] == y[i]);
        } else if i < 6 {
            assert(ts[i] == mo[i - 4]);
        } else if i < 8 {
            assert(ts[i] == d[i - 6]);
        } else if i == 8 {
        } else if i < 11 {
            assert(ts[i] == h[i - 9]);
        } else if i < 13 {
            assert(ts[i] == mi[i - 11]);
        } else {
            assert(ts[i] == se[i - 13]);
        }
    }
    assert(is_ascii_seq(ts));
    lemma_ascii_stamp_is_readable(ts);
    assert(ts.subrange(0, 4) =~= y);
    assert(ts.subrange(4, 6) =~= mo);
    assert(ts.subrange(6, 8) =~= d);
    assert(ts.subrange(9, 11) =~= h);
    assert(ts.subrange(11, 13) =~= mi);
    assert(ts.subrange(13, 15) =~= se);
    assert(iso_of(ts) =~= iso_fields(t));
}


/// The timestamp text a chunk's names carry for its start.
pub open spec fn stamp_of(t: DateTimeView) -> Seq<char> {
    int_dec_seq(t.year as int) + pad2_seq(t.month as nat) + pad2_seq(t.day as nat) + seq!['T']
        + pad2_seq(t.hour as nat) + pad2_seq(t.minute as nat) + pad2_seq(t.second as nat)
}

proof fn lemma_digit_char_val(d: nat)
    requires
        d < 10,
    ensures
        digit_val(digit_char(d)) == d,
{
}

proof fn lemma_dec_value(n: nat)
    ensures
        digits_value(dec_seq(n)) == n,
    decreases n,
{
    assert(digits_value(Seq::<char>::empty()) == 0);
    if n < 10 {
        lemma_digit_char_val(n);
        assert(dec_seq(n).drop_last() =~= Seq::<char>::empty());
        assert(dec_seq(n).last() == digit_char(n));
    } else {
        lemma_dec_value(n / 10);
        lemma_digit_char_val(n % 10);
        assert(dec_seq(n).drop_last() =~= dec_seq(n / 10));
        assert(dec_seq(n).last() == digit_char(n % 10));
    }
}

proof fn lemma_pad2_value(n: nat)
    requires
        n < 100,
    ensures
        digits_value(pad2_seq(n)) == n,
{
    lemma_dec_value(n);
    if n < 10 {
        let p = pad2_seq(n);
        assert(p.drop_last() =~= seq!['0']);
        assert(seq!['0'].drop_last() =~= Seq::<char>::empty());
        assert(digits_value(Seq::<char>::empty()) == 0);
        assert(seq!['0'].last() == '0');
        assert(digit_val('0') == 0);
        assert(digits_value(seq!['0']) == 0);
        assert(p.last() == dec_seq(n)[0]);
        assert(dec_seq(n).drop_last() =~= Seq::<char>::empty());
    }
}

/// `.txt` at the end of `x + ".txt"` is its only occurrence, so replacing
/// `.txt` by `.wav` changes just that ending.
proof fn lemma_replace_ending(x: Seq<char>)
    requires
        forall|i: int| 0 <= i < x.len() ==> !occurs_at(x + ".txt"@, ".txt"@, i),
    ensures
        replace_seq(x + ".txt"@, ".txt"@, ".wav"@) == x + ".wav"@,
    decreases x.len(),
{
    reveal_strlit(".txt");
    reveal_strlit(".wav");
    let txt = ".txt"@;
    let s = x + txt;
    if x.len() == 0 {
        assert(s =~= txt);
        assert(s.subrange(0, 4) =~= txt);
        assert(occurs_at(s, txt, 0));
        assert(s.skip(4) =~= Seq::<char>::empty());
        assert(replace_seq(Seq::<char>::empty(), txt, ".wav"@) == Seq::<char>::empty());
        assert(replace_seq(s, txt, ".wav"@) == ".wav"@ + replace_seq(s.skip(4), txt, ".wav"@));
        assert(".wav"@ + Seq::<char>::empty() =~= x + ".wav"@);
    } else {
        let y = x.drop_first();
        assert(s.drop_first() =~= y + txt);
        assert forall|i: int| 0 <= i < y.len() implies !occurs_at(y + txt, txt, i) by {
            assert(!occurs_at(s, txt, i + 1));
            if occurs_at(y + txt, txt, i) {
                assert(s.subrange(i + 1, i + 5) =~= (y + txt).subrange(i, i + 4));
            }
        }
        lemma_replace_ending(y);
        assert(!occurs_at(s, txt, 0));
        assert(replace_seq(s, txt, ".wav"@) == seq![s[0]] + replace_seq(s.drop_first(), txt, ".wav"@));
        assert(s[0] == x[0]);
        assert(seq![s[0]] + (y + ".wav"@) =~= x + ".wav"@);
    }
}

/// A chunk's two names, for an application name without `_` or `.txt` and a
/// start that exists with a four-digit year, read back as that application
/// and the start's whole seconds: both carry the timestamp text of the start,
/// that text is in plain form and writes an existing date and time, the
/// point it reads as has exactly the start's calendar fields (no fraction,
/// UTC), and the chunk name reads back as the transcript name does.
pub proof fn law_chunk_names_read_back_as_start(app: Seq<char>, t: DateTimeView, u: DateTimeView)
    requires
        forall|i: int| 0 <= i < app.len() ==> app[i] != '_',
        !contains_seq(app, ".txt"@),
        1000 <= t.year <= 9999,
        valid_calendar(
            t.year as int,
            t.month as int,
            t.day as int,
            t.hour as int,
            t.minute as int,
            t.second as int,
        ),
    ensures
        name_parts(transcript_name(app, t)) == Some((app, stamp_of(t))),
        replace_seq(transcript_name(app, t), ".txt"@, ".wav"@) == app + seq!['_'] + stamp_of(t)
            + ".wav"@,
        name_parts(replace_seq(transcript_name(app, t), ".txt"@, ".wav"@)) == Some(
            (app, stamp_of(t)),
        ),
        timestamped(replace_seq(transcript_name(app, t), ".txt"@, ".wav"@)) == timestamped(
            transcript_name(app, t),
        ),
        stamp_plain(stamp_of(t)),
        stamp_valid(stamp_of(t)),
        !slicing_splits_char(stamp_of(t)),
        reads_stamp(u, stamp_of(t)) <==> whole_second_utc(
            u,
            t.year as int,
            t.month as int,
            t.day as int,
            t.hour as int,
            t.minute as int,
            t.second as int,
        ),
{
    reveal_strlit(".txt");
    reveal_strlit(".wav");
    law_transcript_name_reads_back(app, t);
    let ts = stamp_of(t);
    let y = dec_seq(t.year as nat);
    let mo = pad2_seq(t.month as nat);
    let d = pad2_seq(t.day as nat);
    let h = pad2_seq(t.hour as nat);
    let mi = pad2_seq(t.minute as nat);
    let se = pad2_seq(t.second as nat);
    lemma_dec_digits(t.year as nat);
    lemma_pad2_digits(t.month as nat);
    lemma_pad2_digits(t.day as nat);
    lemma_pad2_digits(t.hour as nat);
    lemma_pad2_digits(t.minute as nat);
    lemma_pad2_digits(t.second as nat);
    lemma_dec_value(t.year as nat);
    lemma_pad2_value(t.month as nat);
    lemma_pad2_value(t.day as nat);
    lemma_pad2_value(t.hour as nat);
    lemma_pad2_value(t.minute as nat);
    lemma_pad2_value(t.second as nat);
    assert(ts =~= y + mo + d + seq!['T'] + h + mi + se);
    assert(ts.subrange(0, 4) =~= y);
    assert(ts.subrange(4, 6) =~= mo);
    assert(ts.subrange(6, 8) =~= d);
    assert(ts.subrange(9, 11) =~= h);
    assert(ts.subrange(11, 13) =~= mi);
    assert(ts.subrange(13, 15) =~= se);
    assert(ts.subrange(0, 8) =~= y + mo + d);
    assert(ts.subrange(9, 15) =~= h + mi + se);
    assert forall|i: int| 0 <= i < 15 implies (#[trigger] ts[i] as u32) < 128 && (i != 8
        ==> crate::text::is_digit(ts[i])) by {
        if i < 4 {
            assert(ts[i] == y[i]);
        } else if i < 6 {
            assert(ts[i] == mo[i - 4]);
        } else if i < 8 {
            assert(ts[i] == d[i - 6]);
        } else if i == 8 {
        } else if i < 11 {
            assert(ts[i] == h[i - 9]);
        } else if i < 13 {
            assert(ts[i] == mi[i - 11]);
        } else {
            assert(ts[i] == se[i - 13]);
        }
    }
    assert(all_digits(ts.subrange(0, 8)));
    assert(all_digits(ts.subrange(9, 15)));
    assert(stamp_plain(ts));
    lemma_ascii_stamp_is_readable(ts);
    // The transcript name is `stem + ".txt"`; `.txt` occurs only at its end.
    let stem = app + seq!['_'] + ts;
    let name = transcript_name(app, t);
    assert(name =~= stem + ".txt"@);
    let txt = ".txt"@;
    assert forall|i: int| 0 <= i < stem.len() implies !occurs_at(stem + txt, txt, i) by {
        if occurs_at(stem + txt, txt, i) {
            let s = stem + txt;
            assert(s[i] == txt[0]);
            if i < app.len() {
                if i + 4 <= app.len() {
                    assert(app.subrange(i, i + 4) =~= s.subrange(i, i + 4));
                    assert(occurs_at(app, txt, i));
                } else {
                    let k = app.len() - i;
                    assert(s[app.len() as int] == '_');
                    assert(s[i + k] == txt[k]);
                }
            } else if i == app.len() {
                assert(s[i] == '_');
            } else {
                assert(s[i] == ts[i - app.len() - 1]);
            }
        }
    }
    lemma_replace_ending(stem);
    let wav = stem + ".wav"@;
    assert(int_dec_seq(t.year as int) == y);
    lemma_first_underscore(app, ts);
    assert(stem.take(app.len() as int) =~= app);
    assert(stem.skip(app.len() as int + 1) =~= ts);
    assert(stem_of(wav) == Some(stem)) by {
        assert(!ends_with_seq(wav, ".txt"@)) by {
            assert(wav[wav.len() - 3] == 'w');
            if ends_with_seq(wav, ".txt"@) {
                assert(wav.subrange(wav.len() - 4, wav.len() as int)[1] == ".txt"@[1]);
            }
        }
        assert(wav.subrange(wav.len() - 4, wav.len() as int) =~= ".wav"@);
        assert(wav.take(wav.len() - 4) =~= stem);
    }
    assert(stem_of(name) == Some(stem)) by {
        assert(name.subrange(name.len() - 4, name.len() as int) =~= ".txt"@);
        assert(name.take(name.len() - 4) =~= stem);
    }
}


proof fn lemma_ascii_utf8(s: Seq<char>)
    requires
        is_ascii_seq(s),
    ensures
        vstd::utf8::encode_utf8(s).len() == s.len(),
        forall|i: int| 0 <= i < s.len() ==> #[trigger] vstd::utf8::encode_utf8(s)[i] < 128,
    decreases s.len(),
{
    if s.len() > 0 {
        let c = s[0] as u32;
        assert(c < 128);
        let b: u8 = (c & 0x7F) as u8;
        assert(b < 128) by (bit_vector)
            requires
                b == (c & 0x7F) as u8,
        ;
        assert(vstd::utf8::encode_scalar(c) =~= seq![b]);
        let t = s.drop_first();
        assert forall|i: int| 0 <= i < t.len() implies (#[trigger] t[i] as u32) < 128 by {
            assert(t[i] == s[i + 1]);
        }
        lemma_ascii_utf8(t);
        let e = vstd::utf8::encode_utf8(s);
        assert(e == seq![b] + vstd::utf8::encode_utf8(t));
        assert forall|i: int| 0 <= i < s.len() implies #[trigger] e[i] < 128 by {
            if i > 0 {
                assert(e[i] == vstd::utf8::encode_utf8(t)[i - 1]);
            }
        }
    }
}

/// Reading an ASCII timestamp text by byte positions never splits a
/// character: every byte of an ASCII text starts a character.
pub proof fn lemma_ascii_stamp_is_readable(ts: Seq<char>)
    requires
        is_ascii_seq(ts),
    ensures
        !slicing_splits_char(ts),
{
    let b = vstd::utf8::encode_utf8(ts);
    lemma_ascii_utf8(ts);
    vstd::utf8::encode_utf8_valid_utf8(ts);
    if b.len() == 15 {
        assert forall|k: int| 0 <= k < 15 implies vstd::utf8::is_char_boundary(b, k) by {
            vstd::utf8::is_char_boundary_iff_not_is_continuation_byte(b, k);
            assert(b[k] < 128);
        }
        assert(vstd::utf8::is_char_boundary(b, 4));
        assert(vstd::utf8::is_char_boundary(b, 6));
        assert(vstd::utf8::is_char_boundary(b, 8));
        assert(vstd::utf8::is_char_boundary(b, 9));
        assert(vstd::utf8::is_char_boundary(b, 11));
        assert(vstd::utf8::is_char_boundary(b, 13));
    }
}

} // verus!
