//! App-audio taps: which processes are Zoom or Discord, how recordings are cut
//! into overlapping chunks, and the registry of running taps.
use vstd::prelude::*;

use crate::config::AppConfig;
use crate::text::{
    ascii_lower_chars, ascii_lower_seq, chars_of, concat_chars, contains_chars, contains_seq, dec_seq,
    lemma_ascii_lower_twice, lemma_contains_trans, lemma_occurs_lower, lemma_trim_inside,
    lemma_trim_lower, occurs_at, push_u64_dec, str_eq, string_of, trim_chars, trim_seq,
};

verus! {

// ---------------------------------------------------------------------------
// Target applications
// ---------------------------------------------------------------------------
#[derive(Debug, Clone, PartialEq, Eq)]
pub struct AudioTargetApp {
    pub id: String,
    pub display_name: String,
    pub process_matchers: Vec<String>,
}

#[derive(Debug, Clone, PartialEq, Eq)]
pub struct AudioSessionInfo {
    pub session_id: String,
    pub pid: u32,
    pub exe_path: String,
    pub display_name: String,
    pub state: String,
    pub matched_target: Option<String>,
}

/// A process name matches a matcher when the matcher, ASCII-lower-cased,
/// occurs in the trimmed and ASCII-lower-cased name.
pub open spec fn process_matches(process: Seq<char>, matcher: Seq<char>) -> bool {
    contains_seq(ascii_lower_seq(trim_seq(process)), ascii_lower_seq(matcher))
}

/// A process belongs to a target when any of its matchers matches.
pub open spec fn target_matches(process: Seq<char>, target: AudioTargetApp) -> bool {
    exists|i: int|
        0 <= i < target.process_matchers@.len() && process_matches(
            process,
            #[trigger] target.process_matchers@[i]@,
        )
}

/// The built-in target whose id, display name and single matcher are given.
pub open spec fn is_target(t: AudioTargetApp, id: Seq<char>, name: Seq<char>) -> bool {
    &&& t.id@ == id
    &&& t.display_name@ == name
    &&& t.process_matchers@.len() == 1
    &&& t.process_matchers@[0]@ == id
}

pub open spec fn is_zoom(t: AudioTargetApp) -> bool {
    is_target(t, "zoom"@, "Zoom"@)
}

pub open spec fn is_discord(t: AudioTargetApp) -> bool {
    is_target(t, "discord"@, "Discord"@)
}

fn make_target(id: &str, name: &str) -> (t: AudioTargetApp)
    ensures
        t.id@ == id@,
        t.display_name@ == name@,
        t.process_matchers@.len() == 1,
        t.process_matchers@[0]@ == id@,
{
    broadcast use vstd::string::group_string_axioms;

    let mut matchers: Vec<String> = Vec::new();
    matchers.push(id.to_string());
    AudioTargetApp { id: id.to_string(), display_name: name.to_string(), process_matchers: matchers }
}

/// The applications whose audio can be tapped: Zoom, then Discord.
pub fn default_target_apps() -> (apps: Vec<AudioTargetApp>)
    ensures
        apps@.len() == 2,
        is_zoom(apps@[0]),
        is_discord(apps@[1]),
{
    let mut apps: Vec<AudioTargetApp> = Vec::new();
    apps.push(make_target("zoom", "Zoom"));
    apps.push(make_target("discord", "Discord"));
    apps
}

/// Whether the process name matches any matcher of the target, ignoring ASCII
/// case and surrounding whitespace.
pub fn matches_target_process(process_name: &str, target: &AudioTargetApp) -> (b: bool)
    ensures
        b == target_matches(process_name@, *target),
{
    let value = ascii_lower_chars(&trim_chars(&chars_of(process_name)));
    let mut i: usize = 0;
    while i < target.process_matchers.len()
        invariant
            i <= target.process_matchers@.len(),
            value@ == ascii_lower_seq(trim_seq(process_name@)),
            forall|j: int|
                0 <= j < i ==> !process_matches(
                    process_name@,
                    #[trigger] target.process_matchers@[j]@,
                ),
        decreases target.process_matchers.len() - i,
    {
        let m = ascii_lower_chars(&chars_of(target.process_matchers[i].as_str()));
        if contains_chars(&value, &m) {
            assert(process_matches(process_name@, target.process_matchers@[i as int]@));
            return true;
        }
        i += 1;
    }
    false
}

/// Matching a process name ignores ASCII letter case, in the name and in the
/// matcher, and a name that matches still matches inside a longer name.
pub proof fn law_matching_ignores_case_and_surroundings(
    p: Seq<char>,
    m: Seq<char>,
    a: Seq<char>,
    b: Seq<char>,
)
    ensures
        process_matches(ascii_lower_seq(p), m) == process_matches(p, m),
        process_matches(p, ascii_lower_seq(m)) == process_matches(p, m),
        process_matches(p, m) ==> process_matches(a + p + b, m),
{
    lemma_trim_lower(p);
    lemma_ascii_lower_twice(trim_seq(p));
    lemma_ascii_lower_twice(m);
    if process_matches(p, m) {
        let q = a + p + b;
        let lm = ascii_lower_seq(m);
        let lq = ascii_lower_seq(trim_seq(q));
        if trim_seq(p).len() > 0 {
            lemma_trim_inside(a, p, b);
            let i = choose|i: int| occurs_at(trim_seq(q), trim_seq(p), i);
            lemma_occurs_lower(trim_seq(q), trim_seq(p), i);
            lemma_contains_trans(lq, ascii_lower_seq(trim_seq(p)), lm);
        } else {
            let k = choose|k: int| occurs_at(ascii_lower_seq(trim_seq(p)), lm, k);
            assert(lm.len() == 0);
            assert(lq.subrange(0, 0) =~= lm);
            assert(occurs_at(lq, lm, 0));
        }
    }
}

/// A target matches regardless of the ASCII letter case of the process
/// name, keeps matching a name inside a longer one, and a target without
/// matchers matches nothing.
pub proof fn law_target_matching(p: Seq<char>, t: AudioTargetApp, a: Seq<char>, b: Seq<char>)
    ensures
        target_matches(ascii_lower_seq(p), t) == target_matches(p, t),
        target_matches(p, t) ==> target_matches(a + p + b, t),
        t.process_matchers@.len() == 0 ==> !target_matches(p, t),
{
    assert forall|i: int| 0 <= i < t.process_matchers@.len() implies process_matches(
        ascii_lower_seq(p),
        #[trigger] t.process_matchers@[i]@,
    ) == process_matches(p, t.process_matchers@[i]@) && (process_matches(
        p,
        t.process_matchers@[i]@,
    ) ==> process_matches(a + p + b, t.process_matchers@[i]@)) by {
        law_matching_ignores_case_and_surroundings(p, t.process_matchers@[i]@, a, b);
    }
}

proof fn lemma_builtin_matches(p: Seq<char>, t: AudioTargetApp, id: Seq<char>, name: Seq<char>)
    requires
        is_target(t, id, name),
    ensures
        target_matches(p, t) == process_matches(p, id),
{
    if process_matches(p, id) {
        assert(process_matches(p, t.process_matchers@[0]@));
    }
}

/// The first built-in target (Zoom before Discord) that the executable path
/// matches.
pub fn match_target_app(exe_path: &str) -> (r: Option<AudioTargetApp>)
    ensures
        match r {
            Some(t) => (is_zoom(t) && process_matches(exe_path@, "zoom"@)) || (is_discord(t)
                && !process_matches(exe_path@, "zoom"@) && process_matches(
                exe_path@,
                "discord"@,
            )),
            None => !process_matches(exe_path@, "zoom"@) && !process_matches(
                exe_path@,
                "discord"@,
            ),
        },
{
    let mut apps = default_target_apps();
    proof {
        lemma_builtin_matches(exe_path@, apps@[0], "zoom"@, "Zoom"@);
        lemma_builtin_matches(exe_path@, apps@[1], "discord"@, "Discord"@);
    }
    let discord = apps.pop().unwrap();
    let zoom = apps.pop().unwrap();
    if matches_target_process(exe_path, &zoom) {
        Some(zoom)
    } else if matches_target_process(exe_path, &discord) {
        Some(discord)
    } else {
        None
    }
}

// ---------------------------------------------------------------------------
// Capture backend and chunk plan
// ---------------------------------------------------------------------------
#[derive(Debug, Clone, Copy, PartialEq, Eq)]
pub enum CaptureBackendState {
    Ready,
    Stubbed,
    Unsupported,
}

/// Per-process loopback capture is available on Windows only.
pub fn capture_backend_state(on_windows: bool) -> (s: CaptureBackendState)
    ensures
        s == (if on_windows {
            CaptureBackendState::Ready
        } else {
            CaptureBackendState::Unsupported
        }),
{
    if on_windows {
        CaptureBackendState::Ready
    } else {
        CaptureBackendState::Unsupported
    }
}

#[derive(Debug, Clone, Copy, PartialEq, Eq)]
pub struct AudioChunkPlan {
    pub chunk_seconds: u16,
    pub stitch_ms: u16,
}

#[derive(Debug, Clone, Copy, PartialEq, Eq)]
pub struct AudioChunkWindow {
    pub chunk_index: u64,
    pub nominal_start_ms: u64,
    pub nominal_end_ms: u64,
    pub capture_start_ms: u64,
    pub capture_end_ms: u64,
    pub stitch_ms: u16,
}

/// Chunk length in seconds after the lower bound of one second.
pub open spec fn plan_seconds(config_seconds: u16) -> u16 {
    if config_seconds < 1 {
        1
    } else {
        config_seconds
    }
}

/// The chunk plan a configuration asks for: at least one second per chunk,
/// and an overlap no longer than a chunk.
pub open spec fn plan_of(config_seconds: u16, config_stitch: u16) -> AudioChunkPlan {
    let s = plan_seconds(config_seconds);
    AudioChunkPlan {
        chunk_seconds: s,
        stitch_ms: (if (config_stitch as int) < s * 1000 {
            config_stitch as int
        } else {
            s * 1000
        }) as u16,
    }
}

/// A plan is consistent when chunks last at least a second and the overlap
/// fits in a chunk.
pub open spec fn plan_ok(p: AudioChunkPlan) -> bool {
    p.chunk_seconds >= 1 && p.stitch_ms <= p.chunk_seconds * 1000
}

pub fn chunk_plan(config: &AppConfig) -> (p: AudioChunkPlan)
    ensures
        p == plan_of(config.audio_chunk_seconds, config.audio_stitch_ms),
        plan_ok(p),
{
    let chunk_seconds = if config.audio_chunk_seconds < 1 {
        1
    } else {
        config.audio_chunk_seconds
    };
    let max_stitch_ms: u32 = (chunk_seconds as u32) * 1000;
    let stitch_ms: u16 = if (config.audio_stitch_ms as u32) < max_stitch_ms {
        config.audio_stitch_ms
    } else {
        max_stitch_ms as u16
    };
    AudioChunkPlan { chunk_seconds, stitch_ms }
}

pub open spec fn sat_mul(a: int, b: int) -> u64 {
    if a * b > u64::MAX {
        u64::MAX
    } else {
        (a * b) as u64
    }
}

pub open spec fn sat_add(a: int, b: int) -> u64 {
    if a + b > u64::MAX {
        u64::MAX
    } else {
        (a + b) as u64
    }
}

pub open spec fn sat_sub(a: int, b: int) -> u64 {
    if a - b < 0 {
        0
    } else {
        (a - b) as u64
    }
}

/// The time span that chunk `i` covers: its nominal span of one chunk length,
/// and its capture span, which starts `stitch_ms` earlier (never before 0).
/// Arithmetic saturates at the bounds of `u64`.
pub open spec fn window_of(plan: AudioChunkPlan, i: u64) -> AudioChunkWindow {
    let chunk_ms = plan.chunk_seconds * 1000;
    let start = sat_mul(i as int, chunk_ms);
    let end = sat_add(start as int, chunk_ms);
    AudioChunkWindow {
        chunk_index: i,
        nominal_start_ms: start,
        nominal_end_ms: end,
        capture_start_ms: sat_sub(start as int, plan.stitch_ms as int),
        capture_end_ms: end,
        stitch_ms: plan.stitch_ms,
    }
}

pub fn chunk_window(plan: AudioChunkPlan, chunk_index: u64) -> (w: AudioChunkWindow)
    ensures
        w == window_of(plan, chunk_index),
{
    let chunk_ms: u64 = (plan.chunk_seconds as u64) * 1000;
    let a = chunk_index as u128;
    let b = chunk_ms as u128;
    assert(a * b <= (u64::MAX as u128) * (u64::MAX as u128)) by (nonlinear_arith)
        requires
            a <= u64::MAX,
            b <= u64::MAX,
    ;
    let product: u128 = a * b;
    let nominal_start_ms: u64 = if product > u64::MAX as u128 {
        u64::MAX
    } else {
        product as u64
    };
    let nominal_end_ms = nominal_start_ms.saturating_add(chunk_ms);
    let capture_start_ms = nominal_start_ms.saturating_sub(plan.stitch_ms as u64);
    AudioChunkWindow {
        chunk_index,
        nominal_start_ms,
        nominal_end_ms,
        capture_start_ms,
        capture_end_ms: nominal_end_ms,
        stitch_ms: plan.stitch_ms,
    }
}

/// Chunks tile the timeline: each nominal span ends where the next begins.
/// Every chunk after the first reaches back exactly `stitch_ms` into the one
/// before it, and the first one starts at 0. Stated for indices whose end
/// time does not saturate.
pub proof fn law_chunk_windows_tile(plan: AudioChunkPlan, i: u64)
    requires
        plan_ok(plan),
        (i as int + 2) * (plan.chunk_seconds * 1000) <= u64::MAX,
    ensures
        window_of(plan, i).nominal_end_ms == window_of(plan, (i + 1) as u64).nominal_start_ms,
        window_of(plan, (i + 1) as u64).capture_start_ms == window_of(plan, i).nominal_end_ms
            - plan.stitch_ms,
        window_of(plan, 0).capture_start_ms == 0,
        window_of(plan, i).capture_end_ms == window_of(plan, i).nominal_end_ms,
        window_of(plan, i).nominal_end_ms - window_of(plan, i).nominal_start_ms == plan.chunk_seconds
            * 1000,
{
    let c = plan.chunk_seconds * 1000;
    assert((i as int) * c <= (i as int + 2) * c) by (nonlinear_arith)
        requires
            c >= 0,
            i >= 0,
    ;
    assert((i as int + 1) * c == (i as int) * c + c) by (nonlinear_arith);
    assert((i as int + 1) * c <= (i as int + 2) * c) by (nonlinear_arith)
        requires
            c >= 0,
            i >= 0,
    ;
    assert((i as int + 1) * c >= c) by (nonlinear_arith)
        requires
            c >= 0,
            i >= 0,
    ;
    assert(0 * c == 0);
}

// ---------------------------------------------------------------------------
// Project status
// ---------------------------------------------------------------------------
#[derive(Debug, Clone, PartialEq, Eq)]
pub struct AudioProjectStatus {
    pub supported: bool,
    pub backend: String,
    pub backend_ready: bool,
    pub chunk_seconds: u16,
    pub stitch_ms: u16,
    pub target_apps: Vec<AudioTargetApp>,
    pub next_step: String,
}

/// Backend name, readiness and advice for each backend state.
pub open spec fn backend_text(s: CaptureBackendState) -> (Seq<char>, bool, Seq<char>) {
    match s {
        CaptureBackendState::Ready => (
            "windows-wasapi"@,
            true,
            "backend ready for manual taps; watcher still depends on process discovery"@,
        ),
        CaptureBackendState::Stubbed => (
            "windows-wasapi-stubbed"@,
            false,
            "implement live session enumeration, per-process capture, and stitched chunk writer"@,
        ),
        CaptureBackendState::Unsupported => (
            "unsupported-platform"@,
            false,
            "run the condor-eye Tauri app on Windows to enable app-audio capture"@,
        ),
    }
}

/// The status reported for a configuration: platform support, backend name,
/// readiness and advice, the chunk plan, and the two built-in targets.
pub open spec fn is_project_status(st: AudioProjectStatus, config: AppConfig, on_windows: bool) -> bool {
    &&& st.supported == on_windows
    &&& ({
        let (b, ready, next) = backend_text(capture_backend_state_spec(on_windows));
        st.backend@ == b && st.backend_ready == ready && st.next_step@ == next
    })
    &&& st.chunk_seconds == plan_of(config.audio_chunk_seconds, config.audio_stitch_ms).chunk_seconds
    &&& st.stitch_ms == plan_of(config.audio_chunk_seconds, config.audio_stitch_ms).stitch_ms
    &&& st.target_apps@.len() == 2
    &&& is_zoom(st.target_apps@[0])
    &&& is_discord(st.target_apps@[1])
}

pub fn project_status(config: &AppConfig, on_windows: bool) -> (st: AudioProjectStatus)
    ensures
        is_project_status(st, *config, on_windows),
{
    broadcast use vstd::string::group_string_axioms;

    let plan = chunk_plan(config);
    let (backend, backend_ready, next_step) = match capture_backend_state(on_windows) {
        CaptureBackendState::Ready => (
            "windows-wasapi".to_string(),
            true,
            "backend ready for manual taps; watcher still depends on process discovery".to_string(),
        ),
        CaptureBackendState::Stubbed => (
            "windows-wasapi-stubbed".to_string(),
            false,
            "implement live session enumeration, per-process capture, and stitched chunk writer".to_string(),
        ),
        CaptureBackendState::Unsupported => (
            "unsupported-platform".to_string(),
            false,
            "run the condor-eye Tauri app on Windows to enable app-audio capture".to_string(),
        ),
    };
    AudioProjectStatus {
        supported: on_windows,
        backend,
        backend_ready,
        chunk_seconds: plan.chunk_seconds,
        stitch_ms: plan.stitch_ms,
        target_apps: default_target_apps(),
        next_step,
    }
}

pub open spec fn capture_backend_state_spec(on_windows: bool) -> CaptureBackendState {
    if on_windows {
        CaptureBackendState::Ready
    } else {
        CaptureBackendState::Unsupported
    }
}

// ---------------------------------------------------------------------------
// Audio sessions
// ---------------------------------------------------------------------------
/// A running process as the platform lists it: its id, name and executable
/// path when known.
#[derive(Debug, Clone, PartialEq, Eq)]
pub struct ProcessEntry {
    pub id: u32,
    pub process_name: String,
    pub path: Option<String>,
}

/// The content of a session, with every text as a character sequence.
pub struct SessionView {
    pub session_id: Seq<char>,
    pub pid: u32,
    pub exe_path: Seq<char>,
    pub display_name: Seq<char>,
    pub state: Seq<char>,
    pub matched_target: Option<Seq<char>>,
}

impl View for AudioSessionInfo {
    type V = SessionView;

    open spec fn view(&self) -> SessionView {
        SessionView {
            session_id: self.session_id@,
            pid: self.pid,
            exe_path: self.exe_path@,
            display_name: self.display_name@,
            state: self.state@,
            matched_target: match self.matched_target {
                Some(t) => Some(t@),
                None => None,
            },
        }
    }
}

/// The path a process is matched by: its executable path, or its name when
/// the path is unknown.
pub open spec fn entry_exe(e: ProcessEntry) -> Seq<char> {
    match e.path {
        Some(p) => p@,
        None => e.process_name@,
    }
}

/// The id of the first built-in target that a process path matches.
pub open spec fn builtin_target_id(p: Seq<char>) -> Option<Seq<char>> {
    if process_matches(p, "zoom"@) {
        Some("zoom"@)
    } else if process_matches(p, "discord"@) {
        Some("discord"@)
    } else {
        None
    }
}

/// The session reported for a process that belongs to a target.
pub open spec fn session_of(e: ProcessEntry) -> Option<SessionView> {
    match builtin_target_id(entry_exe(e)) {
        Some(id) => Some(
            SessionView {
                session_id: "proc-"@ + dec_seq(e.id as nat),
                pid: e.id,
                exe_path: entry_exe(e),
                display_name: e.process_name@,
                state: "process_running"@,
                matched_target: Some(id),
            },
        ),
        None => None,
    }
}

/// The sessions of the processes that belong to a target, in listing order.
pub open spec fn sessions_spec(es: Seq<ProcessEntry>) -> Seq<SessionView>
    decreases es.len(),
{
    if es.len() == 0 {
        Seq::empty()
    } else {
        let rest = sessions_spec(es.drop_last());
        match session_of(es.last()) {
            Some(s) => rest.push(s),
            None => rest,
        }
    }
}

fn session_from_entry(e: &ProcessEntry) -> (r: Option<AudioSessionInfo>)
    ensures
        match r {
            Some(s) => session_of(*e) == Some(s@),
            None => session_of(*e) is None,
        },
{
    broadcast use vstd::string::group_string_axioms;

    let exe_path = match &e.path {
        Some(p) => p.clone(),
        None => e.process_name.clone(),
    };
    let matched = match match_target_app(exe_path.as_str()) {
        Some(t) => t,
        None => {
            return None;
        },
    };
    let mut sid = chars_of("proc-");
    push_u64_dec(&mut sid, e.id as u64);
    Some(
        AudioSessionInfo {
            session_id: string_of(&sid),
            pid: e.id,
            exe_path,
            display_name: e.process_name.clone(),
            state: "process_running".to_string(),
            matched_target: Some(matched.id),
        },
    )
}

/// The audio sessions of the listed processes: those whose path (or name)
/// matches Zoom or Discord, in listing order.
pub fn sessions_from_entries(entries: &Vec<ProcessEntry>) -> (r: Vec<AudioSessionInfo>)
    ensures
        r@.map_values(|s: AudioSessionInfo| s@) == sessions_spec(entries@),
{
    let mut r: Vec<AudioSessionInfo> = Vec::new();
    let mut i: usize = 0;
    while i < entries.len()
        invariant
            i <= entries@.len(),
            r@.map_values(|s: AudioSessionInfo| s@) == sessions_spec(entries@.take(i as int)),
        decreases entries.len() - i,
    {
        assert(entries@.take(i as int + 1).drop_last() =~= entries@.take(i as int));
        let ghost before = r@;
        match session_from_entry(&entries[i]) {
            Some(s) => {
                r.push(s);
                assert(r@.map_values(|s: AudioSessionInfo| s@) =~= before.map_values(
                    |s: AudioSessionInfo| s@,
                ).push(s@));
            },
            None => {},
        }
        i += 1;
    }
    assert(entries@.take(entries@.len() as int) =~= entries@);
    r
}

// ---------------------------------------------------------------------------
// Output directories
// ---------------------------------------------------------------------------
/// `Path::join` of a one-component relative `leaf` onto `base`: the platform
/// separator goes between them unless `base` is empty or already ends with a
/// separator (`/`, or the platform's own).
pub open spec fn join_path(base: Seq<char>, leaf: Seq<char>, sep: char) -> Seq<char> {
    if base.len() == 0 {
        leaf
    } else if base.last() == '/' || base.last() == sep {
        base + leaf
    } else {
        base + seq![sep] + leaf
    }
}

fn join_dir(base: &str, leaf: &str, sep: char) -> (r: String)
    ensures
        r@ == join_path(base@, leaf@, sep),
{
    let mut v = chars_of(base);
    if v.len() > 0 && v[v.len() - 1] != '/' && v[v.len() - 1] != sep {
        v.push(sep);
    }
    let r = concat_chars(&v, &chars_of(leaf));
    string_of(&r)
}

/// Where a configuration's chunk files go: `<audio_output_dir>/wav`, with
/// `sep` the platform's path separator.
pub fn audio_wav_dir(config: &AppConfig, sep: char) -> (r: String)
    ensures
        r@ == join_path(config.audio_output_dir@, "wav"@, sep),
{
    join_dir(config.audio_output_dir.as_str(), "wav", sep)
}

/// Where a configuration's transcripts go: `<audio_output_dir>/transcripts`.
pub fn audio_transcript_dir(config: &AppConfig, sep: char) -> (r: String)
    ensures
        r@ == join_path(config.audio_output_dir@, "transcripts"@, sep),
{
    join_dir(config.audio_output_dir.as_str(), "transcripts", sep)
}

/// Session enumeration: the sessions of the process listing when capture is
/// available, an explanation otherwise. The listing is only consulted when
/// the backend is ready.
pub fn enumerate_audio_sessions(
    backend: CaptureBackendState,
    listing: Result<Vec<ProcessEntry>, String>,
) -> (r: Result<Vec<AudioSessionInfo>, String>)
    ensures
        match backend {
            CaptureBackendState::Ready => match (listing, r) {
                (Ok(es), Ok(ss)) => ss@.map_values(|s: AudioSessionInfo| s@) == sessions_spec(es@),
                (Err(e1), Err(e2)) => e1@ == e2@,
                _ => false,
            },
            CaptureBackendState::Stubbed => r matches Err(e) && e@
                == "Windows audio backend is scaffolded but session enumeration is not implemented in this build"@,
            CaptureBackendState::Unsupported => r matches Err(e) && e@
                == "Audio session enumeration is only supported on Windows"@,
        },
{
    broadcast use vstd::string::group_string_axioms;

    match backend {
        CaptureBackendState::Ready => match listing {
            Ok(es) => Ok(sessions_from_entries(&es)),
            Err(e) => Err(e),
        },
        CaptureBackendState::Stubbed => Err(
            "Windows audio backend is scaffolded but session enumeration is not implemented in this build".to_string(),
        ),
        CaptureBackendState::Unsupported => Err(
            "Audio session enumeration is only supported on Windows".to_string(),
        ),
    }
}

/// Position of the first session matched to the application, or -1.
pub open spec fn first_session_of(ss: Seq<SessionView>, app: Seq<char>) -> int
    decreases ss.len(),
{
    if ss.len() == 0 {
        -1
    } else if ss[0].matched_target == Some(app) {
        0
    } else {
        let k = first_session_of(ss.drop_first(), app);
        if k < 0 {
            -1
        } else {
            k + 1
        }
    }
}

/// The process id of the first session matched to the application; an error
/// names the application when there is none.
pub fn resolve_target_pid(app_name: &str, sessions: &Vec<AudioSessionInfo>) -> (r: Result<
    u32,
    String,
>)
    ensures
        ({
            let ss = sessions@.map_values(|s: AudioSessionInfo| s@);
            let k = first_session_of(ss, app_name@);
            match r {
                Ok(pid) => 0 <= k < ss.len() && pid == ss[k].pid,
                Err(e) => k == -1 && e@ == "No running process found for "@ + app_name@,
            }
        }),
{
    let ghost ss = sessions@.map_values(|s: AudioSessionInfo| s@);
    let mut i: usize = 0;
    assert(ss.skip(0) =~= ss);
    while i < sessions.len()
        invariant
            i <= sessions@.len(),
            ss == sessions@.map_values(|s: AudioSessionInfo| s@),
            first_session_of(ss, app_name@) == (if first_session_of(ss.skip(i as int), app_name@)
                < 0 {
                -1
            } else {
                first_session_of(ss.skip(i as int), app_name@) + i
            }),
        decreases sessions.len() - i,
    {
        assert(ss.skip(i as int).drop_first() =~= ss.skip(i as int + 1));
        let hit = match &sessions[i].matched_target {
            Some(t) => str_eq(t.as_str(), app_name),
            None => false,
        };
        if hit {
            assert(ss.skip(i as int)[0] == ss[i as int]);
            return Ok(sessions[i].pid);
        }
        i += 1;
    }
    assert(ss.skip(i as int).len() == 0);
    Err(crate::text::join2("No running process found for ", app_name))
}

/// The sessions handed to a tap start, by their views.
pub open spec fn sessions_view(s: Result<Vec<AudioSessionInfo>, String>) -> Result<
    Seq<SessionView>,
    Seq<char>,
> {
    match s {
        Ok(ss) => Ok(ss@.map_values(|x: AudioSessionInfo| x@)),
        Err(e) => Err(e@),
    }
}

pub open spec fn pid_result_view(r: Result<u32, String>) -> Result<u32, Seq<char>> {
    match r {
        Ok(p) => Ok(p),
        Err(e) => Err(e@),
    }
}

/// The process a new tap captures, or why none: the backend must be ready;
/// a nonzero `pid` is taken as it is; a zero `pid` asks for the first
/// running session of the application.
pub open spec fn start_pid_of(
    backend: CaptureBackendState,
    pid: u32,
    app: Seq<char>,
    sessions: Result<Seq<SessionView>, Seq<char>>,
) -> Result<u32, Seq<char>> {
    match backend {
        CaptureBackendState::Ready => if pid != 0 {
            Ok(pid)
        } else {
            match sessions {
                Err(e) => Err(e),
                Ok(sv) => if first_session_of(sv, app) >= 0 {
                    Ok(sv[first_session_of(sv, app)].pid)
                } else {
                    Err("No running process found for "@ + app)
                },
            }
        },
        CaptureBackendState::Stubbed => Err(
            "Audio tap start is not implemented yet in this build"@,
        ),
        CaptureBackendState::Unsupported => Err("Audio tap start is only supported on Windows"@),
    }
}

/// The process a new tap should capture: taps need the Windows backend; a
/// zero `pid` asks for the first running process of the application, found in
/// `sessions` (which is only consulted then).
pub fn tap_start_pid(
    backend: CaptureBackendState,
    pid: u32,
    app_name: &str,
    sessions: Result<Vec<AudioSessionInfo>, String>,
) -> (r: Result<u32, String>)
    ensures
        match backend {
            CaptureBackendState::Ready => if pid != 0 {
                r == Ok::<u32, String>(pid)
            } else {
                match sessions {
                    Err(e1) => r matches Err(e2) && e1@ == e2@,
                    Ok(ss) => {
                        let sv = ss@.map_values(|s: AudioSessionInfo| s@);
                        let k = first_session_of(sv, app_name@);
                        match r {
                            Ok(p) => 0 <= k < sv.len() && p == sv[k].pid,
                            Err(e) => k == -1 && e@ == "No running process found for "@
                                + app_name@,
                        }
                    },
                }
            },
            CaptureBackendState::Stubbed => r matches Err(e) && e@
                == "Audio tap start is not implemented yet in this build"@,
            CaptureBackendState::Unsupported => r matches Err(e) && e@
                == "Audio tap start is only supported on Windows"@,
        },
        pid_result_view(r) == start_pid_of(backend, pid, app_name@, sessions_view(sessions)),
{
    broadcast use vstd::string::group_string_axioms;

    match backend {
        CaptureBackendState::Ready => {},
        CaptureBackendState::Stubbed => {
            return Err("Audio tap start is not implemented yet in this build".to_string());
        },
        CaptureBackendState::Unsupported => {
            return Err("Audio tap start is only supported on Windows".to_string());
        },
    }
    if pid != 0 {
        return Ok(pid);
    }
    match sessions {
        Ok(ss) => resolve_target_pid(app_name, &ss),
        Err(e) => Err(e),
    }
}

} // verus!
