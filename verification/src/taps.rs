//! The registry of audio taps, keyed by tap id, and the operations that start,
//! stop, update and finish taps.
use vstd::prelude::*;

use crate::audio::{
    chunk_plan, is_project_status, plan_of, project_status, sessions_view,
    start_pid_of, tap_start_pid, AudioChunkPlan, AudioProjectStatus, AudioSessionInfo,
    CaptureBackendState,
};
use crate::config::AppConfig;
use crate::text::{chars_of, concat_chars, dec_seq, push_u64_dec, str_eq, string_of};

verus! {

#[derive(Debug, Clone, Copy, PartialEq, Eq, Structural)]
pub enum TapStatus {
    Running,
    Paused,
    Stopped,
    Error,
}

#[derive(Debug, Clone, PartialEq, Eq)]
pub struct ActiveTap {
    pub tap_id: String,
    pub app_name: String,
    pub target_pid: u32,
    pub include_tree: bool,
    pub started_at: String,
    pub chunk_seconds: u16,
    pub stitch_ms: u16,
    pub chunks_written: u64,
    pub bytes_captured: u64,
    pub output_dir: String,
    pub status: TapStatus,
    pub status_detail: Option<String>,
    pub last_chunk_path: Option<String>,
    pub last_chunk_ts: Option<String>,
    pub last_transcript_path: Option<String>,
}

/// The content of a tap, with every text as a character sequence.
pub struct TapView {
    pub tap_id: Seq<char>,
    pub app_name: Seq<char>,
    pub target_pid: u32,
    pub include_tree: bool,
    pub started_at: Seq<char>,
    pub chunk_seconds: u16,
    pub stitch_ms: u16,
    pub chunks_written: u64,
    pub bytes_captured: u64,
    pub output_dir: Seq<char>,
    pub status: TapStatus,
    pub status_detail: Option<Seq<char>>,
    pub last_chunk_path: Option<Seq<char>>,
    pub last_chunk_ts: Option<Seq<char>>,
    pub last_transcript_path: Option<Seq<char>>,
}

pub open spec fn opt_view(o: Option<String>) -> Option<Seq<char>> {
    match o {
        Some(s) => Some(s@),
        None => None,
    }
}

pub open spec fn opt_str_view(o: Option<&str>) -> Option<Seq<char>> {
    match o {
        Some(s) => Some(s@),
        None => None,
    }
}

impl View for ActiveTap {
    type V = TapView;

    open spec fn view(&self) -> TapView {
        TapView {
            tap_id: self.tap_id@,
            app_name: self.app_name@,
            target_pid: self.target_pid,
            include_tree: self.include_tree,
            started_at: self.started_at@,
            chunk_seconds: self.chunk_seconds,
            stitch_ms: self.stitch_ms,
            chunks_written: self.chunks_written,
            bytes_captured: self.bytes_captured,
            output_dir: self.output_dir@,
            status: self.status,
            status_detail: opt_view(self.status_detail),
            last_chunk_path: opt_view(self.last_chunk_path),
            last_chunk_ts: opt_view(self.last_chunk_ts),
            last_transcript_path: opt_view(self.last_transcript_path),
        }
    }
}

/// A tap is active until it is stopped.
pub open spec fn is_active(t: TapView) -> bool {
    t.status != TapStatus::Stopped
}

pub fn tap_is_active(tap: &ActiveTap) -> (b: bool)
    ensures
        b == is_active(tap@),
{
    tap.status != TapStatus::Stopped
}

fn clone_opt(o: &Option<String>) -> (r: Option<String>)
    ensures
        r == *o,
{
    match o {
        Some(s) => Some(s.clone()),
        None => None,
    }
}

fn opt_to_string(o: Option<&str>) -> (r: Option<String>)
    ensures
        opt_view(r) == opt_str_view(o),
{
    broadcast use vstd::string::group_string_axioms;

    match o {
        Some(s) => Some(s.to_string()),
        None => None,
    }
}

impl ActiveTap {
    /// A field-by-field copy.
    pub fn duplicate(&self) -> (r: ActiveTap)
        ensures
            r == *self,
    {
        ActiveTap {
            tap_id: self.tap_id.clone(),
            app_name: self.app_name.clone(),
            target_pid: self.target_pid,
            include_tree: self.include_tree,
            started_at: self.started_at.clone(),
            chunk_seconds: self.chunk_seconds,
            stitch_ms: self.stitch_ms,
            chunks_written: self.chunks_written,
            bytes_captured: self.bytes_captured,
            output_dir: self.output_dir.clone(),
            status: self.status,
            status_detail: clone_opt(&self.status_detail),
            last_chunk_path: clone_opt(&self.last_chunk_path),
            last_chunk_ts: clone_opt(&self.last_chunk_ts),
            last_transcript_path: clone_opt(&self.last_transcript_path),
        }
    }
}

// ---------------------------------------------------------------------------
// The registry model: a sequence of taps with distinct ids
// ---------------------------------------------------------------------------
#[derive(Debug, Clone)]
pub struct TapRegistry {
    pub taps: Vec<ActiveTap>,
}

impl View for TapRegistry {
    type V = Seq<TapView>;

    open spec fn view(&self) -> Seq<TapView> {
        self.taps@.map_values(|t: ActiveTap| t@)
    }
}

/// No two taps share an id.
pub open spec fn ids_unique(v: Seq<TapView>) -> bool {
    forall|i: int, j: int|
        0 <= i < v.len() && 0 <= j < v.len() && i != j ==> #[trigger] v[i].tap_id != #[trigger] v[j].tap_id
}

impl Default for TapRegistry {
    fn default() -> (r: TapRegistry)
        ensures
            r@ == Seq::<TapView>::empty(),
    {
        TapRegistry::new()
    }
}

impl TapRegistry {
    /// The registry is a map: tap ids are distinct.
    pub open spec fn wf(&self) -> bool {
        ids_unique(self@)
    }

    /// An empty registry.
    pub fn new() -> (r: TapRegistry)
        ensures
            r@ == Seq::<TapView>::empty(),
            r.wf(),
    {
        let r = TapRegistry { taps: Vec::new() };
        assert(r@ =~= Seq::<TapView>::empty());
        r
    }
}

/// `i` is the first position holding the tap `id`.
pub open spec fn first_with_id(v: Seq<TapView>, id: Seq<char>, i: int) -> bool {
    &&& 0 <= i < v.len()
    &&& v[i].tap_id == id
    &&& forall|j: int| 0 <= j < i ==> v[j].tap_id != id
}

/// Position of the tap `id`, or -1.
pub open spec fn index_of(v: Seq<TapView>, id: Seq<char>) -> int {
    if exists|i: int| first_with_id(v, id, i) {
        choose|i: int| first_with_id(v, id, i)
    } else {
        -1
    }
}

/// `i` is the first position holding an active tap of `app`.
pub open spec fn first_active_of(v: Seq<TapView>, app: Seq<char>, i: int) -> bool {
    &&& 0 <= i < v.len()
    &&& v[i].app_name == app && is_active(v[i])
    &&& forall|j: int| 0 <= j < i ==> !(v[j].app_name == app && is_active(v[j]))
}

/// Position of the first active tap of `app`, or -1.
pub open spec fn active_index_of(v: Seq<TapView>, app: Seq<char>) -> int {
    if exists|i: int| first_active_of(v, app, i) {
        choose|i: int| first_active_of(v, app, i)
    } else {
        -1
    }
}

proof fn lemma_first_with_id_unique(v: Seq<TapView>, id: Seq<char>, i: int)
    requires
        first_with_id(v, id, i),
    ensures
        index_of(v, id) == i,
{
    let k = index_of(v, id);
    assert(first_with_id(v, id, k));
    if k < i {
        assert(v[k].tap_id != id);
    }
    if i < k {
        assert(v[i].tap_id != id);
    }
}

proof fn lemma_no_id(v: Seq<TapView>, id: Seq<char>)
    requires
        forall|j: int| 0 <= j < v.len() ==> v[j].tap_id != id,
    ensures
        index_of(v, id) == -1,
{
}

proof fn lemma_first_active_unique(v: Seq<TapView>, app: Seq<char>, i: int)
    requires
        first_active_of(v, app, i),
    ensures
        active_index_of(v, app) == i,
{
    let k = active_index_of(v, app);
    assert(first_active_of(v, app, k));
    if k < i {
        assert(!(v[k].app_name == app && is_active(v[k])));
    }
    if i < k {
        assert(!(v[i].app_name == app && is_active(v[i])));
    }
}

/// The registry is keyed by tap id: with distinct ids, looking an id up
/// finds the one place that holds it.
pub proof fn law_lookup_finds_the_tap(v: Seq<TapView>, id: Seq<char>, i: int)
    requires
        ids_unique(v),
        0 <= i < v.len(),
        v[i].tap_id == id,
    ensures
        index_of(v, id) == i,
{
    assert forall|j: int| 0 <= j < i implies v[j].tap_id != id by {
        assert(v[j].tap_id != v[i].tap_id);
    }
    lemma_first_with_id_unique(v, id, i);
}

/// The tap with the given id, if any.
pub open spec fn get_spec(v: Seq<TapView>, id: Seq<char>) -> Option<TapView> {
    let k = index_of(v, id);
    if k >= 0 {
        Some(v[k])
    } else {
        None
    }
}

/// A tap marked stopped, without detail.
pub open spec fn stopped(t: TapView) -> TapView {
    TapView { status: TapStatus::Stopped, status_detail: None, ..t }
}

/// The registry after stopping tap `id` (unchanged when there is none).
pub open spec fn stop_spec(v: Seq<TapView>, id: Seq<char>) -> Seq<TapView> {
    let k = index_of(v, id);
    if k >= 0 {
        v.update(k, stopped(v[k]))
    } else {
        v
    }
}

/// The registry after a capture error on tap `id`.
pub open spec fn error_spec(v: Seq<TapView>, id: Seq<char>, error: Seq<char>) -> Seq<TapView> {
    let k = index_of(v, id);
    if k >= 0 {
        v.update(k, TapView { status: TapStatus::Error, status_detail: Some(error), ..v[k] })
    } else {
        v
    }
}

/// The registry once the worker of tap `id` has ended: the tap is stopped,
/// unless it ended in error.
pub open spec fn finalize_spec(v: Seq<TapView>, id: Seq<char>) -> Seq<TapView> {
    let k = index_of(v, id);
    if k >= 0 && v[k].status != TapStatus::Error {
        v.update(k, stopped(v[k]))
    } else {
        v
    }
}

/// The tap after one more chunk was written.
pub open spec fn after_chunk(
    t: TapView,
    wav_path: Seq<char>,
    transcript_path: Option<Seq<char>>,
    bytes_written: u64,
    chunk_ts: Seq<char>,
    status_detail: Option<Seq<char>>,
) -> TapView {
    TapView {
        chunks_written: (t.chunks_written + 1) as u64,
        bytes_captured: (t.bytes_captured + bytes_written) as u64,
        last_chunk_path: Some(wav_path),
        last_chunk_ts: Some(chunk_ts),
        last_transcript_path: transcript_path,
        status: TapStatus::Running,
        status_detail: status_detail,
        ..t
    }
}

/// The registry after a chunk of tap `id` was written.
pub open spec fn after_chunk_spec(
    v: Seq<TapView>,
    id: Seq<char>,
    wav_path: Seq<char>,
    transcript_path: Option<Seq<char>>,
    bytes_written: u64,
    chunk_ts: Seq<char>,
    status_detail: Option<Seq<char>>,
) -> Seq<TapView> {
    let k = index_of(v, id);
    if k >= 0 {
        v.update(
            k,
            after_chunk(v[k], wav_path, transcript_path, bytes_written, chunk_ts, status_detail),
        )
    } else {
        v
    }
}

/// The counters of tap `id` can take one more chunk of `bytes_written` bytes.
pub open spec fn counters_fit(v: Seq<TapView>, id: Seq<char>, bytes_written: u64) -> bool {
    let k = index_of(v, id);
    k >= 0 ==> v[k].chunks_written < u64::MAX && v[k].bytes_captured + bytes_written <= u64::MAX
}

/// The id given to a new tap: the application name, a dash, and the start
/// time in milliseconds since the Unix epoch.
pub open spec fn tap_id_for(app: Seq<char>, now_millis: u64) -> Seq<char> {
    app + seq!['-'] + dec_seq(now_millis as nat)
}

/// A freshly started tap.
pub open spec fn new_tap(
    app: Seq<char>,
    pid: u32,
    include_tree: bool,
    now_millis: u64,
    started_at: Seq<char>,
    plan: AudioChunkPlan,
    output_dir: Seq<char>,
) -> TapView {
    TapView {
        tap_id: tap_id_for(app, now_millis),
        app_name: app,
        target_pid: pid,
        include_tree: include_tree,
        started_at: started_at,
        chunk_seconds: plan.chunk_seconds,
        stitch_ms: plan.stitch_ms,
        chunks_written: 0,
        bytes_captured: 0,
        output_dir: output_dir,
        status: TapStatus::Running,
        status_detail: None,
        last_chunk_path: None,
        last_chunk_ts: None,
        last_transcript_path: None,
    }
}

/// Inserting a tap under its id: it replaces the tap with the same id, or is
/// added at the end.
pub open spec fn upsert(v: Seq<TapView>, t: TapView) -> Seq<TapView> {
    let k = index_of(v, t.tap_id);
    if k >= 0 {
        v.update(k, t)
    } else {
        v.push(t)
    }
}

/// Starting a tap for `app`: an active tap of that application is returned
/// as it is; otherwise `fresh` is inserted and returned.
pub open spec fn start_spec(v: Seq<TapView>, app: Seq<char>, fresh: TapView) -> (
    TapView,
    Seq<TapView>,
) {
    let a = active_index_of(v, app);
    if a >= 0 {
        (v[a], v)
    } else {
        (fresh, upsert(v, fresh))
    }
}

impl TapRegistry {
    /// Position of the tap with the given id.
    fn find(&self, tap_id: &str) -> (r: Option<usize>)
        requires
            self.wf(),
        ensures
            match r {
                Some(i) => i < self@.len() && index_of(self@, tap_id@) == i as int,
                None => index_of(self@, tap_id@) == -1,
            },
    {
        let mut i: usize = 0;
        while i < self.taps.len()
            invariant
                i <= self.taps@.len(),
                forall|j: int| 0 <= j < i ==> self@[j].tap_id != tap_id@,
            decreases self.taps.len() - i,
        {
            if str_eq(self.taps[i].tap_id.as_str(), tap_id) {
                proof {
                    lemma_first_with_id_unique(self@, tap_id@, i as int);
                }
                return Some(i);
            }
            i += 1;
        }
        proof {
            lemma_no_id(self@, tap_id@);
        }
        None
    }

    /// Position of the first active tap of the application.
    fn find_active(&self, app_name: &str) -> (r: Option<usize>)
        ensures
            match r {
                Some(i) => i < self@.len() && active_index_of(self@, app_name@) == i as int,
                None => active_index_of(self@, app_name@) == -1,
            },
    {
        let mut i: usize = 0;
        while i < self.taps.len()
            invariant
                i <= self.taps@.len(),
                forall|j: int|
                    0 <= j < i ==> !(self@[j].app_name == app_name@ && is_active(self@[j])),
            decreases self.taps.len() - i,
        {
            if str_eq(self.taps[i].app_name.as_str(), app_name) && tap_is_active(&self.taps[i]) {
                proof {
                    lemma_first_active_unique(self@, app_name@, i as int);
                }
                return Some(i);
            }
            i += 1;
        }
        None
    }

    /// Replaces the tap at position `i`.
    fn replace(&mut self, i: usize, t: ActiveTap)
        requires
            i < old(self)@.len(),
        ensures
            final(self)@ == old(self)@.update(i as int, t@),
    {
        self.taps.set(i, t);
        assert(final(self)@ =~= old(self)@.update(i as int, t@));
    }
}

/// The tap with the given id.
pub fn get_tap(registry: &TapRegistry, tap_id: &str) -> (r: Option<ActiveTap>)
    requires
        registry.wf(),
    ensures
        match r {
            Some(t) => get_spec(registry@, tap_id@) == Some(t@),
            None => get_spec(registry@, tap_id@) is None,
        },
{
    match registry.find(tap_id) {
        Some(i) => Some(registry.taps[i].duplicate()),
        None => None,
    }
}

/// Marks the tap stopped and returns it; an error names the unknown tap.
pub fn stop_tap(registry: &mut TapRegistry, tap_id: &str) -> (r: Result<ActiveTap, String>)
    requires
        old(registry).wf(),
    ensures
        final(registry).wf(),
        final(registry)@ == stop_spec(old(registry)@, tap_id@),
        match r {
            Ok(t) => get_spec(old(registry)@, tap_id@) is Some && t@ == stopped(
                get_spec(old(registry)@, tap_id@).unwrap(),
            ),
            Err(e) => get_spec(old(registry)@, tap_id@) is None && e@ == "Tap not found: "@
                + tap_id@,
        },
{
    broadcast use vstd::string::group_string_axioms;

    match registry.find(tap_id) {
        Some(i) => {
            let mut t = registry.taps[i].duplicate();
            t.status = TapStatus::Stopped;
            t.status_detail = None;
            let out = t.duplicate();
            registry.replace(i, t);
            proof {
                lemma_update_keeps_ids(old(registry)@, i as int, out@);
            }
            Ok(out)
        },
        None => {
            let msg = crate::text::join2("Tap not found: ", tap_id);
            Err(msg)
        },
    }
}

/// Replacing a tap by one with the same id keeps ids distinct.
proof fn lemma_update_keeps_ids(v: Seq<TapView>, i: int, t: TapView)
    requires
        ids_unique(v),
        0 <= i < v.len(),
        t.tap_id == v[i].tap_id,
    ensures
        ids_unique(v.update(i, t)),
{
    let w = v.update(i, t);
    assert forall|a: int, b: int|
        0 <= a < w.len() && 0 <= b < w.len() && a != b implies #[trigger] w[a].tap_id
        != #[trigger] w[b].tap_id by {
        assert(w[a].tap_id == v[a].tap_id);
        assert(w[b].tap_id == v[b].tap_id);
    }
}

/// Records a capture error on the tap; unknown taps are ignored.
pub fn update_tap_error(registry: &mut TapRegistry, tap_id: &str, error: &str)
    requires
        old(registry).wf(),
    ensures
        final(registry).wf(),
        final(registry)@ == error_spec(old(registry)@, tap_id@, error@),
{
    broadcast use vstd::string::group_string_axioms;

    if let Some(i) = registry.find(tap_id) {
        let mut t = registry.taps[i].duplicate();
        t.status = TapStatus::Error;
        t.status_detail = Some(error.to_string());
        let ghost tv = t@;
        registry.replace(i, t);
        proof {
            lemma_update_keeps_ids(old(registry)@, i as int, tv);
        }
    }
}

/// Marks the tap stopped once its worker has ended, keeping an error status.
pub fn finalize_tap_stop(registry: &mut TapRegistry, tap_id: &str)
    requires
        old(registry).wf(),
    ensures
        final(registry).wf(),
        final(registry)@ == finalize_spec(old(registry)@, tap_id@),
{
    if let Some(i) = registry.find(tap_id) {
        if registry.taps[i].status != TapStatus::Error {
            let mut t = registry.taps[i].duplicate();
            t.status = TapStatus::Stopped;
            t.status_detail = None;
            let ghost tv = t@;
            registry.replace(i, t);
            proof {
                lemma_update_keeps_ids(old(registry)@, i as int, tv);
            }
        }
    }
}

/// Records a written chunk on the tap: counters advance, the chunk and
/// transcript paths and time are kept, and the tap is running again with the
/// given detail (such as a transcription failure).
pub fn update_tap_after_chunk(
    registry: &mut TapRegistry,
    tap_id: &str,
    wav_path: &str,
    transcript_path: Option<&str>,
    bytes_written: u64,
    chunk_ts: &str,
    status_detail: Option<&str>,
)
    requires
        old(registry).wf(),
        counters_fit(old(registry)@, tap_id@, bytes_written),
    ensures
        final(registry).wf(),
        final(registry)@ == after_chunk_spec(
            old(registry)@,
            tap_id@,
            wav_path@,
            opt_str_view(transcript_path),
            bytes_written,
            chunk_ts@,
            opt_str_view(status_detail),
        ),
{
    broadcast use vstd::string::group_string_axioms;

    if let Some(i) = registry.find(tap_id) {
        let mut t = registry.taps[i].duplicate();
        t.chunks_written = t.chunks_written + 1;
        t.bytes_captured = t.bytes_captured + bytes_written;
        t.last_chunk_path = Some(wav_path.to_string());
        t.last_chunk_ts = Some(chunk_ts.to_string());
        t.last_transcript_path = opt_to_string(transcript_path);
        t.status = TapStatus::Running;
        t.status_detail = opt_to_string(status_detail);
        let ghost tv = t@;
        registry.replace(i, t);
        proof {
            lemma_update_keeps_ids(old(registry)@, i as int, tv);
        }
    }
}

/// Stores a new tap for `app_name` on process `pid`, or returns the tap that
/// is already active for that application; the flag tells whether a new tap
/// was stored. A new tap is running, has no chunk yet, takes its id from
/// `app_name` and `now_millis`, and is stored under that id.
fn insert_tap(
    registry: &mut TapRegistry,
    config: &AppConfig,
    app_name: &str,
    pid: u32,
    include_tree: bool,
    now_millis: u64,
    started_at: &str,
) -> (r: (ActiveTap, bool))
    requires
        old(registry).wf(),
    ensures
        final(registry).wf(),
        ({
            let plan = plan_of(config.audio_chunk_seconds, config.audio_stitch_ms);
            let fresh = new_tap(
                app_name@,
                pid,
                include_tree,
                now_millis,
                started_at@,
                plan,
                config.audio_output_dir@,
            );
            let (t, v) = start_spec(old(registry)@, app_name@, fresh);
            r.0@ == t && final(registry)@ == v
        }),
        r.1 == (active_index_of(old(registry)@, app_name@) < 0),
{
    broadcast use vstd::string::group_string_axioms;

    let plan = chunk_plan(config);
    if let Some(i) = registry.find_active(app_name) {
        return (registry.taps[i].duplicate(), false);
    }
    let mut id_chars = chars_of(app_name);
    id_chars.push('-');
    push_u64_dec(&mut id_chars, now_millis);
    let tap_id = string_of(&id_chars);
    assert(tap_id@ =~= tap_id_for(app_name@, now_millis));
    let tap = ActiveTap {
        tap_id,
        app_name: app_name.to_string(),
        target_pid: pid,
        include_tree,
        started_at: started_at.to_string(),
        chunk_seconds: plan.chunk_seconds,
        stitch_ms: plan.stitch_ms,
        chunks_written: 0,
        bytes_captured: 0,
        output_dir: config.audio_output_dir.clone(),
        status: TapStatus::Running,
        status_detail: None,
        last_chunk_path: None,
        last_chunk_ts: None,
        last_transcript_path: None,
    };
    let out = tap.duplicate();
    match registry.find(tap.tap_id.as_str()) {
        Some(i) => {
            let ghost tv = tap@;
            registry.replace(i, tap);
            proof {
                lemma_update_keeps_ids(old(registry)@, i as int, tv);
            }
        },
        None => {
            let ghost before = registry@;
            let ghost tv = tap@;
            registry.taps.push(tap);
            assert(registry@ =~= before.push(tv));
            assert forall|a: int, b: int|
                0 <= a < registry@.len() && 0 <= b < registry@.len() && a != b implies
                #[trigger] registry@[a].tap_id != #[trigger] registry@[b].tap_id by {
                if a == before.len() as int {
                    lemma_index_none(before, tv.tap_id, b);
                } else if b == before.len() as int {
                    lemma_index_none(before, tv.tap_id, a);
                }
            }
        },
    }
    (out, true)
}

/// Starts a tap for `app_name`. `dirs_ready` is the outcome of creating the
/// output directories, `backend` the capture backend and `sessions` the
/// audio sessions (consulted only for a zero `pid`). On any error the error
/// is returned and the registry is unchanged. Otherwise the tap already active
/// for the application is returned, or a new running tap on the resolved
/// process is stored and returned; the flag tells whether a new tap was
/// started (and needs a capture worker).
pub fn start_tap(
    registry: &mut TapRegistry,
    config: &AppConfig,
    dirs_ready: Result<(), String>,
    backend: CaptureBackendState,
    app_name: &str,
    pid: u32,
    sessions: Result<Vec<AudioSessionInfo>, String>,
    include_tree: bool,
    now_millis: u64,
    started_at: &str,
) -> (r: Result<(ActiveTap, bool), String>)
    requires
        old(registry).wf(),
    ensures
        final(registry).wf(),
        dirs_ready matches Err(e) ==> (r matches Err(e2) && e2@ == e@ && final(registry)@ == old(
            registry,
        )@),
        dirs_ready is Ok ==> match start_pid_of(backend, pid, app_name@, sessions_view(sessions)) {
            Err(e) => r matches Err(e2) && e2@ == e && final(registry)@ == old(registry)@,
            Ok(p) => r matches Ok(res) && ({
                let plan = plan_of(config.audio_chunk_seconds, config.audio_stitch_ms);
                let fresh = new_tap(
                    app_name@,
                    p,
                    include_tree,
                    now_millis,
                    started_at@,
                    plan,
                    config.audio_output_dir@,
                );
                let (t, v) = start_spec(old(registry)@, app_name@, fresh);
                &&& res.0@ == t
                &&& final(registry)@ == v
                &&& res.1 == (active_index_of(old(registry)@, app_name@) < 0)
            }),
        },
{
    match dirs_ready {
        Err(e) => {
            return Err(e);
        },
        Ok(()) => {},
    }
    let p = match tap_start_pid(backend, pid, app_name, sessions) {
        Ok(p) => p,
        Err(e) => {
            return Err(e);
        },
    };
    Ok(insert_tap(registry, config, app_name, p, include_tree, now_millis, started_at))
}

// ---------------------------------------------------------------------------
// Laws of the registry
// ---------------------------------------------------------------------------
/// Stopping a tap and then reading it gives the tap marked stopped, which is
/// no longer active; stopping an unknown tap changes nothing.
pub proof fn law_stop_then_get(v: Seq<TapView>, id: Seq<char>)
    requires
        ids_unique(v),
    ensures
        get_spec(v, id) is Some ==> get_spec(stop_spec(v, id), id) == Some(
            stopped(get_spec(v, id).unwrap()),
        ),
        get_spec(v, id) is Some ==> !is_active(get_spec(stop_spec(v, id), id).unwrap()),
        get_spec(v, id) is None ==> stop_spec(v, id) == v,
{
    let k = index_of(v, id);
    if k >= 0 {
        assert(first_with_id(v, id, k));
        let w = stop_spec(v, id);
        assert(w[k].tap_id == id);
        assert forall|j: int| 0 <= j < k implies w[j].tap_id != id by {
            assert(w[j] == v[j]);
        }
        lemma_first_with_id_unique(w, id, k);
    }
}

/// Once a capture error is recorded, ending the worker keeps the error: the
/// tap is not reported as cleanly stopped.
pub proof fn law_finalize_keeps_error(v: Seq<TapView>, id: Seq<char>, error: Seq<char>)
    requires
        ids_unique(v),
        get_spec(v, id) is Some,
    ensures
        get_spec(finalize_spec(error_spec(v, id, error), id), id) == get_spec(
            error_spec(v, id, error),
            id,
        ),
        get_spec(error_spec(v, id, error), id).unwrap().status == TapStatus::Error,
        get_spec(error_spec(v, id, error), id).unwrap().status_detail == Some(error),
{
    let k = index_of(v, id);
    assert(first_with_id(v, id, k));
    let w = error_spec(v, id, error);
    assert forall|j: int| 0 <= j < k implies w[j].tap_id != id by {
        assert(w[j] == v[j]);
    }
    lemma_first_with_id_unique(w, id, k);
}

/// Ending the worker of a tap that did not fail leaves it stopped.
pub proof fn law_finalize_stops(v: Seq<TapView>, id: Seq<char>)
    requires
        ids_unique(v),
        get_spec(v, id) is Some,
        get_spec(v, id).unwrap().status != TapStatus::Error,
    ensures
        get_spec(finalize_spec(v, id), id) == Some(stopped(get_spec(v, id).unwrap())),
{
    let k = index_of(v, id);
    assert(first_with_id(v, id, k));
    let w = finalize_spec(v, id);
    assert forall|j: int| 0 <= j < k implies w[j].tap_id != id by {
        assert(w[j] == v[j]);
    }
    lemma_first_with_id_unique(w, id, k);
}

/// Recording a chunk of `bytes_written` bytes adds those bytes to the tap's
/// captured total and counts one more chunk: the totals accumulate, they are
/// never replaced by the last chunk's figures.
pub proof fn law_chunk_counts_accumulate(
    v: Seq<TapView>,
    id: Seq<char>,
    wav_path: Seq<char>,
    transcript_path: Option<Seq<char>>,
    bytes_written: u64,
    chunk_ts: Seq<char>,
    status_detail: Option<Seq<char>>,
)
    requires
        ids_unique(v),
        get_spec(v, id) is Some,
        counters_fit(v, id, bytes_written),
    ensures
        ({
            let before = get_spec(v, id).unwrap();
            let w = after_chunk_spec(
                v,
                id,
                wav_path,
                transcript_path,
                bytes_written,
                chunk_ts,
                status_detail,
            );
            &&& get_spec(w, id) is Some
            &&& get_spec(w, id).unwrap().bytes_captured == before.bytes_captured + bytes_written
            &&& get_spec(w, id).unwrap().chunks_written == before.chunks_written + 1
            &&& get_spec(w, id).unwrap().tap_id == id
            &&& get_spec(w, id).unwrap().app_name == before.app_name
            &&& w.len() == v.len()
            &&& forall|other: Seq<char>|
                other != id ==> #[trigger] get_spec(w, other) == get_spec(v, other)
        }),
{
    let k = index_of(v, id);
    assert(first_with_id(v, id, k));
    let w = after_chunk_spec(
        v,
        id,
        wav_path,
        transcript_path,
        bytes_written,
        chunk_ts,
        status_detail,
    );
    assert forall|j: int| 0 <= j < k implies w[j].tap_id != id by {
        assert(w[j] == v[j]);
    }
    lemma_first_with_id_unique(w, id, k);
    assert forall|other: Seq<char>| other != id implies #[trigger] get_spec(w, other) == get_spec(
        v,
        other,
    ) by {
        assert forall|j: int| 0 <= j < v.len() implies w[j].tap_id == v[j].tap_id && (j != k
            ==> w[j] == v[j]) by {}
        let ko = index_of(v, other);
        if ko >= 0 {
            assert(first_with_id(v, other, ko));
            assert(ko != k);
            assert(first_with_id(w, other, ko));
            lemma_first_with_id_unique(w, other, ko);
        } else {
            if index_of(w, other) >= 0 {
                let kw = index_of(w, other);
                assert(first_with_id(w, other, kw));
                assert(first_with_id(v, other, kw));
                lemma_first_with_id_unique(v, other, kw);
            }
        }
    }
}

/// A written chunk leaves the tap running, with the detail it was given: a
/// failed transcription does not stop the tap.
pub proof fn law_chunk_keeps_tap_running(
    v: Seq<TapView>,
    id: Seq<char>,
    wav_path: Seq<char>,
    transcript_path: Option<Seq<char>>,
    bytes_written: u64,
    chunk_ts: Seq<char>,
    status_detail: Option<Seq<char>>,
)
    requires
        ids_unique(v),
        get_spec(v, id) is Some,
    ensures
        ({
            let w = after_chunk_spec(
                v,
                id,
                wav_path,
                transcript_path,
                bytes_written,
                chunk_ts,
                status_detail,
            );
            &&& get_spec(w, id) is Some
            &&& get_spec(w, id).unwrap().status == TapStatus::Running
            &&& get_spec(w, id).unwrap().status_detail == status_detail
            &&& get_spec(w, id).unwrap().last_chunk_path == Some(wav_path)
            &&& get_spec(w, id).unwrap().last_transcript_path == transcript_path
        }),
{
    let k = index_of(v, id);
    assert(first_with_id(v, id, k));
    let w = after_chunk_spec(
        v,
        id,
        wav_path,
        transcript_path,
        bytes_written,
        chunk_ts,
        status_detail,
    );
    assert forall|j: int| 0 <= j < k implies w[j].tap_id != id by {
        assert(w[j] == v[j]);
    }
    lemma_first_with_id_unique(w, id, k);
}

/// Starting a tap for an application that already has one running gives
/// back the same tap and leaves the registry as it was: repeated starts do
/// not create duplicate taps.
pub proof fn law_start_is_idempotent(
    v: Seq<TapView>,
    app: Seq<char>,
    fresh1: TapView,
    fresh2: TapView,
)
    requires
        ids_unique(v),
        fresh1.app_name == app,
        is_active(fresh1),
    ensures
        ({
            let (t1, v1) = start_spec(v, app, fresh1);
            let (t2, v2) = start_spec(v1, app, fresh2);
            t2 == t1 && v2 == v1
        }),
{
    let a = active_index_of(v, app);
    if a >= 0 {
        assert(first_active_of(v, app, a));
    } else {
        assert forall|j: int| 0 <= j < v.len() implies !(v[j].app_name == app && is_active(
            v[j],
        )) by {
            if v[j].app_name == app && is_active(v[j]) {
                lemma_exists_first_active(v, app, j);
            }
        }
        let v1 = upsert(v, fresh1);
        let k = index_of(v, fresh1.tap_id);
        let pos = if k >= 0 {
            k
        } else {
            v.len() as int
        };
        assert(v1[pos] == fresh1);
        assert forall|j: int| 0 <= j < pos implies !(v1[j].app_name == app && is_active(v1[j])) by {
            assert(v1[j] == v[j]);
        }
        lemma_first_active_unique(v1, app, pos);
    }
}

/// When no position is reported for an id, no tap holds it.
proof fn lemma_index_none(v: Seq<TapView>, id: Seq<char>, j: int)
    requires
        index_of(v, id) == -1,
        0 <= j < v.len(),
    ensures
        v[j].tap_id != id,
    decreases j,
{
    if v[j].tap_id == id {
        if forall|k: int| 0 <= k < j ==> v[k].tap_id != id {
            assert(first_with_id(v, id, j));
        } else {
            let k = choose|k: int| 0 <= k < j && v[k].tap_id == id;
            lemma_index_none(v, id, k);
        }
    }
}

/// When some position holds an active tap of `app`, there is a first one.
proof fn lemma_exists_first_active(v: Seq<TapView>, app: Seq<char>, i: int)
    requires
        0 <= i < v.len(),
        v[i].app_name == app && is_active(v[i]),
    ensures
        exists|k: int| first_active_of(v, app, k),
    decreases i,
{
    if forall|j: int| 0 <= j < i ==> !(v[j].app_name == app && is_active(v[j])) {
        assert(first_active_of(v, app, i));
    } else {
        let j = choose|j: int| 0 <= j < i && (v[j].app_name == app && is_active(v[j]));
        lemma_exists_first_active(v, app, j);
    }
}

// ---------------------------------------------------------------------------
// Status and recorded files
// ---------------------------------------------------------------------------
/// What the audio service reports about itself.
#[derive(Debug, Clone)]
pub struct AudioStatusSnapshot {
    pub running: bool,
    pub project: AudioProjectStatus,
    pub active_taps: Vec<ActiveTap>,
    pub audio_bind: String,
    pub audio_port: u16,
    pub audio_transport: String,
    pub audio_output_dir: String,
    pub whisper_url: String,
}

/// The service status: running, the project status, every registered tap in
/// registry order, and the audio settings of the configuration.
pub fn status_snapshot(config: &AppConfig, registry: &TapRegistry, on_windows: bool) -> (s:
    AudioStatusSnapshot)
    ensures
        s.running,
        is_project_status(s.project, *config, on_windows),
        s.active_taps@ == registry.taps@,
        s.audio_bind == config.audio_bind,
        s.audio_port == config.audio_port,
        s.audio_transport == config.audio_transport,
        s.audio_output_dir == config.audio_output_dir,
        s.whisper_url == config.whisper_url,
{
    let mut taps: Vec<ActiveTap> = Vec::new();
    let mut i: usize = 0;
    while i < registry.taps.len()
        invariant
            i <= registry.taps@.len(),
            taps@ == registry.taps@.take(i as int),
        decreases registry.taps.len() - i,
    {
        taps.push(registry.taps[i].duplicate());
        assert(taps@ =~= registry.taps@.take(i as int + 1));
        i += 1;
    }
    assert(registry.taps@.take(registry.taps@.len() as int) =~= registry.taps@);
    AudioStatusSnapshot {
        running: true,
        project: project_status(config, on_windows),
        active_taps: taps,
        audio_bind: config.audio_bind.clone(),
        audio_port: config.audio_port,
        audio_transport: config.audio_transport.clone(),
        audio_output_dir: config.audio_output_dir.clone(),
        whisper_url: config.whisper_url.clone(),
    }
}

/// The file of the tap's latest chunk; an error when it has written none.
pub fn latest_chunk_path(tap: &ActiveTap) -> (r: Result<String, String>)
    ensures
        match tap.last_chunk_path {
            Some(p) => r matches Ok(q) && q@ == p@,
            None => r matches Err(e) && e@ == "Tap "@ + tap.tap_id@ + " has no chunk yet"@,
        },
{
    match &tap.last_chunk_path {
        Some(p) => Ok(p.clone()),
        None => {
            let v = concat_chars(
                &concat_chars(&chars_of("Tap "), &chars_of(tap.tap_id.as_str())),
                &chars_of(" has no chunk yet"),
            );
            Err(string_of(&v))
        },
    }
}

/// The file of the tap's latest transcript; an error when there is none.
pub fn latest_transcript_path(tap: &ActiveTap) -> (r: Result<String, String>)
    ensures
        match tap.last_transcript_path {
            Some(p) => r matches Ok(q) && q@ == p@,
            None => r matches Err(e) && e@ == "Tap "@ + tap.tap_id@ + " has no transcript yet"@,
        },
{
    match &tap.last_transcript_path {
        Some(p) => Ok(p.clone()),
        None => {
            let v = concat_chars(
                &concat_chars(&chars_of("Tap "), &chars_of(tap.tap_id.as_str())),
                &chars_of(" has no transcript yet"),
            );
            Err(string_of(&v))
        },
    }
}

} // verus!
