//! Cutting a captured mono sample stream into stitched chunks.
//!
//! Samples arrive one at a time at 48 kHz. Every `chunk_seconds` worth of
//! samples forms a nominal chunk; each chunk after the first is written with
//! the last `stitch_ms` of the previous nominal chunk in front of it, so that
//! speech cut at a chunk boundary appears whole in one of the files.
use vstd::prelude::*;

use crate::audio::{plan_ok, window_of, AudioChunkPlan};

verus! {

/// Capture sample rate in frames per second.
pub const SAMPLE_RATE: u64 = 48_000;

/// Frames in one nominal chunk.
pub open spec fn frames_per_chunk(plan: AudioChunkPlan) -> int {
    plan.chunk_seconds * 48000
}

/// Frames of overlap in front of each later chunk (`stitch_ms` at 48 kHz).
pub open spec fn preroll_frames(plan: AudioChunkPlan) -> int {
    plan.stitch_ms * 48000 / 1000
}

/// The last `count` samples (all of them when there are fewer).
pub open spec fn tail_seq(s: Seq<i16>, count: int) -> Seq<i16> {
    if count <= 0 {
        Seq::empty()
    } else if s.len() <= count {
        s
    } else {
        s.subrange(s.len() - count, s.len() as int)
    }
}

/// The samples written for chunk `index`: the previous tail in front of the
/// nominal samples, except for the first chunk.
pub open spec fn stitch_seq(index: int, tail: Seq<i16>, nominal: Seq<i16>) -> Seq<i16> {
    if index > 0 {
        tail + nominal
    } else {
        nominal
    }
}

/// The last `count` samples of `samples`.
pub fn tail_samples(samples: &Vec<i16>, count: usize) -> (r: Vec<i16>)
    ensures
        r@ == tail_seq(samples@, count as int),
{
    if count == 0 || samples.len() == 0 {
        return Vec::new();
    }
    let start: usize = if samples.len() > count {
        samples.len() - count
    } else {
        0
    };
    let mut r: Vec<i16> = Vec::new();
    let mut i: usize = start;
    while i < samples.len()
        invariant
            start <= i <= samples@.len(),
            r@ == samples@.subrange(start as int, i as int),
        decreases samples.len() - i,
    {
        r.push(samples[i]);
        i += 1;
    }
    assert(samples@.subrange(0, samples@.len() as int) =~= samples@);
    r
}

/// A chunk ready to be written: its index and its stitched samples.
#[derive(Debug, Clone)]
pub struct PendingChunk {
    pub chunk_index: u64,
    pub samples: Vec<i16>,
}

/// What the assembler has done so far, as mathematical values.
pub struct AssemblerView {
    /// Stitched samples of every chunk handed out, in order.
    pub chunks: Seq<Seq<i16>>,
    pub index: int,
    pub nominal: Seq<i16>,
    pub tail: Seq<i16>,
}

/// The assembler before any sample.
pub open spec fn fresh_view() -> AssemblerView {
    AssemblerView { chunks: Seq::empty(), index: 0, nominal: Seq::empty(), tail: Seq::empty() }
}

/// One sample pushed into the assembler.
pub open spec fn step(st: AssemblerView, x: i16, f: int, p: int) -> AssemblerView {
    let nom = st.nominal.push(x);
    if nom.len() >= f {
        AssemblerView {
            chunks: st.chunks.push(stitch_seq(st.index, st.tail, nom)),
            index: st.index + 1,
            nominal: Seq::empty(),
            tail: tail_seq(nom, p),
        }
    } else {
        AssemblerView { chunks: st.chunks, index: st.index, nominal: nom, tail: st.tail }
    }
}

/// The assembler after every sample of `s`, pushed in order.
pub open spec fn run(s: Seq<i16>, f: int, p: int) -> AssemblerView
    decreases s.len(),
{
    if s.len() == 0 {
        fresh_view()
    } else {
        step(run(s.drop_last(), f, p), s.last(), f, p)
    }
}

/// Nominal samples of chunk `k`.
pub open spec fn window_samples(s: Seq<i16>, f: int, k: int) -> Seq<i16> {
    s.subrange(k * f, (k + 1) * f)
}

/// Stitched samples of chunk `k`, stated directly over the input.
pub open spec fn chunk_samples(s: Seq<i16>, f: int, p: int, k: int) -> Seq<i16> {
    if k > 0 {
        tail_seq(window_samples(s, f, k - 1), p) + window_samples(s, f, k)
    } else {
        window_samples(s, f, 0)
    }
}

/// Cuts the sample stream of one tap into stitched chunks.
pub struct ChunkAssembler {
    pub chunk_frames: usize,
    pub preroll_frames: usize,
    pub chunk_index: u64,
    pub nominal: Vec<i16>,
    pub last_tail: Vec<i16>,
}

impl ChunkAssembler {
    pub open spec fn as_state(&self, chunks: Seq<Seq<i16>>) -> AssemblerView {
        AssemblerView {
            chunks,
            index: self.chunk_index as int,
            nominal: self.nominal@,
            tail: self.last_tail@,
        }
    }

    pub open spec fn wf(&self) -> bool {
        &&& self.chunk_frames > 0
        &&& self.nominal@.len() < self.chunk_frames
        &&& self.last_tail@.len() <= self.preroll_frames
    }

    /// An empty assembler for the plan.
    pub fn new(plan: AudioChunkPlan) -> (a: ChunkAssembler)
        requires
            plan_ok(plan),
            frames_per_chunk(plan) <= usize::MAX,
        ensures
            a.wf(),
            a.chunk_frames == frames_per_chunk(plan),
            a.preroll_frames == preroll_frames(plan),
            a.chunk_index == 0,
            a.nominal@ == Seq::<i16>::empty(),
            a.last_tail@ == Seq::<i16>::empty(),
    {
        let chunk_frames = (plan.chunk_seconds as usize) * 48000;
        let preroll = (plan.stitch_ms as usize) * 48000 / 1000;
        ChunkAssembler {
            chunk_frames,
            preroll_frames: preroll,
            chunk_index: 0,
            nominal: Vec::new(),
            last_tail: Vec::new(),
        }
    }

    /// Adds one sample; hands out the stitched chunk when the nominal chunk
    /// is full.
    pub fn push(&mut self, sample: i16) -> (r: Option<PendingChunk>)
        requires
            old(self).wf(),
            old(self).chunk_index < u64::MAX,
        ensures
            final(self).wf(),
            final(self).chunk_frames == old(self).chunk_frames,
            final(self).preroll_frames == old(self).preroll_frames,
            ({
                let before = old(self).as_state(Seq::empty());
                let after = step(
                    before,
                    sample,
                    old(self).chunk_frames as int,
                    old(self).preroll_frames as int,
                );
                &&& final(self).as_state(Seq::empty()).index == after.index
                &&& final(self).nominal@ == after.nominal
                &&& final(self).last_tail@ == after.tail
                &&& match r {
                    Some(c) => after.chunks == seq![c.samples@] && c.chunk_index
                        == old(self).chunk_index,
                    None => after.chunks == Seq::<Seq<i16>>::empty(),
                }
            }),
    {
        self.nominal.push(sample);
        if self.nominal.len() >= self.chunk_frames {
            let chunk = self.stitched();
            let index = self.chunk_index;
            self.chunk_index = self.chunk_index + 1;
            self.last_tail = tail_samples(&self.nominal, self.preroll_frames);
            self.nominal = Vec::new();
            assert(seq![chunk@] == Seq::<Seq<i16>>::empty().push(chunk@));
            Some(PendingChunk { chunk_index: index, samples: chunk })
        } else {
            None
        }
    }

    /// The samples written for the current chunk.
    fn stitched(&self) -> (r: Vec<i16>)
        ensures
            r@ == stitch_seq(self.chunk_index as int, self.last_tail@, self.nominal@),
    {
        let mut r: Vec<i16> = Vec::new();
        if self.chunk_index > 0 {
            let mut i: usize = 0;
            while i < self.last_tail.len()
                invariant
                    i <= self.last_tail@.len(),
                    r@ == self.last_tail@.subrange(0, i as int),
                decreases self.last_tail.len() - i,
            {
                r.push(self.last_tail[i]);
                i += 1;
            }
        }
        let ghost base = r@;
        let mut j: usize = 0;
        while j < self.nominal.len()
            invariant
                j <= self.nominal@.len(),
                r@ == base + self.nominal@.subrange(0, j as int),
            decreases self.nominal.len() - j,
        {
            r.push(self.nominal[j]);
            j += 1;
        }
        assert(self.last_tail@.subrange(0, self.last_tail@.len() as int) =~= self.last_tail@);
        assert(self.nominal@.subrange(0, self.nominal@.len() as int) =~= self.nominal@);
        r
    }

    /// The last, partly filled chunk when the stream ends, if it holds any
    /// sample.
    pub fn finish(&self) -> (r: Option<PendingChunk>)
        ensures
            self.nominal@.len() == 0 ==> r is None,
            self.nominal@.len() > 0 ==> (r matches Some(c) && c.chunk_index == self.chunk_index
                && c.samples@ == stitch_seq(
                self.chunk_index as int,
                self.last_tail@,
                self.nominal@,
            )),
    {
        if self.nominal.len() == 0 {
            None
        } else {
            Some(PendingChunk { chunk_index: self.chunk_index, samples: self.stitched() })
        }
    }
}

proof fn lemma_div_step(len: int, f: int)
    requires
        f > 0,
        len >= 0,
    ensures
        (len % f) + 1 < f ==> (len + 1) / f == len / f && (len + 1) % f == len % f + 1,
        (len % f) + 1 == f ==> (len + 1) / f == len / f + 1 && (len + 1) % f == 0,
        0 <= len % f < f,
        len == (len / f) * f + len % f,
        len / f >= 0,
{
    vstd::arithmetic::div_mod::lemma_fundamental_div_mod(len, f);
    assert(f * (len / f) == (len / f) * f) by (nonlinear_arith);
    let q = len / f;
    let r = len % f;
    assert(0 <= r < f);
    assert(q >= 0) by (nonlinear_arith)
        requires
            len >= 0,
            f > 0,
            q == len / f,
    ;
    if r + 1 < f {
        vstd::arithmetic::div_mod::lemma_fundamental_div_mod_converse(len + 1, f, q, r + 1);
    } else if r + 1 == f {
        assert(len + 1 == (q + 1) * f + 0) by (nonlinear_arith)
            requires
                len == q * f + r,
                r + 1 == f,
        ;
        vstd::arithmetic::div_mod::lemma_fundamental_div_mod_converse(len + 1, f, q + 1, 0);
    }
}

proof fn lemma_mul_succ(k: int, f: int)
    ensures
        (k + 1) * f == k * f + f,
{
    assert((k + 1) * f == k * f + f) by (nonlinear_arith);
}

proof fn lemma_mul_mono(a: int, b: int, f: int)
    requires
        a <= b,
        f >= 0,
    ensures
        a * f <= b * f,
{
    assert(a * f <= b * f) by (nonlinear_arith)
        requires
            a <= b,
            f >= 0,
    ;
}

/// Pushing the samples of `s` one by one hands out, for every full window
/// `k`, exactly the samples of window `k` with the last `p` samples of
/// window `k - 1` in front of them (none before the first window), and
/// keeps the unfinished window as the nominal samples.
pub proof fn law_chunks_are_stitched_windows(s: Seq<i16>, f: int, p: int)
    requires
        f > 0,
    ensures
        run(s, f, p).index == s.len() as int / f,
        run(s, f, p).chunks.len() == s.len() as int / f,
        forall|k: int|
            0 <= k < s.len() as int / f ==> #[trigger] run(s, f, p).chunks[k] == chunk_samples(s, f, p, k),
        run(s, f, p).nominal == s.subrange((s.len() as int / f) * f, s.len() as int),
        s.len() as int / f > 0 ==> run(s, f, p).tail == tail_seq(
            window_samples(s, f, s.len() as int / f - 1),
            p,
        ),
    decreases s.len(),
{
    if s.len() == 0 {
        assert(s.subrange(0, 0) =~= Seq::<i16>::empty());
    } else {
        let t = s.drop_last();
        let x = s.last();
        law_chunks_are_stitched_windows(t, f, p);
        lemma_div_step(t.len() as int, f);
        let n = t.len() as int / f;
        let st = run(t, f, p);
        assert(t.len() + 1 == s.len());
        lemma_mul_succ(n, f);
        assert(n * f <= t.len());
        // The windows of `t` are windows of `s`.
        assert forall|k: int| 0 <= k < n implies #[trigger] window_samples(t, f, k)
            == window_samples(s, f, k) by {
            lemma_mul_succ(k, f);
            lemma_mul_mono(k + 1, n, f);
            assert(window_samples(t, f, k) =~= window_samples(s, f, k));
        }
        assert forall|k: int| 0 <= k < n implies chunk_samples(t, f, p, k) == chunk_samples(
            s,
            f,
            p,
            k,
        ) by {
            if k > 0 {
                assert(window_samples(t, f, k - 1) == window_samples(s, f, k - 1));
            }
            assert(window_samples(t, f, k) == window_samples(s, f, k));
        }
        let nom = st.nominal.push(x);
        assert(nom =~= s.subrange(n * f, s.len() as int));
        if nom.len() >= f {
            // The window closes.
            assert(s.len() as int / f == n + 1);
            assert(nom == window_samples(s, f, n));
            if n > 0 {
                assert(window_samples(t, f, n - 1) == window_samples(s, f, n - 1)) by {
                    lemma_mul_succ(n - 1, f);
                    assert(window_samples(t, f, n - 1) =~= window_samples(s, f, n - 1));
                }
            }
            assert(stitch_seq(st.index, st.tail, nom) == chunk_samples(s, f, p, n));
            assert(s.subrange((n + 1) * f, s.len() as int) =~= Seq::<i16>::empty());
        } else {
            assert(s.len() as int / f == n);
            if n > 0 {
                assert(window_samples(t, f, n - 1) == window_samples(s, f, n - 1)) by {
                    lemma_mul_succ(n - 1, f);
                    assert(window_samples(t, f, n - 1) =~= window_samples(s, f, n - 1));
                }
            }
        }
    }
}

/// With the plan's sizes, every chunk after the first holds as many samples
/// as its capture window spans at 48 kHz: the overlap in front of it is the
/// plan's stitch, which never exceeds a chunk.
pub proof fn law_chunk_length_matches_window(s: Seq<i16>, plan: AudioChunkPlan, k: int)
    requires
        plan_ok(plan),
        1 <= k < s.len() as int / frames_per_chunk(plan),
        ((k + 1) * (plan.chunk_seconds * 1000)) <= u64::MAX,
    ensures
        chunk_samples(s, frames_per_chunk(plan), preroll_frames(plan), k).len() == ({
            let w = window_of(plan, k as u64);
            (w.capture_end_ms - w.capture_start_ms) * 48
        }),
{
    let f = frames_per_chunk(plan);
    let p = preroll_frames(plan);
    lemma_div_step(s.len() as int, f);
    let n = s.len() as int / f;
    lemma_mul_succ(k, f);
    lemma_mul_mono(k + 1, n, f);
    assert(s.len() >= n * f);
    assert(p == plan.stitch_ms * 48);
    assert(p <= f);
    assert(window_samples(s, f, k - 1).len() == f) by {
        lemma_mul_succ(k - 1, f);
    }
    let cm = plan.chunk_seconds * 1000;
    assert(k * cm <= (k + 1) * cm) by {
        lemma_mul_mono(k, k + 1, cm);
    }
    assert(k * cm >= cm) by {
        lemma_mul_mono(1, k, cm);
    }
    lemma_mul_succ(k, cm);
    assert(k + 1 <= (k + 1) * cm) by (nonlinear_arith)
        requires
            k >= 1,
            cm >= 1,
    ;
    assert((k as u64) as int == k);
    let w = window_of(plan, k as u64);
    assert(w.nominal_start_ms == k * cm);
    assert(w.capture_end_ms == k * cm + cm);
    assert(w.capture_start_ms == k * cm - plan.stitch_ms);
}

} // verus!
