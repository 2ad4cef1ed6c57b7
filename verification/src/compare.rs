//! Comparison of an order book read off the screen with the ground-truth
//! book. Prices are fixed-point integers in price units (millionths).
use vstd::prelude::*;

use crate::config::{spec_to_uppercase, strip_leading_slashes, tick_for, tick_size};

verus! {

// ---------------------------------------------------------------------------
// Extracted and ground-truth books
// ---------------------------------------------------------------------------
#[derive(Debug, Clone, Copy, PartialEq, Eq)]
pub struct ExtractedLevel {
    pub price: i64,
    pub volume: Option<u64>,
}

#[derive(Debug, Clone, Copy, PartialEq, Eq)]
pub struct LevelCount {
    pub bids: usize,
    pub asks: usize,
}

#[derive(Debug, Clone)]
pub struct ExtractionResult {
    pub symbol: Option<String>,
    pub display_type: String,
    pub bids: Vec<ExtractedLevel>,
    pub asks: Vec<ExtractedLevel>,
    pub best_bid: i64,
    pub best_ask: i64,
    pub spread: i64,
    pub level_count: Option<LevelCount>,
    pub confidence: String,
    pub notes: Option<String>,
}

#[derive(Debug, Clone, Copy, PartialEq, Eq)]
pub struct TruthLevel {
    pub price: i64,
    pub total_volume: u64,
}

#[derive(Debug, Clone)]
pub struct DepthSnapshot {
    pub stream_id: String,
    pub timestamp: u64,
    pub symbol: String,
    pub source: String,
    pub bids: Vec<TruthLevel>,
    pub asks: Vec<TruthLevel>,
}

// ---------------------------------------------------------------------------
// Report
// ---------------------------------------------------------------------------
#[allow(non_camel_case_types)]
#[derive(Debug, Clone, Copy, PartialEq, Eq, Structural)]
pub enum Status {
    PASS,
    WARN,
    FAIL,
    ExtractOnly,
}

#[derive(Debug, Clone)]
pub struct Mismatch {
    pub side: String,
    pub price: i64,
    pub extracted_volume: u64,
    pub truth_volume: u64,
}

#[derive(Debug, Clone)]
pub struct MissingLevel {
    pub side: String,
    pub price: i64,
    pub volume: u64,
}

#[derive(Debug, Clone)]
pub struct ExtraLevel {
    pub side: String,
    pub price: i64,
    pub volume: Option<u64>,
}

/// Result of one capture: `estimated_cost_pico_usd` is in 10^-12 dollars.
#[derive(Debug, Clone)]
pub struct ComparisonReport {
    pub timestamp: u64,
    pub symbol: String,
    pub overall: Status,
    pub extracted_bids: usize,
    pub extracted_asks: usize,
    pub truth_bids: usize,
    pub truth_asks: usize,
    pub best_bid_match: bool,
    pub best_ask_match: bool,
    pub mismatches: Vec<Mismatch>,
    pub missing: Vec<MissingLevel>,
    pub extra: Vec<ExtraLevel>,
    pub api_latency_ms: u64,
    pub estimated_cost_pico_usd: u128,
    pub extraction: Option<ExtractionResult>,
}

pub open spec fn mismatch_view(m: Mismatch) -> (Seq<char>, i64, u64, u64) {
    (m.side@, m.price, m.extracted_volume, m.truth_volume)
}

pub open spec fn missing_view(m: MissingLevel) -> (Seq<char>, i64, u64) {
    (m.side@, m.price, m.volume)
}

pub open spec fn extra_view(m: ExtraLevel) -> (Seq<char>, i64, Option<u64>) {
    (m.side@, m.price, m.volume)
}

// ---------------------------------------------------------------------------
// Matching rules
// ---------------------------------------------------------------------------
pub open spec fn abs_diff(a: i64, b: i64) -> int {
    if a >= b {
        a - b
    } else {
        b - a
    }
}

/// Two prices are the same level when they are less than half a tick apart.
pub open spec fn within(a: i64, b: i64, tick: u64) -> bool {
    2 * abs_diff(a, b) < tick
}

/// Position of the first extracted level at the truth price, or -1.
pub open spec fn near_index(es: Seq<ExtractedLevel>, price: i64, tick: u64) -> int
    decreases es.len(),
{
    if es.len() == 0 {
        -1
    } else if within(es[0].price, price, tick) {
        0
    } else {
        let k = near_index(es.drop_first(), price, tick);
        if k < 0 {
            -1
        } else {
            k + 1
        }
    }
}

/// Some truth level is at the extracted price.
pub open spec fn in_truth(ts: Seq<TruthLevel>, price: i64, tick: u64) -> bool {
    exists|i: int| 0 <= i < ts.len() && within(price, #[trigger] ts[i].price, tick)
}

/// Truth levels (price, volume) with no extracted level at their price.
pub open spec fn missing_side(ts: Seq<TruthLevel>, es: Seq<ExtractedLevel>, tick: u64) -> Seq<
    (i64, u64),
>
    decreases ts.len(),
{
    if ts.len() == 0 {
        Seq::empty()
    } else {
        let rest = missing_side(ts.drop_last(), es, tick);
        let t = ts.last();
        if near_index(es, t.price, tick) < 0 {
            rest.push((t.price, t.total_volume))
        } else {
            rest
        }
    }
}

/// Truth levels whose first extracted level at their price shows a different
/// volume: (price, extracted volume, truth volume). A level whose volume
/// could not be read is no mismatch.
pub open spec fn mismatch_side(ts: Seq<TruthLevel>, es: Seq<ExtractedLevel>, tick: u64) -> Seq<
    (i64, u64, u64),
>
    decreases ts.len(),
{
    if ts.len() == 0 {
        Seq::empty()
    } else {
        let rest = mismatch_side(ts.drop_last(), es, tick);
        let t = ts.last();
        let k = near_index(es, t.price, tick);
        if k >= 0 && es[k].volume is Some && es[k].volume.unwrap() != t.total_volume {
            rest.push((t.price, es[k].volume.unwrap(), t.total_volume))
        } else {
            rest
        }
    }
}

/// Extracted levels (price, volume) at no truth price.
pub open spec fn extra_side(ts: Seq<TruthLevel>, es: Seq<ExtractedLevel>, tick: u64) -> Seq<
    (i64, Option<u64>),
>
    decreases es.len(),
{
    if es.len() == 0 {
        Seq::empty()
    } else {
        let rest = extra_side(ts, es.drop_last(), tick);
        let e = es.last();
        if !in_truth(ts, e.price, tick) {
            rest.push((e.price, e.volume))
        } else {
            rest
        }
    }
}

pub open spec fn tag2(side: Seq<char>, s: Seq<(i64, u64)>) -> Seq<(Seq<char>, i64, u64)> {
    s.map_values(|x: (i64, u64)| (side, x.0, x.1))
}

pub open spec fn tag3(side: Seq<char>, s: Seq<(i64, u64, u64)>) -> Seq<(Seq<char>, i64, u64, u64)> {
    s.map_values(|x: (i64, u64, u64)| (side, x.0, x.1, x.2))
}

pub open spec fn tag_opt(side: Seq<char>, s: Seq<(i64, Option<u64>)>) -> Seq<
    (Seq<char>, i64, Option<u64>),
> {
    s.map_values(|x: (i64, Option<u64>)| (side, x.0, x.1))
}

/// The best price matches when the truth side is empty or its first level is
/// at that price.
pub open spec fn best_matches(best: i64, ts: Seq<TruthLevel>, tick: u64) -> bool {
    ts.len() == 0 || within(best, ts[0].price, tick)
}

/// The overall status: any volume mismatch, or more than three missing levels,
/// fails; any missing level, or a side whose level count differs from the
/// truth's, warns; otherwise it passes.
pub open spec fn verdict(mismatches: nat, missing: nat, counts_match: bool) -> Status {
    if mismatches > 0 || missing > 3 {
        Status::FAIL
    } else if missing > 0 || !counts_match {
        Status::WARN
    } else {
        Status::PASS
    }
}

/// The report that comparing `ex` with `tr` at tick size `tick` produces.
pub open spec fn report_matches(
    ex: ExtractionResult,
    tr: DepthSnapshot,
    tick: u64,
    now_millis: u64,
    r: ComparisonReport,
) -> bool {
    let bb = best_matches(ex.best_bid, tr.bids@, tick);
    let ba = best_matches(ex.best_ask, tr.asks@, tick);
    &&& r.timestamp == now_millis
    &&& r.symbol@ == tr.symbol@
    &&& r.extracted_bids == ex.bids@.len()
    &&& r.extracted_asks == ex.asks@.len()
    &&& r.truth_bids == tr.bids@.len()
    &&& r.truth_asks == tr.asks@.len()
    &&& r.best_bid_match == bb
    &&& r.best_ask_match == ba
    &&& r.mismatches@.map_values(|m: Mismatch| mismatch_view(m)) == tag3(
        "bids"@,
        mismatch_side(tr.bids@, ex.bids@, tick),
    ) + tag3("asks"@, mismatch_side(tr.asks@, ex.asks@, tick))
    &&& r.missing@.map_values(|m: MissingLevel| missing_view(m)) == tag2(
        "bids"@,
        missing_side(tr.bids@, ex.bids@, tick),
    ) + tag2("asks"@, missing_side(tr.asks@, ex.asks@, tick))
    &&& r.extra@.map_values(|m: ExtraLevel| extra_view(m)) == tag_opt(
        "bids"@,
        extra_side(tr.bids@, ex.bids@, tick),
    ) + tag_opt("asks"@, extra_side(tr.asks@, ex.asks@, tick))
    &&& r.overall == verdict(
        r.mismatches@.len(),
        r.missing@.len(),
        ex.bids@.len() == tr.bids@.len() && ex.asks@.len() == tr.asks@.len(),
    )
    &&& r.api_latency_ms == 0
    &&& r.estimated_cost_pico_usd == 0
    &&& r.extraction is None
}

// ---------------------------------------------------------------------------
// Implementation
// ---------------------------------------------------------------------------
fn within_exec(a: i64, b: i64, tick: u64) -> (r: bool)
    ensures
        r == within(a, b, tick),
{
    let d: i128 = if a >= b {
        (a as i128) - (b as i128)
    } else {
        (b as i128) - (a as i128)
    };
    2 * d < (tick as i128)
}

fn near_index_exec(es: &Vec<ExtractedLevel>, price: i64, tick: u64) -> (r: Option<usize>)
    ensures
        match r {
            Some(k) => near_index(es@, price, tick) == k as int && k < es@.len(),
            None => near_index(es@, price, tick) == -1,
        },
{
    let mut i: usize = 0;
    assert(es@.skip(0) =~= es@);
    while i < es.len()
        invariant
            i <= es@.len(),
            near_index(es@, price, tick) == (if near_index(es@.skip(i as int), price, tick) < 0 {
                -1
            } else {
                near_index(es@.skip(i as int), price, tick) + i
            }),
        decreases es.len() - i,
    {
        assert(es@.skip(i as int).drop_first() =~= es@.skip(i as int + 1));
        assert(es@.skip(i as int)[0] == es@[i as int]);
        if within_exec(es[i].price, price, tick) {
            return Some(i);
        }
        i += 1;
    }
    None
}

fn in_truth_exec(ts: &Vec<TruthLevel>, price: i64, tick: u64) -> (r: bool)
    ensures
        r == in_truth(ts@, price, tick),
{
    let mut i: usize = 0;
    while i < ts.len()
        invariant
            i <= ts@.len(),
            forall|j: int| 0 <= j < i ==> !within(price, #[trigger] ts@[j].price, tick),
        decreases ts.len() - i,
    {
        if within_exec(price, ts[i].price, tick) {
            return true;
        }
        i += 1;
    }
    false
}

/// Compares one side of the book, appending its missing levels, volume
/// mismatches and extra levels under the side's name.
fn compare_side(
    side: &str,
    ts: &Vec<TruthLevel>,
    es: &Vec<ExtractedLevel>,
    tick: u64,
    mismatches: &mut Vec<Mismatch>,
    missing: &mut Vec<MissingLevel>,
    extra: &mut Vec<ExtraLevel>,
)
    ensures
        final(mismatches)@.map_values(|m: Mismatch| mismatch_view(m)) == old(
            mismatches,
        )@.map_values(|m: Mismatch| mismatch_view(m)) + tag3(side@, mismatch_side(ts@, es@, tick)),
        final(missing)@.map_values(|m: MissingLevel| missing_view(m)) == old(missing)@.map_values(
            |m: MissingLevel| missing_view(m),
        ) + tag2(side@, missing_side(ts@, es@, tick)),
        final(extra)@.map_values(|m: ExtraLevel| extra_view(m)) == old(extra)@.map_values(
            |m: ExtraLevel| extra_view(m),
        ) + tag_opt(side@, extra_side(ts@, es@, tick)),
{
    broadcast use vstd::string::group_string_axioms;

    let ghost mm0 = mismatches@.map_values(|m: Mismatch| mismatch_view(m));
    let ghost ms0 = missing@.map_values(|m: MissingLevel| missing_view(m));
    let ghost ex0 = extra@.map_values(|m: ExtraLevel| extra_view(m));
    let mut i: usize = 0;
    while i < ts.len()
        invariant
            i <= ts@.len(),
            mismatches@.map_values(|m: Mismatch| mismatch_view(m)) == mm0 + tag3(
                side@,
                mismatch_side(ts@.take(i as int), es@, tick),
            ),
            missing@.map_values(|m: MissingLevel| missing_view(m)) == ms0 + tag2(
                side@,
                missing_side(ts@.take(i as int), es@, tick),
            ),
            extra@.map_values(|m: ExtraLevel| extra_view(m)) == ex0,
        decreases ts.len() - i,
    {
        let t = ts[i];
        let ghost pre = ts@.take(i as int);
        assert(ts@.take(i as int + 1).drop_last() =~= pre);
        assert(ts@.take(i as int + 1).last() == t);
        let ghost mm_before = mismatches@;
        let ghost ms_before = missing@;
        match near_index_exec(es, t.price, tick) {
            None => {
                let m = MissingLevel { side: side.to_string(), price: t.price, volume: t.total_volume };
                assert(missing_view(m) == (side@, t.price, t.total_volume));
                assert(missing_side(ts@.take(i as int + 1), es@, tick) == missing_side(pre, es@, tick).push((t.price, t.total_volume)));
                assert(tag2(side@, missing_side(pre, es@, tick).push((t.price, t.total_volume))) =~= tag2(side@, missing_side(pre, es@, tick)).push((side@, t.price, t.total_volume)));
                missing.push(m);
                assert(missing@.map_values(|m: MissingLevel| missing_view(m)) =~= ms_before.map_values(|m: MissingLevel| missing_view(m)).push(missing_view(m)));
                assert(missing@.map_values(|m: MissingLevel| missing_view(m)) =~= ms0 + tag2(
                    side@,
                    missing_side(ts@.take(i as int + 1), es@, tick),
                ));
                assert(mismatches@ == mm_before);
            },
            Some(k) => {
                match es[k].volume {
                    Some(ev) => {
                        if ev != t.total_volume {
                            let m = Mismatch {
                                side: side.to_string(),
                                price: t.price,
                                extracted_volume: ev,
                                truth_volume: t.total_volume,
                            };
                            let ghost x = (t.price, ev, t.total_volume);
                            assert(mismatch_view(m) == (side@, x.0, x.1, x.2));
                            assert(mismatch_side(ts@.take(i as int + 1), es@, tick) == mismatch_side(pre, es@, tick).push(x));
                            assert(tag3(side@, mismatch_side(pre, es@, tick).push(x)) =~= tag3(side@, mismatch_side(pre, es@, tick)).push((side@, x.0, x.1, x.2)));
                            mismatches.push(m);
                            assert(mismatches@.map_values(|m: Mismatch| mismatch_view(m)) =~= mm_before.map_values(|m: Mismatch| mismatch_view(m)).push(mismatch_view(m)));
                            assert(mismatches@.map_values(|m: Mismatch| mismatch_view(m))
                                =~= mm0 + tag3(
                                side@,
                                mismatch_side(ts@.take(i as int + 1), es@, tick),
                            ));
                        }
                    },
                    None => {},
                }
                assert(mismatches@.map_values(|m: Mismatch| mismatch_view(m)) =~= mm0 + tag3(
                    side@,
                    mismatch_side(ts@.take(i as int + 1), es@, tick),
                ));
                assert(missing@ == ms_before);
            },
        }
        i += 1;
    }
    assert(ts@.take(ts@.len() as int) =~= ts@);
    let mut j: usize = 0;
    while j < es.len()
        invariant
            j <= es@.len(),
            extra@.map_values(|m: ExtraLevel| extra_view(m)) == ex0 + tag_opt(
                side@,
                extra_side(ts@, es@.take(j as int), tick),
            ),
        decreases es.len() - j,
    {
        let e = es[j];
        assert(es@.take(j as int + 1).drop_last() =~= es@.take(j as int));
        assert(es@.take(j as int + 1).last() == e);
        let ghost ex_before = extra@;
        if !in_truth_exec(ts, e.price, tick) {
            let m = ExtraLevel { side: side.to_string(), price: e.price, volume: e.volume };
            let ghost x = (e.price, e.volume);
            assert(extra_view(m) == (side@, x.0, x.1));
            assert(extra_side(ts@, es@.take(j as int + 1), tick) == extra_side(ts@, es@.take(j as int), tick).push(x));
            assert(tag_opt(side@, extra_side(ts@, es@.take(j as int), tick).push(x)) =~= tag_opt(side@, extra_side(ts@, es@.take(j as int), tick)).push((side@, x.0, x.1)));
            extra.push(m);
            assert(extra@.map_values(|m: ExtraLevel| extra_view(m)) =~= ex_before.map_values(|m: ExtraLevel| extra_view(m)).push(extra_view(m)));
        }
        assert(extra@.map_values(|m: ExtraLevel| extra_view(m)) =~= ex0 + tag_opt(
            side@,
            extra_side(ts@, es@.take(j as int + 1), tick),
        ));
        j += 1;
    }
    assert(es@.take(es@.len() as int) =~= es@);
}

/// Compares the extracted book with the ground-truth book at the given tick
/// size (in price units), stamping the report with `now_millis`.
pub fn compare_books_with_tick(
    extracted: &ExtractionResult,
    truth: &DepthSnapshot,
    tick: u64,
    now_millis: u64,
) -> (r: ComparisonReport)
    ensures
        report_matches(*extracted, *truth, tick, now_millis, r),
{
    broadcast use vstd::string::group_string_axioms;

    let best_bid_match = if truth.bids.len() == 0 {
        true
    } else {
        within_exec(extracted.best_bid, truth.bids[0].price, tick)
    };
    let best_ask_match = if truth.asks.len() == 0 {
        true
    } else {
        within_exec(extracted.best_ask, truth.asks[0].price, tick)
    };
    let mut mismatches: Vec<Mismatch> = Vec::new();
    let mut missing: Vec<MissingLevel> = Vec::new();
    let mut extra: Vec<ExtraLevel> = Vec::new();
    assert(mismatches@.map_values(|m: Mismatch| mismatch_view(m)) =~= Seq::empty());
    assert(missing@.map_values(|m: MissingLevel| missing_view(m)) =~= Seq::empty());
    assert(extra@.map_values(|m: ExtraLevel| extra_view(m)) =~= Seq::empty());
    compare_side("bids", &truth.bids, &extracted.bids, tick, &mut mismatches, &mut missing, &mut extra);
    compare_side("asks", &truth.asks, &extracted.asks, tick, &mut mismatches, &mut missing, &mut extra);
    let counts_match = extracted.bids.len() == truth.bids.len() && extracted.asks.len()
        == truth.asks.len();
    let overall = if mismatches.len() > 0 || missing.len() > 3 {
        Status::FAIL
    } else if missing.len() > 0 || !counts_match {
        Status::WARN
    } else {
        Status::PASS
    };
    assert(mismatches@.len() == mismatches@.map_values(|m: Mismatch| mismatch_view(m)).len());
    ComparisonReport {
        timestamp: now_millis,
        symbol: truth.symbol.clone(),
        overall,
        extracted_bids: extracted.bids.len(),
        extracted_asks: extracted.asks.len(),
        truth_bids: truth.bids.len(),
        truth_asks: truth.asks.len(),
        best_bid_match,
        best_ask_match,
        mismatches,
        missing,
        extra,
        api_latency_ms: 0,
        estimated_cost_pico_usd: 0,
        extraction: None,
    }
}

/// Compares the extracted book with the ground-truth book, matching prices
/// within half a tick of the truth symbol's tick size.
pub fn compare_books(extracted: &ExtractionResult, truth: &DepthSnapshot, now_millis: u64) -> (r:
    ComparisonReport)
    ensures
        report_matches(
            *extracted,
            *truth,
            tick_for(spec_to_uppercase(strip_leading_slashes(truth.symbol@))),
            now_millis,
            r,
        ),
{
    let tick = tick_size(truth.symbol.as_str());
    compare_books_with_tick(extracted, truth, tick, now_millis)
}

// ---------------------------------------------------------------------------
// Laws of the comparison
// ---------------------------------------------------------------------------
/// `near_index` finds the first extracted level at the price, and reports
/// -1 only when there is none.
pub proof fn lemma_near_index(es: Seq<ExtractedLevel>, price: i64, tick: u64)
    ensures
        near_index(es, price, tick) < 0 <==> forall|j: int|
            0 <= j < es.len() ==> !within(#[trigger] es[j].price, price, tick),
        near_index(es, price, tick) >= 0 ==> {
            let k = near_index(es, price, tick);
            &&& k < es.len()
            &&& within(es[k].price, price, tick)
            &&& forall|j: int| 0 <= j < k ==> !within(#[trigger] es[j].price, price, tick)
        },
    decreases es.len(),
{
    if es.len() > 0 {
        lemma_near_index(es.drop_first(), price, tick);
        let t = es.drop_first();
        assert forall|j: int| 1 <= j < es.len() implies es[j].price == t[j - 1].price by {}
        if !within(es[0].price, price, tick) && near_index(t, price, tick) < 0 {
            assert forall|j: int| 0 <= j < es.len() implies !within(
                #[trigger] es[j].price,
                price,
                tick,
            ) by {
                if j > 0 {
                    assert(!within(t[j - 1].price, price, tick));
                }
            }
        }
        if !within(es[0].price, price, tick) && near_index(t, price, tick) >= 0 {
            let k = near_index(t, price, tick);
            assert forall|j: int| 0 <= j < k + 1 implies !within(
                #[trigger] es[j].price,
                price,
                tick,
            ) by {
                if j > 0 {
                    assert(!within(t[j - 1].price, price, tick));
                }
            }
        }
    }
}

/// Nothing is dropped: every truth level either has an extracted level at
/// its price or is reported missing, and a level is reported missing only
/// when no extracted level is at its price.
pub proof fn law_missing_exact(ts: Seq<TruthLevel>, es: Seq<ExtractedLevel>, tick: u64)
    ensures
        forall|i: int|
            0 <= i < ts.len() ==> (exists|j: int|
                0 <= j < es.len() && within(es[j].price, #[trigger] ts[i].price, tick))
                || missing_side(ts, es, tick).contains((ts[i].price, ts[i].total_volume)),
        forall|m: (i64, u64)|
            #[trigger] missing_side(ts, es, tick).contains(m) ==> forall|j: int|
                0 <= j < es.len() ==> !within(es[j].price, m.0, tick),
    decreases ts.len(),
{
    if ts.len() > 0 {
        let pre = ts.drop_last();
        law_missing_exact(pre, es, tick);
        let t = ts.last();
        lemma_near_index(es, t.price, tick);
        let rest = missing_side(pre, es, tick);
        let ms = missing_side(ts, es, tick);
        assert forall|i: int| 0 <= i < ts.len() implies (exists|j: int|
            0 <= j < es.len() && within(es[j].price, #[trigger] ts[i].price, tick))
            || ms.contains((ts[i].price, ts[i].total_volume)) by {
            if i < ts.len() - 1 {
                assert(pre[i] == ts[i]);
                if rest.contains((ts[i].price, ts[i].total_volume)) {
                    let w = choose|w: int|
                        0 <= w < rest.len() && rest[w] == (ts[i].price, ts[i].total_volume);
                    if near_index(es, t.price, tick) < 0 {
                        assert(ms[w] == rest[w]);
                    }
                }
            } else {
                if near_index(es, t.price, tick) < 0 {
                    assert(ms[ms.len() - 1] == (t.price, t.total_volume));
                } else {
                    let k = near_index(es, t.price, tick);
                    assert(within(es[k].price, ts[i].price, tick));
                }
            }
        }
        assert forall|m: (i64, u64)| #[trigger] ms.contains(m) implies forall|j: int|
            0 <= j < es.len() ==> !within(es[j].price, m.0, tick) by {
            let w = choose|w: int| 0 <= w < ms.len() && ms[w] == m;
            if near_index(es, t.price, tick) < 0 && w == ms.len() - 1 {
            } else {
                assert(rest[w] == m);
                assert(rest.contains(m));
            }
        }
    }
}

/// `k` is the first extracted level at the price of truth level `i`.
pub open spec fn first_match(ts: Seq<TruthLevel>, es: Seq<ExtractedLevel>, tick: u64, i: int, k: int) -> bool {
    &&& 0 <= i < ts.len()
    &&& 0 <= k < es.len()
    &&& within(es[k].price, ts[i].price, tick)
    &&& forall|j: int| 0 <= j < k ==> !within(#[trigger] es[j].price, ts[i].price, tick)
}

/// A volume read differently from the truth, in either direction, is a
/// mismatch: for a truth level whose first extracted level at its price
/// shows a volume, the side's mismatches list (price, read volume, true
/// volume) exactly when the two volumes differ, and every listed mismatch
/// comes from such a level.
pub proof fn law_mismatch_exact(ts: Seq<TruthLevel>, es: Seq<ExtractedLevel>, tick: u64)
    ensures
        forall|i: int, k: int|
            #![trigger first_match(ts, es, tick, i, k)]
            first_match(ts, es, tick, i, k) && es[k].volume is Some && es[k].volume.unwrap()
                != ts[i].total_volume ==> mismatch_side(ts, es, tick).contains(
                (ts[i].price, es[k].volume.unwrap(), ts[i].total_volume),
            ),
        forall|m: (i64, u64, u64)| #[trigger]
            mismatch_side(ts, es, tick).contains(m) ==> m.1 != m.2 && exists|i: int, k: int|
                first_match(ts, es, tick, i, k) && ts[i].price == m.0 && ts[i].total_volume
                    == m.2 && es[k].volume == Some(m.1),
    decreases ts.len(),
{
    if ts.len() > 0 {
        let pre = ts.drop_last();
        law_mismatch_exact(pre, es, tick);
        let n = ts.len() - 1;
        let t = ts.last();
        lemma_near_index(es, t.price, tick);
        let rest = mismatch_side(pre, es, tick);
        let ms = mismatch_side(ts, es, tick);
        let kk = near_index(es, t.price, tick);
        let hit = kk >= 0 && es[kk].volume is Some && es[kk].volume.unwrap() != t.total_volume;
        assert forall|i: int, k: int|
            #![trigger first_match(ts, es, tick, i, k)]
            first_match(ts, es, tick, i, k) && es[k].volume is Some && es[k].volume.unwrap()
                != ts[i].total_volume implies ms.contains(
            (ts[i].price, es[k].volume.unwrap(), ts[i].total_volume),
        ) by {
            if i < n {
                assert(pre[i] == ts[i]);
                assert(first_match(pre, es, tick, i, k));
                let e = (ts[i].price, es[k].volume.unwrap(), ts[i].total_volume);
                assert(rest.contains(e));
                let w = choose|w: int| 0 <= w < rest.len() && rest[w] == e;
                if hit {
                    assert(ms[w] == rest[w]);
                } else {
                    assert(ms == rest);
                }
            } else {
                // The first match is unique, so it is the one `near_index` finds.
                if kk < 0 {
                    assert(!within(es[k].price, t.price, tick));
                } else if kk < k {
                    assert(!within(es[kk].price, t.price, tick));
                } else if k < kk {
                    assert(!within(es[k].price, t.price, tick));
                }
                assert(kk == k);
                assert(ms[ms.len() - 1] == (t.price, es[k].volume.unwrap(), t.total_volume));
            }
        }
        assert forall|m: (i64, u64, u64)| #[trigger] ms.contains(m) implies m.1 != m.2
            && exists|i: int, k: int|
            first_match(ts, es, tick, i, k) && ts[i].price == m.0 && ts[i].total_volume == m.2
                && es[k].volume == Some(m.1) by {
            let w = choose|w: int| 0 <= w < ms.len() && ms[w] == m;
            if hit && w == ms.len() - 1 {
                assert(first_match(ts, es, tick, n, kk));
            } else {
                assert(rest[w] == m);
                assert(rest.contains(m));
                let (i, k) = choose|i: int, k: int|
                    first_match(pre, es, tick, i, k) && pre[i].price == m.0 && pre[i].total_volume
                        == m.2 && es[k].volume == Some(m.1);
                assert(pre[i] == ts[i]);
                assert(first_match(ts, es, tick, i, k));
            }
        }
    }
}

pub open spec fn truth_side(tr: DepthSnapshot, bids: bool) -> Seq<TruthLevel> {
    if bids {
        tr.bids@
    } else {
        tr.asks@
    }
}

pub open spec fn extracted_side(ex: ExtractionResult, bids: bool) -> Seq<ExtractedLevel> {
    if bids {
        ex.bids@
    } else {
        ex.asks@
    }
}

pub open spec fn side_label(bids: bool) -> Seq<char> {
    if bids {
        "bids"@
    } else {
        "asks"@
    }
}

/// In a comparison report, a truth level of either side whose first extracted
/// level at its price shows a different volume, higher or lower, is listed as
/// a mismatch with its side, price, read volume and true volume, and the
/// report fails.
pub proof fn law_volume_difference_fails(
    ex: ExtractionResult,
    tr: DepthSnapshot,
    tick: u64,
    now_millis: u64,
    r: ComparisonReport,
    bids: bool,
    i: int,
    k: int,
)
    requires
        report_matches(ex, tr, tick, now_millis, r),
        first_match(truth_side(tr, bids), extracted_side(ex, bids), tick, i, k),
        extracted_side(ex, bids)[k].volume is Some,
        extracted_side(ex, bids)[k].volume.unwrap() != truth_side(tr, bids)[i].total_volume,
    ensures
        exists|j: int|
            0 <= j < r.mismatches@.len() && (#[trigger] r.mismatches@[j]).side@ == side_label(bids)
                && r.mismatches@[j].price == truth_side(tr, bids)[i].price
                && r.mismatches@[j].extracted_volume == extracted_side(ex, bids)[k].volume.unwrap()
                && r.mismatches@[j].truth_volume == truth_side(tr, bids)[i].total_volume,
        r.overall == Status::FAIL,
{
    let ts = truth_side(tr, bids);
    let es = extracted_side(ex, bids);
    law_mismatch_exact(ts, es, tick);
    let e = (ts[i].price, es[k].volume.unwrap(), ts[i].total_volume);
    assert(first_match(ts, es, tick, i, k));
    let ms = mismatch_side(ts, es, tick);
    assert(ms.contains(e));
    let w = choose|w: int| 0 <= w < ms.len() && ms[w] == e;
    let tb = tag3("bids"@, mismatch_side(tr.bids@, ex.bids@, tick));
    let ta = tag3("asks"@, mismatch_side(tr.asks@, ex.asks@, tick));
    let views = r.mismatches@.map_values(|m: Mismatch| mismatch_view(m));
    assert(views == tb + ta);
    assert(views.len() == r.mismatches@.len());
    assert(tb.len() == mismatch_side(tr.bids@, ex.bids@, tick).len());
    assert(ta.len() == mismatch_side(tr.asks@, ex.asks@, tick).len());
    let j = if bids {
        w
    } else {
        tb.len() + w
    };
    assert(0 <= j < views.len());
    if bids {
        assert(views[j] == tb[w]);
    } else {
        assert(views[j] == ta[w]);
    }
    assert(views[j] == (side_label(bids), e.0, e.1, e.2));
    assert(views[j] == mismatch_view(r.mismatches@[j]));
    assert(r.mismatches@[j].side@ == side_label(bids));
}

/// Extracted levels are reported extra exactly when no truth level is at
/// their price.
pub proof fn law_extra_exact(ts: Seq<TruthLevel>, es: Seq<ExtractedLevel>, tick: u64)
    ensures
        forall|j: int|
            0 <= j < es.len() ==> (in_truth(ts, #[trigger] es[j].price, tick) || extra_side(
                ts,
                es,
                tick,
            ).contains((es[j].price, es[j].volume))),
        forall|m: (i64, Option<u64>)| #[trigger]
            extra_side(ts, es, tick).contains(m) ==> !in_truth(ts, m.0, tick),
    decreases es.len(),
{
    if es.len() > 0 {
        let pre = es.drop_last();
        law_extra_exact(ts, pre, tick);
        let e = es.last();
        let rest = extra_side(ts, pre, tick);
        let xs = extra_side(ts, es, tick);
        assert forall|j: int| 0 <= j < es.len() implies (in_truth(ts, #[trigger] es[j].price, tick)
            || xs.contains((es[j].price, es[j].volume))) by {
            if j < es.len() - 1 {
                assert(pre[j] == es[j]);
                if !in_truth(ts, es[j].price, tick) {
                    assert(rest.contains((pre[j].price, pre[j].volume)));
                    let w = choose|w: int|
                        0 <= w < rest.len() && rest[w] == (pre[j].price, pre[j].volume);
                    assert(xs[w] == rest[w]);
                }
            } else if !in_truth(ts, e.price, tick) {
                assert(xs[xs.len() - 1] == (e.price, e.volume));
            }
        }
        assert forall|m: (i64, Option<u64>)| #[trigger] xs.contains(m) implies !in_truth(
            ts,
            m.0,
            tick,
        ) by {
            let w = choose|w: int| 0 <= w < xs.len() && xs[w] == m;
            if !in_truth(ts, e.price, tick) && w == xs.len() - 1 {
            } else {
                assert(rest[w] == m);
                assert(rest.contains(m));
            }
        }
    }
}

/// The extracted side lists the truth side's levels, at the same prices and
/// with every volume read correctly.
pub open spec fn mirrors(es: Seq<ExtractedLevel>, ts: Seq<TruthLevel>) -> bool {
    &&& es.len() == ts.len()
    &&& forall|i: int|
        0 <= i < ts.len() ==> (#[trigger] es[i]).price == ts[i].price && es[i].volume == Some(
            ts[i].total_volume,
        )
}

/// No two truth levels of a side are within half a tick of each other.
pub open spec fn spaced(ts: Seq<TruthLevel>, tick: u64) -> bool {
    forall|i: int, j: int|
        0 <= i < ts.len() && 0 <= j < ts.len() && i != j ==> !within(
            #[trigger] ts[i].price,
            #[trigger] ts[j].price,
            tick,
        )
}

proof fn lemma_mirror_near(es: Seq<ExtractedLevel>, ts: Seq<TruthLevel>, tick: u64, i: int)
    requires
        tick > 0,
        mirrors(es, ts),
        spaced(ts, tick),
        0 <= i < ts.len(),
    ensures
        near_index(es, ts[i].price, tick) == i,
{
    lemma_near_index(es, ts[i].price, tick);
    let k = near_index(es, ts[i].price, tick);
    assert(es[i].price == ts[i].price);
    assert(within(es[i].price, ts[i].price, tick));
    if k > i {
        assert(!within(es[i].price, ts[i].price, tick));
    }
    if 0 <= k < i {
        assert(es[k].price == ts[k].price);
        assert(!within(ts[k].price, ts[i].price, tick));
    }
}

proof fn lemma_no_loss(ts: Seq<TruthLevel>, es: Seq<ExtractedLevel>, tick: u64)
    requires
        forall|i: int|
            0 <= i < ts.len() ==> {
                let k = near_index(es, #[trigger] ts[i].price, tick);
                0 <= k < es.len() && es[k].volume == Some(ts[i].total_volume)
            },
    ensures
        missing_side(ts, es, tick).len() == 0,
        mismatch_side(ts, es, tick).len() == 0,
    decreases ts.len(),
{
    if ts.len() > 0 {
        let pre = ts.drop_last();
        assert forall|i: int| 0 <= i < pre.len() implies {
            let k = near_index(es, #[trigger] pre[i].price, tick);
            0 <= k < es.len() && es[k].volume == Some(pre[i].total_volume)
        } by {
            assert(pre[i] == ts[i]);
        }
        lemma_no_loss(pre, es, tick);
        let last = ts.len() - 1;
        assert(ts.last() == ts[last]);
    }
}

proof fn lemma_no_extra(ts: Seq<TruthLevel>, es: Seq<ExtractedLevel>, tick: u64)
    requires
        forall|j: int| 0 <= j < es.len() ==> in_truth(ts, #[trigger] es[j].price, tick),
    ensures
        extra_side(ts, es, tick).len() == 0,
    decreases es.len(),
{
    if es.len() > 0 {
        let pre = es.drop_last();
        assert forall|j: int| 0 <= j < pre.len() implies in_truth(ts, #[trigger] pre[j].price, tick) by {
            assert(pre[j] == es[j]);
        }
        lemma_no_extra(ts, pre, tick);
        assert(es.last() == es[es.len() - 1]);
    }
}

proof fn lemma_mirror_side(es: Seq<ExtractedLevel>, ts: Seq<TruthLevel>, tick: u64)
    requires
        tick > 0,
        mirrors(es, ts),
        spaced(ts, tick),
    ensures
        missing_side(ts, es, tick).len() == 0,
        mismatch_side(ts, es, tick).len() == 0,
        extra_side(ts, es, tick).len() == 0,
{
    assert forall|i: int| 0 <= i < ts.len() implies {
        let k = near_index(es, #[trigger] ts[i].price, tick);
        0 <= k < es.len() && es[k].volume == Some(ts[i].total_volume)
    } by {
        lemma_mirror_near(es, ts, tick, i);
    }
    lemma_no_loss(ts, es, tick);
    assert forall|j: int| 0 <= j < es.len() implies in_truth(ts, #[trigger] es[j].price, tick) by {
        assert(within(es[j].price, ts[j].price, tick));
    }
    lemma_no_extra(ts, es, tick);
}

/// A screen reading that reproduces the truth book exactly (same prices,
/// every volume read, best prices at the top of each side) passes with no
/// mismatch, missing or extra level, provided the truth levels of each side
/// are at least half a tick apart.
pub proof fn law_identical_books_pass(
    ex: ExtractionResult,
    tr: DepthSnapshot,
    tick: u64,
    now_millis: u64,
    r: ComparisonReport,
)
    requires
        tick > 0,
        mirrors(ex.bids@, tr.bids@),
        mirrors(ex.asks@, tr.asks@),
        spaced(tr.bids@, tick),
        spaced(tr.asks@, tick),
        tr.bids@.len() > 0 ==> ex.best_bid == tr.bids@[0].price,
        tr.asks@.len() > 0 ==> ex.best_ask == tr.asks@[0].price,
        report_matches(ex, tr, tick, now_millis, r),
    ensures
        r.overall == Status::PASS,
        r.mismatches@.len() == 0,
        r.missing@.len() == 0,
        r.extra@.len() == 0,
{
    lemma_mirror_side(ex.bids@, tr.bids@, tick);
    lemma_mirror_side(ex.asks@, tr.asks@, tick);
    assert(r.mismatches@.map_values(|m: Mismatch| mismatch_view(m)).len() == 0);
    assert(r.missing@.map_values(|m: MissingLevel| missing_view(m)).len() == 0);
    assert(r.extra@.map_values(|m: ExtraLevel| extra_view(m)).len() == 0);
}

/// The verdict of a comparison: it fails exactly on a volume mismatch or
/// more than three missing levels; otherwise it warns exactly when a level is
/// missing or the extracted and true level counts of a side differ; otherwise
/// it passes. A comparison never reports extract-only.
pub proof fn law_verdict(
    ex: ExtractionResult,
    tr: DepthSnapshot,
    tick: u64,
    now_millis: u64,
    r: ComparisonReport,
)
    requires
        report_matches(ex, tr, tick, now_millis, r),
    ensures
        (r.overall == Status::FAIL) <==> (r.mismatches@.len() > 0 || r.missing@.len() > 3),
        (r.overall == Status::WARN) <==> (r.mismatches@.len() == 0 && r.missing@.len() <= 3 && (
        r.missing@.len() > 0 || ex.bids@.len() != tr.bids@.len() || ex.asks@.len()
            != tr.asks@.len())),
        (r.overall == Status::PASS) <==> (r.mismatches@.len() == 0 && r.missing@.len() == 0
            && ex.bids@.len() == tr.bids@.len() && ex.asks@.len() == tr.asks@.len()),
        r.overall != Status::ExtractOnly,
{
}

} // verus!
