//! The decisions of a capture-and-compare run: which profile applies,
//! whether ground truth is fetched and from which stream, and the report
//! returned when it is not.
use vstd::prelude::*;

use crate::compare::{ComparisonReport, ExtractionResult, Status};
use crate::config::ExtractionProfile;
use crate::retention::{extension_of, has_extension};
use crate::text::{chars_of, concat_chars, eq_str, str_eq, string_of};

verus! {

/// Position of the first profile with the name, or -1.
pub open spec fn profile_index(ps: Seq<ExtractionProfile>, name: Seq<char>) -> int
    decreases ps.len(),
{
    if ps.len() == 0 {
        -1
    } else if ps[0].name@ == name {
        0
    } else {
        let k = profile_index(ps.drop_first(), name);
        if k < 0 {
            -1
        } else {
            k + 1
        }
    }
}

/// The first profile with the requested name; an error names it when there
/// is none.
pub fn find_profile<'a>(profiles: &'a Vec<ExtractionProfile>, name: &str) -> (r: Result<
    &'a ExtractionProfile,
    String,
>)
    ensures
        ({
            let k = profile_index(profiles@, name@);
            match r {
                Ok(p) => 0 <= k < profiles@.len() && *p == profiles@[k],
                Err(e) => k == -1 && e@ == "Profile '"@ + name@ + "' not found"@,
            }
        }),
{
    let ghost ps = profiles@;
    let mut i: usize = 0;
    assert(ps.skip(0) =~= ps);
    while i < profiles.len()
        invariant
            i <= ps.len(),
            ps == profiles@,
            profile_index(ps, name@) == (if profile_index(ps.skip(i as int), name@) < 0 {
                -1
            } else {
                profile_index(ps.skip(i as int), name@) + i
            }),
        decreases profiles.len() - i,
    {
        assert(ps.skip(i as int).drop_first() =~= ps.skip(i as int + 1));
        assert(ps.skip(i as int)[0] == ps[i as int]);
        if str_eq(profiles[i].name.as_str(), name) {
            return Ok(&profiles[i]);
        }
        i += 1;
    }
    let v = concat_chars(
        &concat_chars(&chars_of("Profile '"), &chars_of(name)),
        &chars_of("' not found"),
    );
    Err(string_of(&v))
}

/// The names of the loaded profiles, in order.
pub fn profile_names(profiles: &Vec<ExtractionProfile>) -> (r: Vec<String>)
    ensures
        r@.len() == profiles@.len(),
        forall|k: int| 0 <= k < r@.len() ==> (#[trigger] r@[k])@ == profiles@[k].name@,
{
    let mut r: Vec<String> = Vec::new();
    let mut i: usize = 0;
    while i < profiles.len()
        invariant
            i <= profiles@.len(),
            r@.len() == i,
            forall|k: int| 0 <= k < i ==> (#[trigger] r@[k])@ == profiles@[k].name@,
        decreases profiles.len() - i,
    {
        r.push(profiles[i].name.clone());
        i += 1;
    }
    r
}

/// A profile file: one whose extension is `json`.
pub fn is_profile_file(name: &str) -> (b: bool)
    requires
        name@.len() < i64::MAX,
    ensures
        b == (extension_of(name@) == Some("json"@)),
{
    has_extension(&chars_of(name), &chars_of("json"))
}

/// The stream ground truth is read from: none in extract-only mode or when
/// the profile has no truth source; otherwise the profile's stream, or
/// `market.depth`.
pub fn truth_stream(mode: &str, profile: &ExtractionProfile) -> (r: Option<String>)
    ensures
        (mode@ == "extract_only"@ || profile.truth_source.source_type@ == "none"@) ==> r is None,
        !(mode@ == "extract_only"@ || profile.truth_source.source_type@ == "none"@) ==> (r matches Some(
            s,
        ) && s@ == match profile.truth_source.stream {
            Some(t) => t@,
            None => "market.depth"@,
        }),
{
    broadcast use vstd::string::group_string_axioms;

    if str_eq(mode, "extract_only") || str_eq(profile.truth_source.source_type.as_str(), "none") {
        return None;
    }
    match &profile.truth_source.stream {
        Some(t) => Some(t.clone()),
        None => Some("market.depth".to_string()),
    }
}

/// The report of an extract-only run: the extraction itself, its level
/// counts, and no comparison.
pub fn extract_only_report(
    now_millis: u64,
    symbol: String,
    extracted: ExtractionResult,
    api_latency_ms: u64,
    cost_pico_usd: u128,
) -> (r: ComparisonReport)
    ensures
        r.timestamp == now_millis,
        r.symbol == symbol,
        r.overall == Status::ExtractOnly,
        r.extracted_bids == extracted.bids@.len(),
        r.extracted_asks == extracted.asks@.len(),
        r.truth_bids == 0,
        r.truth_asks == 0,
        !r.best_bid_match,
        !r.best_ask_match,
        r.mismatches@.len() == 0,
        r.missing@.len() == 0,
        r.extra@.len() == 0,
        r.api_latency_ms == api_latency_ms,
        r.estimated_cost_pico_usd == cost_pico_usd,
        r.extraction == Some(extracted),
{
    let extracted_bids = extracted.bids.len();
    let extracted_asks = extracted.asks.len();
    ComparisonReport {
        timestamp: now_millis,
        symbol,
        overall: Status::ExtractOnly,
        extracted_bids,
        extracted_asks,
        truth_bids: 0,
        truth_asks: 0,
        best_bid_match: false,
        best_ask_match: false,
        mismatches: Vec::new(),
        missing: Vec::new(),
        extra: Vec::new(),
        api_latency_ms,
        estimated_cost_pico_usd: cost_pico_usd,
        extraction: Some(extracted),
    }
}

/// A comparison report completed with the call's latency and cost.
pub fn finish_report(report: ComparisonReport, api_latency_ms: u64, cost_pico_usd: u128) -> (r:
    ComparisonReport)
    ensures
        r == (ComparisonReport {
            api_latency_ms,
            estimated_cost_pico_usd: cost_pico_usd,
            ..report
        }),
{
    let mut r = report;
    r.api_latency_ms = api_latency_ms;
    r.estimated_cost_pico_usd = cost_pico_usd;
    r
}

} // verus!
