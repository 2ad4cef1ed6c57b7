use condor_eye::compare::{
    compare_books, DepthSnapshot, ExtractedLevel, ExtractionResult, LevelCount, Status, TruthLevel,
};
use condor_eye::config::PRICE_SCALE;

/// A price in the library's fixed-point units.
fn px(p: f64) -> i64 {
    (p * PRICE_SCALE as f64).round() as i64
}

fn make_truth(bids: Vec<(f64, u64)>, asks: Vec<(f64, u64)>) -> DepthSnapshot {
    DepthSnapshot {
        stream_id: "1234-0".to_string(),
        timestamp: 1000,
        symbol: "SPY".to_string(),
        source: "ibkr".to_string(),
        bids: bids
            .into_iter()
            .map(|(p, v)| TruthLevel {
                price: px(p),
                total_volume: v,
            })
            .collect(),
        asks: asks
            .into_iter()
            .map(|(p, v)| TruthLevel {
                price: px(p),
                total_volume: v,
            })
            .collect(),
    }
}

fn make_extraction(bids: Vec<(f64, Option<u64>)>, asks: Vec<(f64, Option<u64>)>) -> ExtractionResult {
    let best_bid = bids.first().map_or(0.0, |b| b.0);
    let best_ask = asks.first().map_or(0.0, |a| a.0);
    ExtractionResult {
        symbol: Some("SPY".to_string()),
        display_type: "dom_ladder".to_string(),
        bids: bids
            .into_iter()
            .map(|(p, v)| ExtractedLevel {
                price: px(p),
                volume: v,
            })
            .collect(),
        asks: asks
            .into_iter()
            .map(|(p, v)| ExtractedLevel {
                price: px(p),
                volume: v,
            })
            .collect(),
        best_bid: px(best_bid),
        best_ask: px(best_ask),
        spread: px(best_ask) - px(best_bid),
        level_count: Some(LevelCount { bids: 0, asks: 0 }),
        confidence: "high".to_string(),
        notes: None,
    }
}

#[test]
fn perfect_match_passes() {
    let truth = make_truth(
        vec![(100.50, 500), (100.49, 300)],
        vec![(100.51, 400), (100.52, 200)],
    );
    let ext = make_extraction(
        vec![(100.50, Some(500)), (100.49, Some(300))],
        vec![(100.51, Some(400)), (100.52, Some(200))],
    );
    let report = compare_books(&ext, &truth, 0);
    assert_eq!(report.overall, Status::PASS);
    assert!(report.mismatches.is_empty());
    assert!(report.missing.is_empty());
    assert!(report.extra.is_empty());
}

#[test]
fn volume_mismatch_detected() {
    let truth = make_truth(vec![(100.50, 500)], vec![(100.51, 400)]);
    let ext = make_extraction(vec![(100.50, Some(999))], vec![(100.51, Some(400))]);
    let report = compare_books(&ext, &truth, 0);
    assert_eq!(report.mismatches.len(), 1);
    assert_eq!(report.mismatches[0].extracted_volume, 999);
    assert_eq!(report.mismatches[0].truth_volume, 500);
}

#[test]
fn missing_level_detected() {
    let truth = make_truth(vec![(100.50, 500), (100.49, 300)], vec![(100.51, 400)]);
    let ext = make_extraction(vec![(100.50, Some(500))], vec![(100.51, Some(400))]);
    let report = compare_books(&ext, &truth, 0);
    assert_eq!(report.missing.len(), 1);
    assert_eq!(report.missing[0].price, px(100.49));
}

#[test]
fn extra_level_detected() {
    let truth = make_truth(vec![(100.50, 500)], vec![(100.51, 400)]);
    let ext = make_extraction(
        vec![(100.50, Some(500)), (100.48, Some(100))],
        vec![(100.51, Some(400))],
    );
    let report = compare_books(&ext, &truth, 0);
    assert_eq!(report.extra.len(), 1);
    assert_eq!(report.extra[0].price, px(100.48));
}

#[test]
fn obscured_volume_not_counted_as_mismatch() {
    let truth = make_truth(vec![(100.50, 500)], vec![(100.51, 400)]);
    let ext = make_extraction(vec![(100.50, None)], vec![(100.51, Some(400))]);
    let report = compare_books(&ext, &truth, 0);
    assert!(
        report.mismatches.is_empty(),
        "obscured volume should not be a mismatch"
    );
}

#[test]
fn many_missing_causes_fail() {
    let truth = make_truth(
        vec![(100.50, 500), (100.49, 300), (100.48, 200), (100.47, 100)],
        vec![(100.51, 400)],
    );
    let ext = make_extraction(vec![], vec![(100.51, Some(400))]);
    let report = compare_books(&ext, &truth, 0);
    assert_eq!(report.overall, Status::FAIL);
}

#[test]
fn futures_tick_size_tolerance() {
    let truth = DepthSnapshot {
        stream_id: "1-0".to_string(),
        timestamp: 1000,
        symbol: "/ES".to_string(),
        source: "ibkr".to_string(),
        bids: vec![TruthLevel {
            price: px(5600.25),
            total_volume: 100,
        }],
        asks: vec![TruthLevel {
            price: px(5600.50),
            total_volume: 50,
        }],
    };
    let ext = ExtractionResult {
        symbol: Some("/ES".to_string()),
        display_type: "dom_ladder".to_string(),
        bids: vec![ExtractedLevel {
            price: px(5600.25),
            volume: Some(100),
        }],
        asks: vec![ExtractedLevel {
            price: px(5600.50),
            volume: Some(50),
        }],
        best_bid: px(5600.25),
        best_ask: px(5600.50),
        spread: px(0.25),
        level_count: Some(LevelCount { bids: 1, asks: 1 }),
        confidence: "high".to_string(),
        notes: None,
    };
    let report = compare_books(&ext, &truth, 0);
    assert_eq!(report.overall, Status::PASS);
}

#[test]
fn a_few_missing_levels_warn() {
    let truth = make_truth(vec![(100.50, 500), (100.49, 300)], vec![(100.51, 400)]);
    let ext = make_extraction(vec![(100.50, Some(500))], vec![(100.51, Some(400))]);
    let report = compare_books(&ext, &truth, 77);
    assert_eq!(report.overall, Status::WARN);
    assert_eq!(report.timestamp, 77);
    assert_eq!(report.symbol, "SPY");
    assert_eq!(report.truth_bids, 2);
    assert_eq!(report.extracted_bids, 1);
    assert_eq!(report.missing[0].side, "bids");
    assert_eq!(report.missing[0].volume, 300);
}

#[test]
fn best_price_off_by_a_tick_is_reported() {
    let truth = make_truth(vec![(100.50, 500)], vec![(100.51, 400)]);
    let mut ext = make_extraction(vec![(100.50, Some(500))], vec![(100.51, Some(400))]);
    ext.best_bid = px(100.49);
    let report = compare_books(&ext, &truth, 0);
    assert!(!report.best_bid_match);
    assert!(report.best_ask_match);
    assert_eq!(report.overall, Status::PASS);
}

#[test]
fn a_level_count_difference_warns() {
    let truth = make_truth(vec![(100.50, 500)], vec![(100.51, 400)]);
    let ext = make_extraction(
        vec![(100.50, Some(500)), (100.48, Some(100))],
        vec![(100.51, Some(400))],
    );
    let report = compare_books(&ext, &truth, 0);
    assert!(report.missing.is_empty());
    assert!(report.mismatches.is_empty());
    assert_eq!(report.extra.len(), 1);
    assert_eq!(report.overall, Status::WARN);
}

#[test]
fn prices_within_half_a_tick_are_the_same_level() {
    // SPY ticks are a penny: 100.504 is the 100.50 level, 100.506 is not.
    let truth = make_truth(vec![(100.50, 500)], vec![(100.51, 400)]);
    let ext = make_extraction(vec![(100.504, Some(500))], vec![(100.51, Some(400))]);
    assert!(compare_books(&ext, &truth, 0).missing.is_empty());
    let ext = make_extraction(vec![(100.506, Some(500))], vec![(100.51, Some(400))]);
    let report = compare_books(&ext, &truth, 0);
    assert_eq!(report.missing.len(), 1);
    assert_eq!(report.extra.len(), 1);
}
