use condor_eye::api::{
    capture_prompt, locate_response, plan_capture, require_capture_token, CaptureRequest,
    STATUS_FORBIDDEN, STATUS_UNAUTHORIZED,
};
use condor_eye::capture::{crop_origin, screen_for_point, CaptureError, Region};
use condor_eye::review::{cli_review_command, review_result, ReviewProvider};
use condor_eye::truth::{select_snapshot, stream_timestamp, DepthMessage, StreamDepth, TruthError};
use condor_eye::compare::TruthLevel;
use condor_eye::windows::{find_windows, WindowInfo};

fn window(title: &str, hwnd: u64) -> WindowInfo {
    WindowInfo {
        hwnd,
        title: title.to_string(),
        pid: 1234,
        x: 100,
        y: 200,
        width: 800,
        height: 600,
        class_name: "TestClass".to_string(),
    }
}

#[test]
fn capture_error_display() {
    let e = CaptureError::NoScreen;
    assert_eq!(e.message(), "No screen found for capture region");
}

#[test]
fn capture_error_messages_carry_the_cause() {
    assert_eq!(
        CaptureError::ScreenshotFailed("gdi".to_string()).message(),
        "Screenshot failed: gdi"
    );
    assert_eq!(
        CaptureError::EncodeFailed("png".to_string()).message(),
        "PNG encode failed: png"
    );
}

#[test]
fn review_provider_default_is_none() {
    assert_eq!(ReviewProvider::default(), ReviewProvider::Off);
}

#[test]
fn review_commands() {
    assert!(cli_review_command(ReviewProvider::Off, "x".to_string(), "p", "/i").is_none());
    let c = cli_review_command(ReviewProvider::Claude, "tool-a".to_string(), "what is it", "/tmp/x.png")
        .expect("command");
    assert_eq!(c.program, "tool-a");
    assert_eq!(c.args, vec!["-p", "what is it", "--allowedTools", "none"]);
    assert_eq!(
        c.env,
        Some(("CLAUDE_IMAGE".to_string(), "/tmp/x.png".to_string()))
    );
    let c = cli_review_command(ReviewProvider::Codex, "tool-b".to_string(), "what is it", "/tmp/x.png")
        .expect("command");
    assert_eq!(c.args, vec!["-q", "what is it\n\nImage: /tmp/x.png"]);
    assert_eq!(c.env, None);
    assert_eq!(review_result("tool", false, "", "boom"), Err("tool failed: boom".to_string()));
    assert_eq!(review_result("tool", true, "fine", "x"), Ok("fine".to_string()));
}

#[test]
fn truth_error_display() {
    let e = TruthError::NotFound("SPY".to_string());
    assert!(e.message().contains("SPY"));
}

#[test]
fn truth_error_messages() {
    assert_eq!(
        TruthError::Connection("refused".to_string()).message(),
        "Redis connection error: refused"
    );
    assert_eq!(
        TruthError::Parse("bad".to_string()).message(),
        "Truth data parse error: bad"
    );
}

#[test]
fn stream_ids_give_their_millisecond_part() {
    assert_eq!(stream_timestamp("1718000000123-0"), 1_718_000_000_123);
    assert_eq!(stream_timestamp("42"), 42);
    assert_eq!(stream_timestamp("abc-1"), 0);
    assert_eq!(stream_timestamp(""), 0);
}

fn entry(id: &str, symbol: Option<&str>, source: Option<&str>) -> StreamDepth {
    StreamDepth {
        id: id.to_string(),
        message: Some(DepthMessage {
            symbol: symbol.map(|s| s.to_string()),
            source: source.map(|s| s.to_string()),
            bids: vec![TruthLevel {
                price: 100_500_000,
                total_volume: 5,
            }],
            asks: vec![],
        }),
    }
}

#[test]
fn snapshot_is_the_newest_entry_for_the_symbol() {
    let entries = vec![
        entry("30-0", Some("QQQ"), None),
        StreamDepth {
            id: "25-0".to_string(),
            message: None,
        },
        entry("20-1", Some("SPY"), None),
        entry("10-0", Some("SPY"), Some("ibkr")),
    ];
    let snap = select_snapshot(entries, "SPY", "market.depth").expect("snapshot");
    assert_eq!(snap.stream_id, "20-1");
    assert_eq!(snap.timestamp, 20);
    assert_eq!(snap.symbol, "SPY");
    assert_eq!(snap.source, "unknown");
    assert_eq!(snap.bids.len(), 1);
}

#[test]
fn no_entry_for_the_symbol_is_not_found() {
    let entries = vec![entry("30-0", Some("QQQ"), Some("ibkr"))];
    match select_snapshot(entries, "SPY", "market.depth") {
        Err(TruthError::NotFound(m)) => {
            assert_eq!(m, "No depth data for SPY in stream market.depth")
        }
        other => panic!("unexpected {:?}", other.map(|s| s.stream_id)),
    }
}

#[test]
fn find_windows_empty_query_returns_all() {
    // Listing windows needs a desktop session; the filter is given a listing.
    let all = vec![window("Test Window", 1), window("Other", 2)];
    let found = find_windows(all.clone(), "");
    assert_eq!(all.len(), found.len());
}

#[test]
fn find_windows_matches_titles_ignoring_case() {
    let all = vec![
        window("Mozilla Firefox", 1),
        window("Terminal", 2),
        window("FIREFOX private", 3),
    ];
    let found = find_windows(all.clone(), "firefox");
    assert_eq!(found.iter().map(|w| w.hwnd).collect::<Vec<_>>(), vec![1, 3]);
    let found = find_windows(all.clone(), "FireFox");
    assert_eq!(found.iter().map(|w| w.hwnd).collect::<Vec<_>>(), vec![1, 3]);
    let found = find_windows(all, "firefox p");
    assert_eq!(found.iter().map(|w| w.hwnd).collect::<Vec<_>>(), vec![3]);
}

#[test]
fn capture_token_rules() {
    let r = require_capture_token("", Some("Bearer x")).unwrap_err();
    assert_eq!(r.status, STATUS_FORBIDDEN);
    assert!(r.body.error.starts_with("Capture disabled"));
    let r = require_capture_token("s3cret", None).unwrap_err();
    assert_eq!(r.status, STATUS_UNAUTHORIZED);
    let r = require_capture_token("s3cret", Some("Bearer wrong")).unwrap_err();
    assert_eq!(r.status, STATUS_UNAUTHORIZED);
    assert!(require_capture_token("s3cret", Some("bearer s3cret")).is_err());
    assert!(require_capture_token("s3cret", Some("Bearer s3cret")).is_ok());
}

#[test]
fn locate_answers() {
    let r = locate_response(&vec![window("Chart - SPY", 9)], "chart");
    assert!(r.found);
    assert_eq!(
        r.bounds,
        Some(Region {
            x: 100,
            y: 200,
            width: 800,
            height: 600
        })
    );
    assert_eq!(r.confidence, "high");
    assert_eq!(r.description, "Found window: Chart - SPY (pid 1234)");
    let r = locate_response(&vec![], "chart");
    assert!(!r.found);
    assert_eq!(r.bounds, None);
    assert_eq!(r.confidence, "none");
    assert_eq!(r.description, "No window matching 'chart' found");
}

#[test]
fn capture_plans() {
    assert!(capture_prompt(None).starts_with("Describe what you see"));
    assert_eq!(capture_prompt(Some("x".to_string())), "x");
    let p = plan_capture(CaptureRequest {
        prompt: None,
        region: None,
        hwnd: Some(7),
        keys: Some(vec!["ctrl+3".to_string()]),
        no_focus: true,
        review: ReviewProvider::Codex,
    });
    assert_eq!(p.focus, None);
    assert_eq!(p.keys, Some(vec!["ctrl+3".to_string()]));
    assert_eq!(p.review, ReviewProvider::Codex);
    let p = plan_capture(CaptureRequest {
        prompt: Some("p".to_string()),
        region: None,
        hwnd: Some(7),
        keys: None,
        no_focus: false,
        review: ReviewProvider::Off,
    });
    assert_eq!(p.focus, Some(7));
    assert_eq!(p.prompt, "p");
}

#[test]
fn screen_choice_and_crop() {
    let screens = vec![
        Region {
            x: 0,
            y: 0,
            width: 1920,
            height: 1080,
        },
        Region {
            x: 1920,
            y: 0,
            width: 1280,
            height: 1024,
        },
    ];
    assert_eq!(screen_for_point(&screens, 10, 10), Some(0));
    assert_eq!(screen_for_point(&screens, 1920, 5), Some(1));
    assert_eq!(screen_for_point(&screens, 5000, 5), None);
    assert_eq!(crop_origin(screens[1], 2000, 30), (80, 30));
}
