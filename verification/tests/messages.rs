use condor_eye::api::{capture_reply, screenshot_reply};
use condor_eye::capture::Region;
use condor_eye::config::{AppConfig, ComparisonConfig, ExtractionProfile, TruthSourceConfig, VolumeFieldMapping};
use condor_eye::compare::{ExtractionResult, Status};
use condor_eye::session::{extract_only_report, find_profile, is_profile_file, profile_names, truth_stream};
use condor_eye::share::{coord_task, discord_post, LastCapture};
use condor_eye::transcribe::{extract_whisper_text, intel_ingest, whisper_reply, whisper_transport};
use condor_eye::vision::{
    extraction_json, extraction_parse_error, free_prompt, free_reply_text, network_error,
    reply_content_text,
    strip_code_fences, vision_failure, vision_request, ExtractionError,
};

fn config() -> AppConfig {
    AppConfig::from_vars(&vec![], "/tmp/a", "haiku")
}

fn profile(name: &str, source_type: &str, stream: Option<&str>) -> ExtractionProfile {
    ExtractionProfile {
        name: name.to_string(),
        prompt: "read the ladder".to_string(),
        truth_source: TruthSourceConfig {
            source_type: source_type.to_string(),
            stream: stream.map(|s| s.to_string()),
            match_field: Some("symbol".to_string()),
        },
        comparison: ComparisonConfig {
            price_tolerance_mode: "tick_size".to_string(),
            volume_field: VolumeFieldMapping {
                extracted: "volume".to_string(),
                truth: "totalVolume".to_string(),
            },
        },
    }
}

fn image_of(png: &[u8]) -> String {
    let region = Region { x: 0, y: 0, width: 1, height: 1 };
    capture_reply(png, String::new(), 0, region).image
}

#[test]
fn base64_of_images() {
    assert_eq!(image_of(b""), "");
    assert_eq!(image_of(b"f"), "Zg==");
    assert_eq!(image_of(b"fo"), "Zm8=");
    assert_eq!(image_of(b"foobar"), "Zm9vYmFy");
    assert_eq!(image_of(&[0xfb, 0xff]), "+/8=");
}

#[test]
fn capture_answers_carry_the_image() {
    let region = Region { x: -5, y: 7, width: 30, height: 40 };
    let r = capture_reply(b"foo", "a chart".to_string(), 12, region);
    assert_eq!(r.image, "Zm9v");
    assert_eq!(r.description, "a chart");
    assert_eq!(r.latency_ms, 12);
    assert_eq!(r.region, region);
    let s = screenshot_reply(b"fo", region);
    assert_eq!(s.image, "Zm8=");
    assert_eq!(s.size_bytes, 2);
    assert_eq!(s.region, region);
}

#[test]
fn json_fields() {
    assert_eq!(extract_whisper_text("{\"text\":\" hi \"}").unwrap(), "hi");
    assert_eq!(extract_whisper_text("{\"text\":3}").unwrap(), "{\"text\":3}");
    assert_eq!(extract_whisper_text("[1]").unwrap(), "[1]");
    assert_eq!(extract_whisper_text("nope").unwrap(), "nope");
}

#[test]
fn code_fences_are_removed() {
    let raw = "```json\n{\"symbol\":\"SPY\"}\n```";
    assert_eq!(strip_code_fences(raw), "{\"symbol\":\"SPY\"}");
    assert_eq!(strip_code_fences("  ```\n[]\n```  "), "[]");
    assert_eq!(strip_code_fences("{}"), "{}");
}

#[test]
fn extraction_replies() {
    match extraction_json(None) {
        Err(ExtractionError::Parse(m)) => assert_eq!(m, "No text in response"),
        _ => panic!("expected a parse error"),
    }
    assert_eq!(extraction_json(Some("```json\n{}\n```")).unwrap(), "{}");
    assert!(matches!(vision_failure(429, "429 Too Many Requests", ""), ExtractionError::RateLimit));
    assert_eq!(
        vision_failure(400, "400 Bad Request", "bad").message(),
        "API error: 400 Bad Request: bad"
    );
    assert_eq!(network_error(true, "t".to_string()).message(), "API error: Request timed out");
    assert_eq!(network_error(false, "reset".to_string()).message(), "Network error: reset");
    assert_eq!(ExtractionError::RateLimit.message(), "Rate limited — retry in a moment");
    let long = "x".repeat(300);
    match extraction_parse_error("eof", &long) {
        ExtractionError::Parse(m) => assert_eq!(m, format!("JSON parse error: eof — raw: {}", "x".repeat(200))),
        _ => panic!("expected a parse error"),
    }
}

#[test]
fn vision_requests_and_free_replies() {
    let r = vision_request("haiku", b"fo", "describe");
    assert_eq!(r.image_base64, "Zm8=");
    assert_eq!(r.max_tokens, 2000);
    assert_eq!(r.media_type, "image/png");
    assert!(free_prompt(String::new()).starts_with("Describe what you see"));
    assert_eq!(free_prompt("mine".to_string()), "mine");
    assert_eq!(free_reply_text(None), "(no response)");
    assert_eq!(free_reply_text(Some("ok")), "ok");
}

#[test]
fn whisper_replies() {
    assert_eq!(extract_whisper_text("   ").unwrap(), "");
    assert_eq!(extract_whisper_text("{\"text\": \" hello \"}").unwrap(), "hello");
    assert_eq!(extract_whisper_text("{\"result\": \"r\"}").unwrap(), "r");
    assert_eq!(extract_whisper_text(" plain words \n").unwrap(), "plain words");
    assert_eq!(
        whisper_reply(false, "500 Internal Server Error", "oops").unwrap_err(),
        "whisper status 500 Internal Server Error: oops"
    );
    let mut c = config();
    assert!(whisper_transport(&c).is_ok());
    c.audio_transport = "grpc".to_string();
    assert_eq!(
        whisper_transport(&c).unwrap_err(),
        "AUDIO_TRANSPORT=grpc is not implemented; use http"
    );
}

#[test]
fn intel_notices() {
    let mut c = config();
    c.condor_intel_url = "http://intel:8791//".to_string();
    let n = intel_ingest(&c, "zoom_1.txt", "zoom", "hi", Some("2026-01-01T00:00:00Z".to_string()));
    assert_eq!(n.url, "http://intel:8791/ingest/condor-audio");
    assert_eq!((n.chunk_seconds, n.stitch_ms), (10, 1500));
    assert_eq!(n.source, "condor_audio");
}

#[test]
fn sharing_the_last_capture() {
    let last = LastCapture {
        description: "d".repeat(2000),
        image_b64: "QUJD".to_string(),
    };
    assert_eq!(discord_post(None, None, None).unwrap_err(), "No capture to share");
    let p = discord_post(None, None, Some(&last)).unwrap();
    assert_eq!(p.channel, "fleet");
    assert_eq!(p.url, "http://localhost:8770/discord/post");
    assert_eq!(p.message, format!("**Condor Eye Capture**\n{}", "d".repeat(1900)));
    assert_eq!(p.filename, "capture.png");
    let mut c = config();
    assert_eq!(
        coord_task(&c, "agent-7", Some(&last), 5).unwrap_err(),
        "COORD_API_TOKEN not configured"
    );
    c.coord_api_token = "tok".to_string();
    assert_eq!(coord_task(&c, "agent-7", None, 5).unwrap_err(), "No capture to share");
    let t = coord_task(&c, "agent-7", Some(&last), 1_700_000_000).unwrap();
    assert_eq!(t.id, "ce-1700000000");
    assert_eq!(t.url, "http://localhost:8800/tasks");
    assert_eq!(t.authorization, "Bearer tok");
    assert_eq!(t.summary, format!("[Condor Eye] {}", "d".repeat(200)));
    assert_eq!(t.tags, vec!["condor-eye", "capture"]);
}

#[test]
fn capture_run_decisions() {
    let profiles = vec![
        profile("depth", "redis_stream", Some("market.depth")),
        profile("chart", "none", None),
        profile("tape", "redis_stream", None),
    ];
    assert_eq!(profile_names(&profiles), vec!["depth", "chart", "tape"]);
    assert_eq!(find_profile(&profiles, "chart").unwrap().name, "chart");
    assert_eq!(find_profile(&profiles, "x").unwrap_err(), "Profile 'x' not found");
    assert_eq!(truth_stream("compare", &profiles[0]), Some("market.depth".to_string()));
    assert_eq!(truth_stream("compare", &profiles[1]), None);
    assert_eq!(truth_stream("extract_only", &profiles[0]), None);
    assert_eq!(truth_stream("compare", &profiles[2]), Some("market.depth".to_string()));
    assert!(is_profile_file("depth.json"));
    assert!(!is_profile_file(".json"));
    let ext = ExtractionResult {
        symbol: None,
        display_type: String::new(),
        bids: vec![],
        asks: vec![],
        best_bid: 0,
        best_ask: 0,
        spread: 0,
        level_count: None,
        confidence: String::new(),
        notes: None,
    };
    let r = extract_only_report(9, "SPY".to_string(), ext, 120, 42);
    assert_eq!(r.overall, Status::ExtractOnly);
    assert_eq!((r.timestamp, r.api_latency_ms, r.estimated_cost_pico_usd), (9, 120, 42));
    assert!(r.extraction.is_some());
}

#[test]
fn reply_bodies_give_their_first_text() {
    let body = "{\"content\":[{\"type\":\"text\",\"text\":\"hello\"},{\"text\":\"x\"}]}";
    assert_eq!(reply_content_text(body).unwrap(), Some("hello".to_string()));
    assert_eq!(reply_content_text("{\"content\":[]}").unwrap(), None);
    assert_eq!(reply_content_text("{\"content\":[{\"text\":3}]}").unwrap(), None);
    match reply_content_text("not json") {
        Err(ExtractionError::Network(m)) => assert!(!m.is_empty()),
        other => panic!("unexpected {:?}", other),
    }
}
