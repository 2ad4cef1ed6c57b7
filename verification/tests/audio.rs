use condor_eye::audio::{
    audio_transcript_dir, audio_wav_dir, chunk_plan, chunk_window, default_target_apps,
    match_target_app, matches_target_process, AudioChunkPlan, AudioSessionInfo,
    CaptureBackendState,
};
use condor_eye::chunks::{tail_samples, ChunkAssembler};
use condor_eye::config::AppConfig;
use condor_eye::taps::{
    finalize_tap_stop, get_tap, start_tap, stop_tap, update_tap_after_chunk, update_tap_error,
    ActiveTap, TapRegistry, TapStatus,
};

fn test_config() -> AppConfig {
    AppConfig {
        api_key: String::new(),
        redis_url: String::new(),
        model: String::new(),
        discord_bridge_url: None,
        coord_api_url: String::new(),
        coord_api_token: String::new(),
        condor_eye_bind: "0.0.0.0".to_string(),
        condor_eye_port: 9050,
        audio_bind: "127.0.0.1".to_string(),
        audio_port: 9051,
        audio_output_dir: "/tmp/condor-audio".to_string(),
        audio_transport: "http".to_string(),
        whisper_url: "http://localhost:8080/inference".to_string(),
        audio_chunk_seconds: 10,
        audio_stitch_ms: 1500,
        condor_intel_url: "http://localhost:8791".to_string(),
        condor_audio_auto_watch: false,
    }
}

#[test]
fn zoom_matcher_is_case_insensitive() {
    let target = &default_target_apps()[0];
    assert!(matches_target_process("Zoom.exe", target));
    assert!(matches_target_process(
        "C:\\Program Files\\Zoom\\bin\\zoom.exe",
        target
    ));
}

#[test]
fn discord_matcher_matches_helper_processes() {
    let target = &default_target_apps()[1];
    assert!(matches_target_process("Discord.exe", target));
    assert!(matches_target_process("discord_canary.exe", target));
}

#[test]
fn unrelated_process_does_not_match() {
    let target = &default_target_apps()[0];
    assert!(!matches_target_process("chrome.exe", target));
}

#[test]
fn match_target_app_from_path() {
    let target = match_target_app("C:\\Users\\me\\AppData\\Local\\Discord\\app-1.0.0\\Discord.exe")
        .expect("discord target");
    assert_eq!(target.id, "discord");
}

#[test]
fn chunk_plan_uses_expected_defaults() {
    let plan = chunk_plan(&test_config());
    assert_eq!(plan.chunk_seconds, 10);
    assert_eq!(plan.stitch_ms, 1500);
}

#[test]
fn chunk_plan_clamps_stitch_to_chunk_length() {
    let mut config = test_config();
    config.audio_stitch_ms = 15_000;
    let plan = chunk_plan(&config);
    assert_eq!(plan.chunk_seconds, 10);
    assert_eq!(plan.stitch_ms, 10_000);
}

#[test]
fn long_chunks_keep_the_configured_overlap() {
    let mut config = test_config();
    config.audio_chunk_seconds = 120;
    config.audio_stitch_ms = 65_535;
    let plan = chunk_plan(&config);
    assert_eq!(plan.chunk_seconds, 120);
    assert_eq!(plan.stitch_ms, 65_535);
    config.audio_chunk_seconds = 0;
    config.audio_stitch_ms = 5_000;
    let plan = chunk_plan(&config);
    assert_eq!(plan.chunk_seconds, 1);
    assert_eq!(plan.stitch_ms, 1_000);
}

#[test]
fn first_chunk_does_not_go_negative() {
    let plan = AudioChunkPlan {
        chunk_seconds: 10,
        stitch_ms: 1500,
    };
    let window = chunk_window(plan, 0);
    assert_eq!(window.nominal_start_ms, 0);
    assert_eq!(window.capture_start_ms, 0);
    assert_eq!(window.capture_end_ms, 10_000);
}

#[test]
fn later_chunks_include_preroll_overlap() {
    let plan = AudioChunkPlan {
        chunk_seconds: 10,
        stitch_ms: 1500,
    };
    let window = chunk_window(plan, 2);
    assert_eq!(window.nominal_start_ms, 20_000);
    assert_eq!(window.capture_start_ms, 18_500);
    assert_eq!(window.capture_end_ms, 30_000);
}

fn zoom_tap() -> ActiveTap {
    ActiveTap {
        tap_id: "zoom-test".to_string(),
        app_name: "zoom".to_string(),
        target_pid: 1234,
        include_tree: true,
        started_at: "2026-03-25T00:00:00Z".to_string(),
        chunk_seconds: 10,
        stitch_ms: 1500,
        chunks_written: 0,
        bytes_captured: 0,
        output_dir: "/tmp/condor-audio".to_string(),
        status: TapStatus::Running,
        status_detail: None,
        last_chunk_path: None,
        last_chunk_ts: None,
        last_transcript_path: None,
    }
}

#[test]
fn transcription_failure_keeps_tap_running() {
    let mut registry = TapRegistry::default();
    registry.taps.push(zoom_tap());
    update_tap_after_chunk(
        &mut registry,
        "zoom-test",
        "/tmp/condor-audio/wav/zoom_20260325T010000.wav",
        None,
        1024,
        "2026-03-25T01:00:00Z",
        Some("transcription failed: timeout"),
    );
    let tap = get_tap(&registry, "zoom-test").expect("tap");
    assert_eq!(tap.status, TapStatus::Running);
    assert_eq!(
        tap.status_detail.as_deref(),
        Some("transcription failed: timeout")
    );
}

#[test]
fn chunk_update_advances_counters() {
    let mut registry = TapRegistry::default();
    registry.taps.push(zoom_tap());
    update_tap_after_chunk(
        &mut registry,
        "zoom-test",
        "/w/zoom_1.wav",
        Some("/t/zoom_1.txt"),
        2048,
        "2026-03-25T01:00:10Z",
        None,
    );
    let tap = get_tap(&registry, "zoom-test").expect("tap");
    assert_eq!(tap.chunks_written, 1);
    assert_eq!(tap.bytes_captured, 2048);
    assert_eq!(tap.last_chunk_path.as_deref(), Some("/w/zoom_1.wav"));
    assert_eq!(tap.last_transcript_path.as_deref(), Some("/t/zoom_1.txt"));
    assert_eq!(tap.last_chunk_ts.as_deref(), Some("2026-03-25T01:00:10Z"));
    assert_eq!(tap.status_detail, None);
}

#[test]
fn stop_then_get_reports_stopped() {
    let mut registry = TapRegistry::default();
    registry.taps.push(zoom_tap());
    let stopped = stop_tap(&mut registry, "zoom-test").expect("stop");
    assert_eq!(stopped.status, TapStatus::Stopped);
    let tap = get_tap(&registry, "zoom-test").expect("tap");
    assert_eq!(tap.status, TapStatus::Stopped);
    assert_eq!(tap.status_detail, None);
}

#[test]
fn stopping_unknown_tap_names_it() {
    let mut registry = TapRegistry::default();
    let err = stop_tap(&mut registry, "nope").unwrap_err();
    assert_eq!(err, "Tap not found: nope");
    assert!(get_tap(&registry, "nope").is_none());
}

#[test]
fn finalize_keeps_an_error_and_stops_otherwise() {
    let mut registry = TapRegistry::default();
    registry.taps.push(zoom_tap());
    update_tap_error(&mut registry, "zoom-test", "device lost");
    finalize_tap_stop(&mut registry, "zoom-test");
    let tap = get_tap(&registry, "zoom-test").expect("tap");
    assert_eq!(tap.status, TapStatus::Error);
    assert_eq!(tap.status_detail.as_deref(), Some("device lost"));

    let mut other = TapRegistry::default();
    other.taps.push(zoom_tap());
    finalize_tap_stop(&mut other, "zoom-test");
    let tap = get_tap(&other, "zoom-test").expect("tap");
    assert_eq!(tap.status, TapStatus::Stopped);
}

fn start(
    registry: &mut TapRegistry,
    config: &AppConfig,
    backend: CaptureBackendState,
    pid: u32,
    sessions: Result<Vec<AudioSessionInfo>, String>,
    now: u64,
) -> Result<(ActiveTap, bool), String> {
    start_tap(
        registry,
        config,
        Ok(()),
        backend,
        "zoom",
        pid,
        sessions,
        true,
        now,
        "2026-01-01T00:00:00Z",
    )
}

fn session(pid: u32, target: Option<&str>) -> AudioSessionInfo {
    AudioSessionInfo {
        session_id: format!("pid-{}", pid),
        pid,
        exe_path: String::new(),
        display_name: String::new(),
        state: "active".to_string(),
        matched_target: target.map(|t| t.to_string()),
    }
}

#[test]
fn start_tap_reuses_the_active_tap() {
    let config = test_config();
    let mut registry = TapRegistry::default();
    let (first, started) =
        start(&mut registry, &config, CaptureBackendState::Ready, 4321, Ok(vec![]), 1000).unwrap();
    assert!(started);
    assert_eq!(first.tap_id, "zoom-1000");
    assert_eq!(first.target_pid, 4321);
    assert_eq!(first.status, TapStatus::Running);
    assert_eq!(first.chunk_seconds, 10);
    assert_eq!(first.stitch_ms, 1500);
    let (second, started) =
        start(&mut registry, &config, CaptureBackendState::Ready, 4321, Ok(vec![]), 2000).unwrap();
    assert!(!started);
    assert_eq!(second.tap_id, "zoom-1000");
    assert_eq!(registry.taps.len(), 1);
}

#[test]
fn start_tap_resolves_the_process() {
    let config = test_config();
    let mut registry = TapRegistry::default();
    let sessions = vec![session(7, Some("discord")), session(9, Some("zoom")), session(11, Some("zoom"))];
    let (tap, started) =
        start(&mut registry, &config, CaptureBackendState::Ready, 0, Ok(sessions), 5).unwrap();
    assert!(started);
    assert_eq!(tap.target_pid, 9);
}

#[test]
fn failed_tap_starts_leave_the_registry_alone() {
    let config = test_config();
    let mut registry = TapRegistry::default();
    let e = start_tap(
        &mut registry,
        &config,
        Err("disk full".to_string()),
        CaptureBackendState::Ready,
        "zoom",
        1,
        Ok(vec![]),
        true,
        1,
        "t",
    )
    .unwrap_err();
    assert_eq!(e, "disk full");
    let e = start(&mut registry, &config, CaptureBackendState::Unsupported, 1, Ok(vec![]), 1)
        .unwrap_err();
    assert_eq!(e, "Audio tap start is only supported on Windows");
    let e = start(&mut registry, &config, CaptureBackendState::Stubbed, 1, Ok(vec![]), 1)
        .unwrap_err();
    assert_eq!(e, "Audio tap start is not implemented yet in this build");
    let e = start(&mut registry, &config, CaptureBackendState::Ready, 0, Ok(vec![session(3, Some("discord"))]), 1)
        .unwrap_err();
    assert_eq!(e, "No running process found for zoom");
    let e = start(&mut registry, &config, CaptureBackendState::Ready, 0, Err("listing failed".to_string()), 1)
        .unwrap_err();
    assert_eq!(e, "listing failed");
    assert!(registry.taps.is_empty());
}

#[test]
fn output_directories() {
    let config = test_config();
    assert_eq!(audio_wav_dir(&config, '/'), "/tmp/condor-audio/wav");
    assert_eq!(audio_transcript_dir(&config, '/'), "/tmp/condor-audio/transcripts");
    let mut c = test_config();
    c.audio_output_dir = "out/".to_string();
    assert_eq!(audio_wav_dir(&c, '/'), "out/wav");
    c.audio_output_dir = String::new();
    assert_eq!(audio_wav_dir(&c, '/'), "wav");
    c.audio_output_dir = "C:\\audio".to_string();
    assert_eq!(audio_wav_dir(&c, '\\'), "C:\\audio\\wav");
}

#[test]
fn tail_keeps_the_last_samples() {
    assert_eq!(tail_samples(&vec![1, 2, 3, 4, 5], 2), vec![4, 5]);
    assert_eq!(tail_samples(&vec![1, 2], 5), vec![1, 2]);
    assert_eq!(tail_samples(&vec![1, 2], 0), Vec::<i16>::new());
}

#[test]
fn assembler_stitches_preroll_in_front_of_later_chunks() {
    // A one-second chunk with a 20 ms overlap: 48000 frames, 960 frames of preroll.
    let plan = AudioChunkPlan {
        chunk_seconds: 1,
        stitch_ms: 20,
    };
    let mut a = ChunkAssembler::new(plan);
    assert_eq!(a.chunk_frames, 48_000);
    assert_eq!(a.preroll_frames, 960);
    let mut chunks = Vec::new();
    for i in 0..(48_000 * 2 + 10) {
        let s = (i % 30_000) as i16;
        if let Some(c) = a.push(s) {
            chunks.push(c);
        }
    }
    assert_eq!(chunks.len(), 2);
    assert_eq!(chunks[0].chunk_index, 0);
    assert_eq!(chunks[0].samples.len(), 48_000);
    assert_eq!(chunks[0].samples[0], 0);
    assert_eq!(chunks[1].chunk_index, 1);
    assert_eq!(chunks[1].samples.len(), 48_000 + 960);
    // The second chunk starts with the last 960 samples of the first.
    assert_eq!(chunks[1].samples[0], ((48_000 - 960) % 30_000) as i16);
    assert_eq!(chunks[1].samples[960], (48_000 % 30_000) as i16);
    let last = a.finish().expect("partial chunk");
    assert_eq!(last.chunk_index, 2);
    assert_eq!(last.samples.len(), 960 + 10);
}

#[test]
fn assembler_finish_is_empty_after_a_full_chunk() {
    let plan = AudioChunkPlan {
        chunk_seconds: 1,
        stitch_ms: 0,
    };
    let mut a = ChunkAssembler::new(plan);
    let mut n = 0;
    for _ in 0..48_000 {
        if a.push(7).is_some() {
            n += 1;
        }
    }
    assert_eq!(n, 1);
    assert!(a.finish().is_none());
}
