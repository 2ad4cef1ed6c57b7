use condor_eye::retention::{prune_victims, RETENTION_KEEP};
use condor_eye::transcripts::{
    chunk_started_at, name_is_readable, parse_since, parse_timestamped_name, replace_all,
    select_transcripts, sort_newest_first, transcript_entry, transcript_file_name, wav_file_name,
    wav_name_for, TranscriptEntry,
};

fn names(v: &[&str]) -> Vec<String> {
    v.iter().map(|s| s.to_string()).collect()
}

#[test]
fn parse_timestamped_text_name() {
    let parsed = parse_timestamped_name("zoom_20260324T143000.txt").expect("timestamped name");
    assert_eq!(parsed.0, "zoom");
    assert_eq!(parsed.1.year, 2026);
    assert_eq!(parsed.1.month, 3);
    assert_eq!(parsed.1.day, 24);
}

#[test]
fn names_that_do_not_read_back() {
    assert!(parse_timestamped_name("zoom_20260324T143000.mp3").is_none());
    assert!(parse_timestamped_name("zoom20260324T143000.txt").is_none());
    assert!(parse_timestamped_name("zoom_2026032T143000.txt").is_none());
    assert!(parse_timestamped_name("zoom_20261324T143000.txt").is_none());
    let p = parse_timestamped_name("my_app_20260324T143000.wav");
    assert!(p.is_none(), "the app is what precedes the first underscore");
    assert!(name_is_readable("zoom_20260324T143000.txt"));
}

#[test]
fn chunk_names_from_the_start_time() {
    // 2026-03-25T01:00:00Z
    let t = chunk_started_at(1_774_400_400_000, 10, 0).expect("time");
    assert_eq!(t.year, 2026);
    assert_eq!(t.month, 3);
    assert_eq!(t.day, 25);
    assert_eq!(t.hour, 1);
    assert_eq!(transcript_file_name("zoom", &t), "zoom_20260325T010000.txt");
    assert_eq!(wav_file_name("zoom", &t), "zoom_20260325T010000.wav");
    assert_eq!(t.rfc3339.as_deref(), Some("2026-03-25T01:00:00Z"));
    let back = parse_timestamped_name(&transcript_file_name("zoom", &t)).expect("reads back");
    assert_eq!(back.0, "zoom");
    assert_eq!(back.1.unix_nanos, t.unix_nanos);
}

#[test]
fn replace_changes_every_occurrence() {
    assert_eq!(replace_all("a.txt.txt", ".txt", ".wav"), "a.wav.wav");
    assert_eq!(replace_all("aaa", "aa", "b"), "ba");
    assert_eq!(wav_name_for("discord_20260101T000000.txt"), "discord_20260101T000000.wav");
}

#[test]
fn chunk_start_times_advance_by_chunk_length() {
    let t0 = chunk_started_at(1_774_400_400_000, 10, 0).expect("t0");
    let t2 = chunk_started_at(1_774_400_400_000, 10, 2).expect("t2");
    assert_eq!(t2.unix_nanos - t0.unix_nanos, 20_000_000_000);
    assert_eq!(t2.second, 20);
    let err = chunk_started_at(i64::MAX, 10, 1).unwrap_err();
    assert!(err.starts_with("chunk timestamp: "));
}

#[test]
fn since_filter_parsing() {
    assert!(parse_since(None).unwrap().is_none());
    let s = parse_since(Some("2026-03-24T14:30:00+02:00")).unwrap().unwrap();
    assert_eq!(s.unix_nanos, parse_since(Some("2026-03-24T12:30:00Z")).unwrap().unwrap().unix_nanos);
    let e = parse_since(Some("yesterday")).unwrap_err();
    assert!(e.starts_with("invalid since timestamp 'yesterday': "));
}

#[test]
fn transcript_listing_filters_and_orders() {
    let dir = names(&[
        "zoom_20260324T143000.txt",
        "zoom_20260324T143010.txt",
        "discord_20260324T143005.txt",
        "zoom_20260324T143010.wav",
        "notes.txt",
        ".txt",
    ]);
    let all = select_transcripts(&dir, None, None);
    assert_eq!(all.len(), 3);
    let zoom = select_transcripts(&dir, Some("zoom"), None);
    assert_eq!(zoom.len(), 2);
    let since = parse_since(Some("2026-03-24T14:30:05Z")).unwrap().unwrap();
    let recent = select_transcripts(&dir, None, Some(&since));
    assert_eq!(
        recent.iter().map(|m| m.id.clone()).collect::<Vec<_>>(),
        names(&["zoom_20260324T143010.txt", "discord_20260324T143005.txt"])
    );
    let entries: Vec<TranscriptEntry> = all
        .into_iter()
        .map(|m| {
            let t = format!("/t/{}", m.id);
            transcript_entry(m, None, t)
        })
        .collect();
    let sorted = sort_newest_first(entries);
    assert_eq!(
        sorted.iter().map(|e| e.created_at.clone()).collect::<Vec<_>>(),
        names(&[
            "2026-03-24T14:30:10Z",
            "2026-03-24T14:30:05Z",
            "2026-03-24T14:30:00Z"
        ])
    );
    assert_eq!(sorted[0].transcript_path, "/t/zoom_20260324T143010.txt");
}

#[test]
fn retention_removes_the_oldest_of_the_app() {
    let dir = names(&[
        "zoom_20260324T143020.wav",
        "zoom_20260324T143000.wav",
        "discord_20260324T143000.wav",
        "zoom_20260324T143010.wav",
        "zoom_20260324T143010.txt",
        "zoomer.wav",
    ]);
    let gone = prune_victims(&dir, "wav", "zoom", 1);
    assert_eq!(
        gone,
        names(&["zoom_20260324T143000.wav", "zoom_20260324T143010.wav"])
    );
    assert!(prune_victims(&dir, "wav", "zoom", 3).is_empty());
    assert!(prune_victims(&dir, "txt", "discord", 0).is_empty());
    assert_eq!(RETENTION_KEEP, 360);
}

#[test]
fn chunk_names_read_back_as_whole_seconds() {
    // 2026-03-25T01:00:00.123Z
    let t = chunk_started_at(1_774_400_400_123, 10, 0).expect("time");
    assert_eq!(t.nanosecond, 123_000_000);
    let wav = wav_file_name("zoom", &t);
    assert_eq!(wav, "zoom_20260325T010000.wav");
    let (app, back) = parse_timestamped_name(&wav).expect("reads back");
    assert_eq!(app, "zoom");
    assert_eq!(back.nanosecond, 0);
    assert_eq!(back.offset_seconds, 0);
    assert_eq!(back.unix_nanos, t.unix_nanos - 123_000_000);
    let txt = parse_timestamped_name(&transcript_file_name("zoom", &t)).expect("reads back");
    assert_eq!(txt.1.unix_nanos, back.unix_nanos);
    assert!(parse_timestamped_name("zoom_20260230T010000.txt").is_none());
}
