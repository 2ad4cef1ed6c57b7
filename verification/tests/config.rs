use condor_eye::config::{estimate_cost, switch_value, tick_size, AppConfig, PRICE_SCALE};

fn dollars(pico: u128) -> f64 {
    pico as f64 / 1e12
}

fn ticks(t: u64) -> f64 {
    t as f64 / PRICE_SCALE as f64
}

#[test]
fn tick_size_equity() {
    assert_eq!(ticks(tick_size("SPY")), 0.01);
    assert_eq!(ticks(tick_size("AAPL")), 0.01);
}

#[test]
fn tick_size_futures_with_slash() {
    assert_eq!(ticks(tick_size("/ES")), 0.25);
    assert_eq!(ticks(tick_size("/NQ")), 0.25);
    assert_eq!(ticks(tick_size("/YM")), 1.0);
}

#[test]
fn tick_size_futures_without_slash() {
    assert_eq!(ticks(tick_size("ES")), 0.25);
}

#[test]
fn tick_size_unknown_defaults_penny() {
    assert_eq!(ticks(tick_size("ZZZZ")), 0.01);
}

#[test]
fn tick_size_case_insensitive() {
    assert_eq!(ticks(tick_size("spy")), 0.01);
    assert_eq!(ticks(tick_size("es")), 0.25);
}

#[test]
fn tick_sizes_in_price_units() {
    assert_eq!(tick_size("//rty"), 100_000);
    assert_eq!(tick_size("GC"), 100_000);
    assert_eq!(tick_size("cl"), 10_000);
    assert_eq!(tick_size("MNQ"), 250_000);
}

#[test]
fn estimate_cost_haiku() {
    let cost = dollars(estimate_cost(400, 700, "haiku-4-5-20251001"));
    assert!(
        cost > 0.001 && cost < 0.01,
        "haiku cost should be ~$0.005, got {}",
        cost
    );
}

#[test]
fn estimate_cost_sonnet() {
    let cost = dollars(estimate_cost(400, 700, "sonnet-4-6"));
    assert!(
        cost > 0.005 && cost < 0.05,
        "sonnet cost should be more than haiku, got {}",
        cost
    );
}

#[test]
fn estimate_cost_exact_values() {
    // 280000 pixels make 373.33 image tokens at $1/M, plus 500 output tokens at $5/M.
    assert_eq!(estimate_cost(400, 700, "haiku-4-5"), 373_333_333 + 2_500_000_000);
    assert_eq!(estimate_cost(400, 700, "sonnet-4-6"), 1_120_000_000 + 7_500_000_000);
    assert_eq!(estimate_cost(0, 0, "other"), 2_500_000_000);
}

fn vars(pairs: &[(&str, &str)]) -> Vec<(String, String)> {
    pairs
        .iter()
        .map(|(k, v)| (k.to_string(), v.to_string()))
        .collect()
}

#[test]
fn config_defaults_and_overrides() {
    let c = AppConfig::from_vars(&vars(&[]), "/home/me/condor-audio", "haiku-default");
    assert_eq!(c.condor_eye_port, 9050);
    assert_eq!(c.audio_port, 9051);
    assert_eq!(c.audio_chunk_seconds, 10);
    assert_eq!(c.audio_stitch_ms, 1500);
    assert_eq!(c.condor_intel_url, "http://localhost:8791");
    assert_eq!(c.model, "haiku-default");
    assert_eq!(c.api_key, "");
    assert_eq!(c.condor_eye_bind, "0.0.0.0");
    assert_eq!(c.redis_url, "redis://127.0.0.1:6379");
    assert_eq!(c.audio_bind, "127.0.0.1");
    assert_eq!(c.audio_transport, "http");
    assert_eq!(c.whisper_url, "http://localhost:8080/inference");
    assert_eq!(c.audio_output_dir, "/home/me/condor-audio");
    let c = AppConfig::from_vars(
        &vars(&[("CONDOR_AUDIO_CHUNK_SECONDS", "30"), ("CONDOR_AUDIO_STITCH_MS", "oops")]),
        "/x",
        "m",
    );
    assert_eq!(c.model, "m");
    assert_eq!(c.audio_chunk_seconds, 30);
    assert_eq!(c.audio_stitch_ms, 1500);
    assert!(!c.condor_audio_auto_watch);
    let c = AppConfig::from_vars(&vars(&[("CLAUDE_MODEL", "sonnet-x")]), "/x", "m");
    assert_eq!(c.model, "sonnet-x");
}

#[test]
fn auto_watch_switch() {
    let on = |v: &str| AppConfig::from_vars(&vars(&[("CONDOR_AUDIO_AUTO_WATCH", v)]), "/x", "m")
        .condor_audio_auto_watch;
    assert!(on("true"));
    assert!(on(" TRUE "));
    assert!(on("1"));
    assert!(on("yes"));
    assert!(on("On"));
    assert!(!on("false"));
    assert!(!on("0"));
    assert!(!on(""));
    assert!(switch_value(Some("Yes")));
    assert!(!switch_value(None));
}
