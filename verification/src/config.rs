//! Application settings, extraction profiles, instrument tick sizes and the
//! cost estimate of a vision call.
use vstd::prelude::*;

use crate::text::{
    ascii_lower_chars, ascii_lower_seq, chars_eq, chars_of, contains_chars, contains_seq, parse_u16,
    parse_u16_spec, str_eq, string_of, trim_chars, trim_seq,
};

verus! {

/// Settings read once at start-up.
#[derive(Debug, Clone)]
pub struct AppConfig {
    pub api_key: String,
    pub redis_url: String,
    pub model: String,
    pub discord_bridge_url: Option<String>,
    pub coord_api_url: String,
    pub coord_api_token: String,
    pub condor_eye_bind: String,
    pub condor_eye_port: u16,
    pub audio_bind: String,
    pub audio_port: u16,
    pub audio_output_dir: String,
    pub audio_transport: String,
    pub whisper_url: String,
    pub audio_chunk_seconds: u16,
    pub audio_stitch_ms: u16,
    pub condor_intel_url: String,
    /// Whether the audio watcher starts with the application.
    pub condor_audio_auto_watch: bool,
}

/// The value of the first variable called `name` in `vars`.
pub open spec fn env_lookup(vars: Seq<(String, String)>, name: Seq<char>) -> Option<Seq<char>>
    decreases vars.len(),
{
    if vars.len() == 0 {
        None
    } else if vars[0].0@ == name {
        Some(vars[0].1@)
    } else {
        env_lookup(vars.drop_first(), name)
    }
}

/// A variable's value, or `default` when it is not set.
pub open spec fn var_or(vars: Seq<(String, String)>, name: Seq<char>, default: Seq<char>) -> Seq<
    char,
> {
    match env_lookup(vars, name) {
        Some(v) => v,
        None => default,
    }
}

/// The first of two variables that is set, or `default`.
pub open spec fn var_or2(
    vars: Seq<(String, String)>,
    name: Seq<char>,
    alias: Seq<char>,
    default: Seq<char>,
) -> Seq<char> {
    match env_lookup(vars, name) {
        Some(v) => v,
        None => var_or(vars, alias, default),
    }
}

/// A port: the text parsed as `u16`, or `default` when it does not parse.
pub open spec fn port_or(text: Seq<char>, default: u16) -> u16 {
    match parse_u16_spec(text) {
        Some(p) => p,
        None => default,
    }
}

/// The configuration that the given environment describes; `default_output_dir`
/// stands for the platform's default audio directory and `default_model` for
/// the vision model used when none is configured.
pub open spec fn config_from_vars(
    vars: Seq<(String, String)>,
    default_output_dir: Seq<char>,
    default_model: Seq<char>,
    c: AppConfig,
) -> bool {
    &&& c.api_key@ == var_or(vars, "ANTHROPIC_API_KEY"@, ""@)
    &&& c.redis_url@ == var_or(vars, "REDIS_URL"@, "redis://127.0.0.1:6379"@)
    &&& c.model@ == var_or(vars, "CLAUDE_MODEL"@, default_model)
    &&& (match c.discord_bridge_url {
        Some(u) => env_lookup(vars, "DISCORD_BRIDGE_URL"@) == Some(u@),
        None => env_lookup(vars, "DISCORD_BRIDGE_URL"@) is None,
    })
    &&& c.coord_api_url@ == var_or(vars, "COORD_API_URL"@, "http://localhost:8800"@)
    &&& c.coord_api_token@ == var_or(vars, "COORD_API_TOKEN"@, ""@)
    &&& c.condor_eye_bind@ == var_or(vars, "CONDOR_EYE_BIND"@, "0.0.0.0"@)
    &&& c.condor_eye_port == port_or(var_or(vars, "CONDOR_EYE_PORT"@, "9050"@), 9050)
    &&& c.audio_bind@ == var_or2(vars, "CONDOR_AUDIO_BIND"@, "CONDOR_EYE_AUDIO_BIND"@, "127.0.0.1"@)
    &&& c.audio_port == port_or(
        var_or2(vars, "CONDOR_AUDIO_PORT"@, "CONDOR_EYE_AUDIO_PORT"@, "9051"@),
        9051,
    )
    &&& c.audio_output_dir@ == var_or2(
        vars,
        "CONDOR_AUDIO_OUTPUT_DIR"@,
        "CONDOR_EYE_AUDIO_OUTPUT_DIR"@,
        default_output_dir,
    )
    &&& c.audio_transport@ == var_or(vars, "AUDIO_TRANSPORT"@, "http"@)
    &&& c.whisper_url@ == var_or(vars, "WHISPER_URL"@, "http://localhost:8080/inference"@)
    &&& c.audio_chunk_seconds == port_or(var_or(vars, "CONDOR_AUDIO_CHUNK_SECONDS"@, "10"@), 10)
    &&& c.audio_stitch_ms == port_or(var_or(vars, "CONDOR_AUDIO_STITCH_MS"@, "1500"@), 1500)
    &&& c.condor_intel_url@ == var_or(vars, "CONDOR_INTEL_URL"@, "http://localhost:8791"@)
    &&& c.condor_audio_auto_watch == switch_on(env_lookup(vars, "CONDOR_AUDIO_AUTO_WATCH"@))
}

/// A switch setting is on when its value, trimmed and ASCII lower-cased, is
/// `1`, `true`, `yes` or `on`; it is off when unset or anything else.
pub open spec fn switch_on(value: Option<Seq<char>>) -> bool {
    match value {
        Some(v) => {
            let w = ascii_lower_seq(trim_seq(v));
            w == "1"@ || w == "true"@ || w == "yes"@ || w == "on"@
        },
        None => false,
    }
}

/// Reads a switch setting's value (see `switch_on`).
pub fn switch_value(value: Option<&str>) -> (b: bool)
    ensures
        b == switch_on(
            match value {
                Some(v) => Some(v@),
                None => None,
            },
        ),
{
    match value {
        None => false,
        Some(v) => {
            let w = ascii_lower_chars(&trim_chars(&chars_of(v)));
            chars_eq(&w, &chars_of("1")) || chars_eq(&w, &chars_of("true")) || chars_eq(
                &w,
                &chars_of("yes"),
            ) || chars_eq(&w, &chars_of("on"))
        },
    }
}

fn lookup(vars: &Vec<(String, String)>, name: &str) -> (r: Option<String>)
    ensures
        match r {
            Some(v) => env_lookup(vars@, name@) == Some(v@),
            None => env_lookup(vars@, name@) is None,
        },
{
    let mut i: usize = 0;
    assert(vars@.skip(0) =~= vars@);
    while i < vars.len()
        invariant
            i <= vars@.len(),
            env_lookup(vars@, name@) == env_lookup(vars@.skip(i as int), name@),
        decreases vars.len() - i,
    {
        assert(vars@.skip(i as int).drop_first() =~= vars@.skip(i as int + 1));
        if str_eq(vars[i].0.as_str(), name) {
            return Some(vars[i].1.clone());
        }
        i += 1;
    }
    None
}

fn lookup_or(vars: &Vec<(String, String)>, name: &str, default: &str) -> (r: String)
    ensures
        r@ == var_or(vars@, name@, default@),
{
    match lookup(vars, name) {
        Some(v) => v,
        None => default.to_string(),
    }
}

fn lookup_or2(vars: &Vec<(String, String)>, name: &str, alias: &str, default: &str) -> (r: String)
    ensures
        r@ == var_or2(vars@, name@, alias@, default@),
{
    match lookup(vars, name) {
        Some(v) => v,
        None => lookup_or(vars, alias, default),
    }
}

fn port_from(text: &str, default: u16) -> (r: u16)
    ensures
        r == port_or(text@, default),
{
    match parse_u16(text) {
        Some(p) => p,
        None => default,
    }
}

impl AppConfig {
    /// Builds the configuration from the process environment, given as
    /// name/value pairs, the platform's default audio directory and the
    /// default vision model.
    pub fn from_vars(vars: &Vec<(String, String)>, default_output_dir: &str, default_model: &str) -> (c:
        AppConfig)
        ensures
            config_from_vars(vars@, default_output_dir@, default_model@, c),
    {
        broadcast use vstd::string::group_string_axioms;

        let condor_eye_port_text = lookup_or(vars, "CONDOR_EYE_PORT", "9050");
        let audio_port_text = lookup_or2(vars, "CONDOR_AUDIO_PORT", "CONDOR_EYE_AUDIO_PORT", "9051");
        let chunk_text = lookup_or(vars, "CONDOR_AUDIO_CHUNK_SECONDS", "10");
        let stitch_text = lookup_or(vars, "CONDOR_AUDIO_STITCH_MS", "1500");
        AppConfig {
            api_key: lookup_or(vars, "ANTHROPIC_API_KEY", ""),
            redis_url: lookup_or(vars, "REDIS_URL", "redis://127.0.0.1:6379"),
            model: lookup_or(vars, "CLAUDE_MODEL", default_model),
            discord_bridge_url: lookup(vars, "DISCORD_BRIDGE_URL"),
            coord_api_url: lookup_or(vars, "COORD_API_URL", "http://localhost:8800"),
            coord_api_token: lookup_or(vars, "COORD_API_TOKEN", ""),
            condor_eye_bind: lookup_or(vars, "CONDOR_EYE_BIND", "0.0.0.0"),
            condor_eye_port: port_from(condor_eye_port_text.as_str(), 9050),
            audio_bind: lookup_or2(vars, "CONDOR_AUDIO_BIND", "CONDOR_EYE_AUDIO_BIND", "127.0.0.1"),
            audio_port: port_from(audio_port_text.as_str(), 9051),
            audio_output_dir: lookup_or2(
                vars,
                "CONDOR_AUDIO_OUTPUT_DIR",
                "CONDOR_EYE_AUDIO_OUTPUT_DIR",
                default_output_dir,
            ),
            audio_transport: lookup_or(vars, "AUDIO_TRANSPORT", "http"),
            whisper_url: lookup_or(vars, "WHISPER_URL", "http://localhost:8080/inference"),
            audio_chunk_seconds: port_from(chunk_text.as_str(), 10),
            audio_stitch_ms: port_from(stitch_text.as_str(), 1500),
            condor_intel_url: lookup_or(vars, "CONDOR_INTEL_URL", "http://localhost:8791"),
            condor_audio_auto_watch: match lookup(vars, "CONDOR_AUDIO_AUTO_WATCH") {
                Some(v) => switch_value(Some(v.as_str())),
                None => false,
            },
        }
    }
}

// ---------------------------------------------------------------------------
// Tick sizes. Prices throughout the crate are fixed-point integers in
// millionths of a currency unit (one `price_unit` is 0.000001).
// ---------------------------------------------------------------------------
/// Number of price units in one currency unit.
pub const PRICE_SCALE: i64 = 1_000_000;

/// Tick size, in price units, of an upper-case bare symbol; a penny when the
/// symbol is not one of the known instruments.
pub open spec fn tick_for(bare: Seq<char>) -> u64 {
    if bare == "SPY"@ || bare == "AAPL"@ || bare == "QQQ"@ || bare == "IWM"@ {
        10_000
    } else if bare == "ES"@ || bare == "NQ"@ || bare == "MES"@ || bare == "MNQ"@ {
        250_000
    } else if bare == "YM"@ {
        1_000_000
    } else if bare == "RTY"@ {
        100_000
    } else if bare == "CL"@ {
        10_000
    } else if bare == "GC"@ {
        100_000
    } else {
        10_000
    }
}

/// `s` without its leading `/` characters.
pub open spec fn strip_leading_slashes(s: Seq<char>) -> Seq<char>
    decreases s.len(),
{
    if s.len() > 0 && s[0] == '/' {
        strip_leading_slashes(s.drop_first())
    } else {
        s
    }
}

/// Unicode upper-casing of a string (`str::to_uppercase`).
pub uninterp spec fn spec_to_uppercase(s: Seq<char>) -> Seq<char>;

/// `char::to_ascii_uppercase`.
pub open spec fn ascii_upper(c: char) -> char {
    if 'a' <= c <= 'z' {
        ((c as u32) - 32) as char
    } else {
        c
    }
}

pub open spec fn all_ascii(s: Seq<char>) -> bool {
    forall|i: int| 0 <= i < s.len() ==> (#[trigger] s[i] as u32) < 128
}

/// `str::to_uppercase`. Its result is named `spec_to_uppercase`; on ASCII
/// text it is the ASCII upper-casing, as the Unicode case tables agree with
/// ASCII there. Nothing more is stated of non-ASCII text.
#[verifier::external_body]
pub(crate) fn to_uppercase(s: &str) -> (r: String)
    ensures
        r@ == spec_to_uppercase(s@),
        all_ascii(s@) ==> r@ == s@.map_values(|c: char| ascii_upper(c)),
{
    s.to_uppercase()
}

/// The symbol with its leading slashes removed.
pub fn strip_slashes(symbol: &str) -> (r: String)
    ensures
        r@ == strip_leading_slashes(symbol@),
{
    let v = chars_of(symbol);
    let mut i: usize = 0;
    assert(v@.skip(0) =~= v@);
    while i < v.len() && v[i] == '/'
        invariant
            i <= v@.len(),
            strip_leading_slashes(symbol@) == strip_leading_slashes(v@.skip(i as int)),
            v@ == symbol@,
        decreases v.len() - i,
    {
        assert(v@.skip(i as int).drop_first() =~= v@.skip(i as int + 1));
        i += 1;
    }
    let mut out: Vec<char> = Vec::new();
    let mut j: usize = i;
    while j < v.len()
        invariant
            i <= j <= v@.len(),
            out@ == v@.subrange(i as int, j as int),
        decreases v.len() - j,
    {
        assert(v@.subrange(i as int, j as int + 1) =~= out@.push(v@[j as int]));
        out.push(v[j]);
        j += 1;
    }
    assert(out@ =~= v@.skip(i as int));
    string_of(&out)
}

/// Tick size, in price units, of an already upper-cased bare symbol.
pub fn tick_size_for(bare: &str) -> (t: u64)
    ensures
        t == tick_for(bare@),
{
    broadcast use vstd::string::group_string_axioms;

    if str_eq(bare, "SPY") || str_eq(bare, "AAPL") || str_eq(bare, "QQQ") || str_eq(bare, "IWM") {
        10_000
    } else if str_eq(bare, "ES") || str_eq(bare, "NQ") || str_eq(bare, "MES") || str_eq(
        bare,
        "MNQ",
    ) {
        250_000
    } else if str_eq(bare, "YM") {
        1_000_000
    } else if str_eq(bare, "RTY") {
        100_000
    } else if str_eq(bare, "CL") {
        10_000
    } else if str_eq(bare, "GC") {
        100_000
    } else {
        10_000
    }
}

/// Tick size, in price units, of a symbol: leading `/` (futures) stripped,
/// case ignored, a penny for unknown symbols.
pub fn tick_size(symbol: &str) -> (t: u64)
    ensures
        t == tick_for(spec_to_uppercase(strip_leading_slashes(symbol@))),
{
    let bare = strip_slashes(symbol);
    let upper = to_uppercase(bare.as_str());
    tick_size_for(upper.as_str())
}

/// Leading slashes do not change a symbol's tick size: `/ES` ticks like `ES`.
pub proof fn law_tick_ignores_leading_slash(symbol: Seq<char>)
    ensures
        tick_for(spec_to_uppercase(strip_leading_slashes(seq!['/'] + symbol))) == tick_for(
            spec_to_uppercase(strip_leading_slashes(symbol)),
        ),
{
    assert((seq!['/'] + symbol).drop_first() =~= symbol);
}

/// A setting with a legacy alias reads the primary variable when it is set,
/// otherwise the alias when that is set, otherwise the default.
pub proof fn law_alias_fallback(
    vars: Seq<(String, String)>,
    name: Seq<char>,
    alias: Seq<char>,
    default: Seq<char>,
)
    ensures
        env_lookup(vars, name) matches Some(v) ==> var_or2(vars, name, alias, default) == v,
        env_lookup(vars, name) is None ==> (env_lookup(vars, alias) matches Some(v) ==> var_or2(
            vars,
            name,
            alias,
            default,
        ) == v),
        env_lookup(vars, name) is None && env_lookup(vars, alias) is None ==> var_or2(
            vars,
            name,
            alias,
            default,
        ) == default,
{
}

/// The older audio variable names still work: with `CONDOR_AUDIO_BIND`,
/// `CONDOR_AUDIO_PORT` or `CONDOR_AUDIO_OUTPUT_DIR` unset, the configuration
/// takes `CONDOR_EYE_AUDIO_BIND`, `CONDOR_EYE_AUDIO_PORT` or
/// `CONDOR_EYE_AUDIO_OUTPUT_DIR` when set.
pub proof fn law_audio_aliases(
    vars: Seq<(String, String)>,
    default_output_dir: Seq<char>,
    default_model: Seq<char>,
    c: AppConfig,
)
    requires
        config_from_vars(vars, default_output_dir, default_model, c),
    ensures
        env_lookup(vars, "CONDOR_AUDIO_BIND"@) is None ==> (env_lookup(
            vars,
            "CONDOR_EYE_AUDIO_BIND"@,
        ) matches Some(v) ==> c.audio_bind@ == v),
        env_lookup(vars, "CONDOR_AUDIO_PORT"@) is None ==> (env_lookup(
            vars,
            "CONDOR_EYE_AUDIO_PORT"@,
        ) matches Some(v) ==> c.audio_port == port_or(v, 9051)),
        env_lookup(vars, "CONDOR_AUDIO_OUTPUT_DIR"@) is None ==> (env_lookup(
            vars,
            "CONDOR_EYE_AUDIO_OUTPUT_DIR"@,
        ) matches Some(v) ==> c.audio_output_dir@ == v),
{
    law_alias_fallback(vars, "CONDOR_AUDIO_BIND"@, "CONDOR_EYE_AUDIO_BIND"@, "127.0.0.1"@);
    law_alias_fallback(vars, "CONDOR_AUDIO_PORT"@, "CONDOR_EYE_AUDIO_PORT"@, "9051"@);
    law_alias_fallback(
        vars,
        "CONDOR_AUDIO_OUTPUT_DIR"@,
        "CONDOR_EYE_AUDIO_OUTPUT_DIR"@,
        default_output_dir,
    );
}

/// The listed equities trade in pennies: SPY, AAPL, QQQ and IWM have a tick
/// of 0.01 (10 000 price units).
pub proof fn law_equities_tick_a_penny()
    ensures
        tick_for("SPY"@) == 10_000,
        tick_for("AAPL"@) == 10_000,
        tick_for("QQQ"@) == 10_000,
        tick_for("IWM"@) == 10_000,
{
    reveal_strlit("SPY");
    reveal_strlit("AAPL");
    reveal_strlit("QQQ");
    reveal_strlit("IWM");
}

/// Only the futures roots tick coarser than a penny: ES, NQ, MES and MNQ by
/// 0.25, YM by 1, RTY and GC by 0.1; every other symbol's tick is a penny.
pub proof fn law_coarse_ticks_are_futures(bare: Seq<char>)
    ensures
        tick_for(bare) == 10_000 || tick_for(bare) == 100_000 || tick_for(bare) == 250_000
            || tick_for(bare) == 1_000_000,
        tick_for(bare) == 250_000 <==> (bare == "ES"@ || bare == "NQ"@ || bare == "MES"@ || bare
            == "MNQ"@),
        tick_for(bare) == 1_000_000 <==> bare == "YM"@,
        tick_for(bare) == 100_000 <==> (bare == "RTY"@ || bare == "GC"@),
{
    reveal_strlit("SPY");
    reveal_strlit("AAPL");
    reveal_strlit("QQQ");
    reveal_strlit("IWM");
    reveal_strlit("ES");
    reveal_strlit("NQ");
    reveal_strlit("MES");
    reveal_strlit("MNQ");
    reveal_strlit("YM");
    reveal_strlit("RTY");
    reveal_strlit("CL");
    reveal_strlit("GC");
    if bare == "ES"@ || bare == "NQ"@ || bare == "MES"@ || bare == "MNQ"@ || bare == "YM"@ {
        assert(bare != "SPY"@ && bare != "AAPL"@ && bare != "QQQ"@ && bare != "IWM"@) by {
            if bare == "SPY"@ || bare == "AAPL"@ || bare == "QQQ"@ || bare == "IWM"@ {
                assert(bare[0] == "SPY"@[0] || bare[0] == "AAPL"@[0] || bare[0] == "QQQ"@[0]
                    || bare[0] == "IWM"@[0]);
            }
        }
    }
    if bare == "RTY"@ || bare == "GC"@ {
        assert(bare[0] == 'R' || bare[0] == 'G');
        assert("SPY"@[0] == 'S' && "AAPL"@[0] == 'A' && "QQQ"@[0] == 'Q' && "IWM"@[0] == 'I'
            && "ES"@[0] == 'E' && "NQ"@[0] == 'N' && "MES"@[0] == 'M' && "MNQ"@[0] == 'M'
            && "YM"@[0] == 'Y' && "CL"@[0] == 'C');
        assert(bare != "SPY"@ && bare != "AAPL"@ && bare != "QQQ"@ && bare != "IWM"@ && bare
            != "ES"@ && bare != "NQ"@ && bare != "MES"@ && bare != "MNQ"@ && bare != "YM"@) by {
            if bare == "SPY"@ || bare == "AAPL"@ || bare == "QQQ"@ || bare == "IWM"@ || bare
                == "ES"@ || bare == "NQ"@ || bare == "MES"@ || bare == "MNQ"@ || bare == "YM"@ {
                assert(bare[0] != 'R' && bare[0] != 'G');
            }
        }
        if bare == "GC"@ {
            assert(bare != "RTY"@ && bare != "CL"@) by {
                if bare == "RTY"@ || bare == "CL"@ {
                    assert(bare.len() == 3 || bare[0] == 'C');
                }
            }
        }
    }
    if bare == "YM"@ {
        assert(bare != "ES"@ && bare != "NQ"@ && bare != "MES"@ && bare != "MNQ"@) by {
            if bare == "ES"@ || bare == "NQ"@ || bare == "MES"@ || bare == "MNQ"@ {
                assert(bare[0] == "ES"@[0] || bare[0] == "NQ"@[0] || bare[0] == "MES"@[0]
                    || bare[0] == "MNQ"@[0]);
            }
        }
    }
}

// ---------------------------------------------------------------------------
// Extraction profiles
// ---------------------------------------------------------------------------
#[derive(Debug, Clone)]
pub struct ExtractionProfile {
    pub name: String,
    pub prompt: String,
    pub truth_source: TruthSourceConfig,
    pub comparison: ComparisonConfig,
}

#[derive(Debug, Clone)]
pub struct TruthSourceConfig {
    /// "redis_stream", "file" or "none".
    pub source_type: String,
    pub stream: Option<String>,
    pub match_field: Option<String>,
}

#[derive(Debug, Clone)]
pub struct ComparisonConfig {
    /// "tick_size" or "fixed".
    pub price_tolerance_mode: String,
    pub volume_field: VolumeFieldMapping,
}

#[derive(Debug, Clone)]
pub struct VolumeFieldMapping {
    pub extracted: String,
    pub truth: String,
}

// ---------------------------------------------------------------------------
// Cost estimate
// ---------------------------------------------------------------------------
/// Picture-element count that makes one image token.
pub const PIXELS_PER_TOKEN: u128 = 750;

/// Output tokens assumed for one reply.
pub const OUTPUT_TOKENS: u128 = 500;

/// Price per million tokens, in dollars, of input and of output for a model:
/// haiku rates, sonnet rates, or haiku rates for any other model.
pub open spec fn model_rates(model: Seq<char>) -> (u128, u128) {
    if contains_seq(model, "haiku"@) {
        (1, 5)
    } else if contains_seq(model, "sonnet"@) {
        (3, 15)
    } else {
        (1, 5)
    }
}

/// Estimated cost in pico-dollars (10^-12 USD), rounded down: image tokens
/// are `width * height / 750`, output is 500 tokens, each priced per million.
pub open spec fn cost_pico(width: nat, height: nat, model: Seq<char>) -> nat {
    let (input_rate, output_rate) = model_rates(model);
    ((width * height * input_rate * 1_000_000) / 750 + OUTPUT_TOKENS * output_rate
        * 1_000_000) as nat
}

/// Estimated cost of one vision call on a `width` x `height` screenshot,
/// in pico-dollars.
pub fn estimate_cost(width: u32, height: u32, model: &str) -> (c: u128)
    ensures
        c == cost_pico(width as nat, height as nat, model@),
{
    broadcast use vstd::string::group_string_axioms;

    let m = chars_of(model);
    let haiku = chars_of("haiku");
    let sonnet = chars_of("sonnet");
    let (input_rate, output_rate): (u128, u128) = if contains_chars(&m, &haiku) {
        (1, 5)
    } else if contains_chars(&m, &sonnet) {
        (3, 15)
    } else {
        (1, 5)
    };
    let w = width as u128;
    let h = height as u128;
    assert(w * h <= 0xffff_ffff_ffff_ffff_ffff_ffffu128) by (nonlinear_arith)
        requires
            w <= 0xffff_ffff,
            h <= 0xffff_ffff,
    ;
    let area = w * h;
    assert(area * input_rate * 1_000_000 <= 0xffff_ffff_ffff_ffff_ffff_ffff * 3 * 1_000_000)
        by (nonlinear_arith)
        requires
            area <= 0xffff_ffff_ffff_ffff_ffff_ffffu128,
            input_rate <= 3,
    ;
    (area * input_rate * 1_000_000) / PIXELS_PER_TOKEN + OUTPUT_TOKENS * output_rate * 1_000_000
}

} // verus!
