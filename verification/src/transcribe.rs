//! Turning a written chunk into text: the transcription service's reply, the
//! tap's status after a chunk, and the notice sent to the intelligence
//! sidecar.
use vstd::prelude::*;

use crate::audio::{chunk_plan, plan_of};
use crate::codec::{json_field_str, json_field_string};
use crate::config::AppConfig;
use crate::text::{chars_of, concat_chars, str_eq, string_of, trim_chars, trim_seq};

verus! {

/// Transcription goes over HTTP; any other transport is refused.
pub fn whisper_transport(config: &AppConfig) -> (r: Result<(), String>)
    ensures
        config.audio_transport@ == "http"@ ==> r is Ok,
        config.audio_transport@ != "http"@ ==> (r matches Err(e) && e@ == "AUDIO_TRANSPORT="@
            + config.audio_transport@ + " is not implemented; use http"@),
{
    if str_eq(config.audio_transport.as_str(), "http") {
        Ok(())
    } else {
        let v = concat_chars(
            &concat_chars(&chars_of("AUDIO_TRANSPORT="), &chars_of(config.audio_transport.as_str())),
            &chars_of(" is not implemented; use http"),
        );
        Err(string_of(&v))
    }
}

/// The file name sent with the upload: the chunk's, or `chunk.wav`.
pub fn upload_file_name(file_name: Option<&str>) -> (r: String)
    ensures
        r@ == match file_name {
            Some(n) => n@,
            None => "chunk.wav"@,
        },
{
    broadcast use vstd::string::group_string_axioms;

    match file_name {
        Some(n) => n.to_string(),
        None => "chunk.wav".to_string(),
    }
}

/// The text of a transcription reply: empty for a blank reply; the trimmed
/// `text` field of a JSON reply, else its trimmed `result` field; otherwise
/// the trimmed reply itself.
pub open spec fn whisper_text(body: Seq<char>) -> Seq<char> {
    let t = trim_seq(body);
    if t.len() == 0 {
        Seq::empty()
    } else if json_field_string(t, "text"@) is Some {
        trim_seq(json_field_string(t, "text"@)->0)
    } else if json_field_string(t, "result"@) is Some {
        trim_seq(json_field_string(t, "result"@)->0)
    } else {
        t
    }
}

pub fn extract_whisper_text(body: &str) -> (r: Result<String, String>)
    ensures
        r matches Ok(t) && t@ == whisper_text(body@),
{
    let t = trim_chars(&chars_of(body));
    if t.len() == 0 {
        return Ok(String::new());
    }
    let trimmed = string_of(&t);
    match json_field_str(trimmed.as_str(), "text") {
        Some(text) => {
            return Ok(string_of(&trim_chars(&chars_of(text.as_str()))));
        },
        None => {},
    }
    match json_field_str(trimmed.as_str(), "result") {
        Some(text) => Ok(string_of(&trim_chars(&chars_of(text.as_str())))),
        None => Ok(trimmed),
    }
}

/// The outcome of a transcription request: its text when the service
/// answered with success, otherwise an error with the status and body.
pub fn whisper_reply(success: bool, status_text: &str, body: &str) -> (r: Result<String, String>)
    ensures
        success ==> (r matches Ok(t) && t@ == whisper_text(body@)),
        !success ==> (r matches Err(e) && e@ == "whisper status "@ + status_text@ + ": "@ + body@),
{
    if success {
        extract_whisper_text(body)
    } else {
        let v = concat_chars(
            &concat_chars(&concat_chars(&chars_of("whisper status "), &chars_of(status_text)), &chars_of(": ")),
            &chars_of(body),
        );
        Err(string_of(&v))
    }
}

/// The tap's status detail after a failed transcription.
pub fn transcription_failed(error: &str) -> (r: String)
    ensures
        r@ == "transcription failed: "@ + error@,
{
    crate::text::join2("transcription failed: ", error)
}

/// Bytes a chunk of 16-bit samples occupies.
pub fn chunk_bytes(sample_count: usize) -> (r: u64)
    requires
        sample_count * 2 <= u64::MAX,
    ensures
        r == sample_count * 2,
{
    (sample_count as u64) * 2
}

// ---------------------------------------------------------------------------
// Sidecar notice
// ---------------------------------------------------------------------------
/// `s` without its trailing `/` characters.
pub open spec fn strip_trailing_slashes(s: Seq<char>) -> Seq<char>
    decreases s.len(),
{
    if s.len() > 0 && s.last() == '/' {
        strip_trailing_slashes(s.drop_last())
    } else {
        s
    }
}

/// A finished transcript announced to the intelligence sidecar.
#[derive(Debug)]
pub struct IntelIngest {
    pub url: String,
    pub transcript_id: String,
    pub app: String,
    pub text: String,
    pub chunk_started_at: Option<String>,
    pub chunk_seconds: u16,
    pub stitch_ms: u16,
    pub source: String,
}

/// The notice for a transcript: posted to `<sidecar>/ingest/condor-audio`
/// with the transcript, its start and the chunk plan.
pub fn intel_ingest(
    config: &AppConfig,
    transcript_id: &str,
    app: &str,
    text: &str,
    chunk_started_at: Option<String>,
) -> (r: IntelIngest)
    ensures
        r.url@ == strip_trailing_slashes(config.condor_intel_url@) + "/ingest/condor-audio"@,
        r.transcript_id@ == transcript_id@,
        r.app@ == app@,
        r.text@ == text@,
        r.chunk_started_at == chunk_started_at,
        r.chunk_seconds == plan_of(config.audio_chunk_seconds, config.audio_stitch_ms).chunk_seconds,
        r.stitch_ms == plan_of(config.audio_chunk_seconds, config.audio_stitch_ms).stitch_ms,
        r.source@ == "condor_audio"@,
{
    broadcast use vstd::string::group_string_axioms;

    let plan = chunk_plan(config);
    let base = chars_of(config.condor_intel_url.as_str());
    let mut end = base.len();
    assert(base@.subrange(0, end as int) =~= base@);
    while end > 0 && base[end - 1] == '/'
        invariant
            end <= base@.len(),
            strip_trailing_slashes(base@) == strip_trailing_slashes(base@.subrange(0, end as int)),
        decreases end,
    {
        assert(base@.subrange(0, end as int).drop_last() =~= base@.subrange(0, end - 1));
        end -= 1;
    }
    let mut head: Vec<char> = Vec::new();
    let mut i: usize = 0;
    while i < end
        invariant
            i <= end <= base@.len(),
            head@ == base@.subrange(0, i as int),
        decreases end - i,
    {
        head.push(base[i]);
        i += 1;
    }
    let url = concat_chars(&head, &chars_of("/ingest/condor-audio"));
    IntelIngest {
        url: string_of(&url),
        transcript_id: transcript_id.to_string(),
        app: app.to_string(),
        text: text.to_string(),
        chunk_started_at,
        chunk_seconds: plan.chunk_seconds,
        stitch_ms: plan.stitch_ms,
        source: "condor_audio".to_string(),
    }
}

} // verus!
