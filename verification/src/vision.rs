//! Asking a vision model about a screenshot: the request, and what its
//! answers and failures become.
use vstd::prelude::*;

use crate::api::describe_prompt;
use crate::codec::{base64_encode, base64_seq, json_content_text, json_first_content_text};
use crate::text::{
    byte_prefix, chars_of, concat_chars, ends_with_chars, ends_with_seq, prefix_splits_char,
    starts_with_chars, starts_with_seq, string_of, trim_chars, trim_seq, utf8_prefix,
};

verus! {

/// Error of an extraction call.
#[derive(Debug)]
pub enum ExtractionError {
    Api(String),
    Parse(String),
    RateLimit,
    /// A transport failure, with the client's description of it.
    Network(String),
}

impl ExtractionError {
    /// The message shown for the error.
    pub fn message(&self) -> (m: String)
        ensures
            m@ == match self {
                ExtractionError::Api(s) => "API error: "@ + s@,
                ExtractionError::Parse(s) => "Parse error: "@ + s@,
                ExtractionError::RateLimit => "Rate limited — retry in a moment"@,
                ExtractionError::Network(s) => "Network error: "@ + s@,
            },
    {
        broadcast use vstd::string::group_string_axioms;

        match self {
            ExtractionError::Api(s) => crate::text::join2("API error: ", s.as_str()),
            ExtractionError::Parse(s) => crate::text::join2("Parse error: ", s.as_str()),
            ExtractionError::RateLimit => "Rate limited — retry in a moment".to_string(),
            ExtractionError::Network(s) => crate::text::join2("Network error: ", s.as_str()),
        }
    }
}

/// A transport failure: a timeout is reported as an API error, anything
/// else as a network error carrying the client's description.
pub fn network_error(timed_out: bool, detail: String) -> (e: ExtractionError)
    ensures
        timed_out ==> (e matches ExtractionError::Api(s) && s@ == "Request timed out"@),
        !timed_out ==> e == ExtractionError::Network(detail),
{
    broadcast use vstd::string::group_string_axioms;

    if timed_out {
        ExtractionError::Api("Request timed out".to_string())
    } else {
        ExtractionError::Network(detail)
    }
}

/// HTTP status of a rate-limited request.
pub const TOO_MANY_REQUESTS: u16 = 429;

/// A reply with an unsuccessful status: rate limiting, or an API error
/// carrying the status and the body.
pub fn vision_failure(status: u16, status_text: &str, body: &str) -> (e: ExtractionError)
    ensures
        status == TOO_MANY_REQUESTS ==> e is RateLimit,
        status != TOO_MANY_REQUESTS ==> (e matches ExtractionError::Api(s) && s@ == status_text@
            + ": "@ + body@),
{
    if status == TOO_MANY_REQUESTS {
        ExtractionError::RateLimit
    } else {
        let v = concat_chars(&concat_chars(&chars_of(status_text), &chars_of(": ")), &chars_of(body));
        ExtractionError::Api(string_of(&v))
    }
}

// ---------------------------------------------------------------------------
// Cleaning the model's text
// ---------------------------------------------------------------------------
/// `str::trim_start_matches` with a non-empty string: every leading copy of
/// `p` removed.
pub open spec fn strip_prefix_all(s: Seq<char>, p: Seq<char>) -> Seq<char>
    decreases s.len(),
{
    if p.len() > 0 && starts_with_seq(s, p) {
        strip_prefix_all(s.skip(p.len() as int), p)
    } else {
        s
    }
}

/// `str::trim_end_matches` with a non-empty string: every trailing copy of
/// `p` removed.
pub open spec fn strip_suffix_all(s: Seq<char>, p: Seq<char>) -> Seq<char>
    decreases s.len(),
{
    if p.len() > 0 && ends_with_seq(s, p) {
        strip_suffix_all(s.take(s.len() - p.len()), p)
    } else {
        s
    }
}

/// The JSON in a model reply: surrounding whitespace and Markdown code
/// fences (```` ```json ```` or ```` ``` ```` in front, ```` ``` ```` behind)
/// removed.
pub open spec fn unfenced(s: Seq<char>) -> Seq<char> {
    trim_seq(
        strip_suffix_all(
            strip_prefix_all(strip_prefix_all(trim_seq(s), "```json"@), "```"@),
            "```"@,
        ),
    )
}

fn strip_prefix_chars(v: &Vec<char>, p: &Vec<char>) -> (r: Vec<char>)
    requires
        p@.len() > 0,
    ensures
        r@ == strip_prefix_all(v@, p@),
{
    let mut cur = concat_chars(v, &Vec::new());
    assert(cur@ =~= v@);
    while starts_with_chars(&cur, p)
        invariant
            p@.len() > 0,
            strip_prefix_all(v@, p@) == strip_prefix_all(cur@, p@),
        decreases cur@.len(),
    {
        let mut next: Vec<char> = Vec::new();
        let mut k: usize = p.len();
        while k < cur.len()
            invariant
                p@.len() <= k <= cur@.len(),
                next@ == cur@.subrange(p@.len() as int, k as int),
            decreases cur.len() - k,
        {
            next.push(cur[k]);
            k += 1;
        }
        assert(next@ =~= cur@.skip(p@.len() as int));
        cur = next;
    }
    cur
}

fn strip_suffix_chars(v: &Vec<char>, p: &Vec<char>) -> (r: Vec<char>)
    requires
        p@.len() > 0,
    ensures
        r@ == strip_suffix_all(v@, p@),
{
    let mut cur = concat_chars(v, &Vec::new());
    assert(cur@ =~= v@);
    while ends_with_chars(&cur, p)
        invariant
            p@.len() > 0,
            strip_suffix_all(v@, p@) == strip_suffix_all(cur@, p@),
        decreases cur@.len(),
    {
        let keep = cur.len() - p.len();
        cur.truncate(keep);
    }
    cur
}

/// The reply text without whitespace and code fences around the JSON.
pub fn strip_code_fences(text: &str) -> (r: String)
    ensures
        r@ == unfenced(text@),
{
    proof {
        reveal_strlit("```json");
        reveal_strlit("```");
    }
    let t = trim_chars(&chars_of(text));
    let a = strip_prefix_chars(&t, &chars_of("```json"));
    let b = strip_prefix_chars(&a, &chars_of("```"));
    let c = strip_suffix_chars(&b, &chars_of("```"));
    let d = trim_chars(&c);
    string_of(&d)
}

/// The JSON an extraction reply carries: the first content block's text,
/// unfenced; a parse error when the reply has no text.
pub fn extraction_json(content_text: Option<&str>) -> (r: Result<String, ExtractionError>)
    ensures
        match content_text {
            Some(t) => r matches Ok(j) && j@ == unfenced(t@),
            None => r matches Err(ExtractionError::Parse(s)) && s@ == "No text in response"@,
        },
{
    broadcast use vstd::string::group_string_axioms;

    match content_text {
        Some(t) => Ok(strip_code_fences(t)),
        None => Err(ExtractionError::Parse("No text in response".to_string())),
    }
}

/// The error for JSON that does not decode: the decoder's message and the
/// first 200 bytes of the JSON.
pub fn extraction_parse_error(detail: &str, json_text: &str) -> (e: ExtractionError)
    requires
        !prefix_splits_char(json_text@, 200),
    ensures
        e matches ExtractionError::Parse(s) && s@ == "JSON parse error: "@ + detail@ + " — raw: "@
            + utf8_prefix(json_text@, 200),
{
    let head = byte_prefix(json_text, 200);
    let v = concat_chars(
        &concat_chars(&concat_chars(&chars_of("JSON parse error: "), &chars_of(detail)), &chars_of(" — raw: ")),
        &chars_of(head),
    );
    ExtractionError::Parse(string_of(&v))
}

// ---------------------------------------------------------------------------
// Requests
// ---------------------------------------------------------------------------
/// Reply length asked of the model.
pub const MAX_TOKENS: u32 = 2000;

/// A vision request: one user message holding the PNG image (base64) and
/// the prompt.
#[derive(Debug)]
pub struct VisionRequest {
    pub model: String,
    pub max_tokens: u32,
    pub media_type: String,
    pub image_base64: String,
    pub prompt: String,
}

pub fn vision_request(model: &str, png: &[u8], prompt: &str) -> (r: VisionRequest)
    ensures
        r.model@ == model@,
        r.max_tokens == MAX_TOKENS,
        r.media_type@ == "image/png"@,
        r.image_base64@ == base64_seq(png@),
        r.prompt@ == prompt@,
{
    broadcast use vstd::string::group_string_axioms;

    VisionRequest {
        model: model.to_string(),
        max_tokens: MAX_TOKENS,
        media_type: "image/png".to_string(),
        image_base64: base64_encode(png),
        prompt: prompt.to_string(),
    }
}

/// The prompt of a free-form capture: the user's, or the default
/// description prompt when it is empty.
pub fn free_prompt(prompt: String) -> (r: String)
    ensures
        prompt@.len() == 0 ==> r@ == describe_prompt(),
        prompt@.len() != 0 ==> r == prompt,
{
    if prompt.as_str().is_empty() {
        crate::api::capture_prompt(None)
    } else {
        prompt
    }
}

/// The text of the first content block of a model reply body. A body that
/// is not JSON is a transport failure carrying the decoder's message, as the
/// HTTP client reports an undecodable body.
pub fn reply_content_text(body: &str) -> (r: Result<Option<String>, ExtractionError>)
    ensures
        match json_content_text(body@) {
            Err(m) => r matches Err(ExtractionError::Network(s)) && s@ == m,
            Ok(Some(t)) => r matches Ok(Some(s)) && s@ == t,
            Ok(None) => r matches Ok(None),
        },
{
    match json_first_content_text(body) {
        Err(m) => Err(ExtractionError::Network(m)),
        Ok(t) => Ok(t),
    }
}

/// The text of a free-form reply, `(no response)` when it has none.
pub fn free_reply_text(content_text: Option<&str>) -> (r: String)
    ensures
        r@ == match content_text {
            Some(t) => t@,
            None => "(no response)"@,
        },
{
    broadcast use vstd::string::group_string_axioms;

    match content_text {
        Some(t) => t.to_string(),
        None => "(no response)".to_string(),
    }
}

} // verus!
