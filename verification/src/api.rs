//! The HTTP API's requests and answers, its authorization rule, and the
//! decisions its handlers make before and after the work they hand out.
use vstd::prelude::*;

use crate::audio::AudioProjectStatus;
use crate::capture::Region;
use crate::codec::{base64_encode, base64_seq};
use crate::config::AppConfig;
use crate::review::ReviewProvider;
use crate::taps::{ActiveTap, AudioStatusSnapshot};
use crate::text::{chars_of, concat_chars, dec_seq, push_u64_dec, string_of};
use crate::windows::WindowInfo;

verus! {

pub const STATUS_UNAUTHORIZED: u16 = 401;

pub const STATUS_FORBIDDEN: u16 = 403;

pub const STATUS_INTERNAL_ERROR: u16 = 500;

#[derive(Debug)]
pub struct CaptureRequest {
    pub prompt: Option<String>,
    pub region: Option<Region>,
    /// Window to bring to the foreground before the capture.
    pub hwnd: Option<u64>,
    /// Shortcuts to send after focusing (such as `ctrl+3` for a browser tab).
    pub keys: Option<Vec<String>>,
    /// Capture without taking the focus.
    pub no_focus: bool,
    pub review: ReviewProvider,
}

#[derive(Debug)]
pub struct LocateRequest {
    pub target: String,
}

#[derive(Debug)]
pub struct LocateResponse {
    pub found: bool,
    pub bounds: Option<Region>,
    pub confidence: String,
    pub description: String,
}

#[derive(Debug)]
pub struct StatusResponse {
    pub running: bool,
    pub version: String,
    pub api_key_configured: bool,
    pub model: String,
}

#[derive(Debug)]
pub struct AudioStatusResponse {
    pub running: bool,
    pub project: AudioProjectStatus,
    pub active_taps: Vec<ActiveTap>,
    pub audio_bind: String,
    pub audio_port: u16,
    pub audio_transport: String,
    pub audio_output_dir: String,
    pub whisper_url: String,
}

#[derive(Debug)]
pub struct ErrorResponse {
    pub error: String,
}

#[derive(Debug)]
pub struct AudioTapStartRequest {
    pub app: String,
    pub pid: Option<u32>,
}

#[derive(Debug)]
pub struct TranscriptQuery {
    pub since: Option<String>,
    pub app: Option<String>,
}

#[derive(Debug)]
pub struct ScreenshotRequest {
    pub region: Option<Region>,
}

/// A refused request: the HTTP status and the error body.
#[derive(Debug)]
pub struct ApiRejection {
    pub status: u16,
    pub body: ErrorResponse,
}

/// An internal error answered with status 500 and the message.
pub fn api_error(msg: String) -> (r: ApiRejection)
    ensures
        r.status == STATUS_INTERNAL_ERROR,
        r.body.error == msg,
{
    ApiRejection { status: STATUS_INTERNAL_ERROR, body: ErrorResponse { error: msg } }
}

// ---------------------------------------------------------------------------
// Authorization
// ---------------------------------------------------------------------------
pub open spec fn disabled_message() -> Seq<char> {
    "Capture disabled: no CAPTURE_TOKEN set. Run: op.exe read 'op://Dev/condor-eye-capture/token' to authorize."@
}

pub open spec fn bad_auth_message() -> Seq<char> {
    "Invalid or missing Authorization header. Use: Authorization: Bearer <token from op>"@
}

/// The `Authorization` header as text; an absent or unreadable header counts
/// as empty.
pub open spec fn auth_text(authorization: Option<&str>) -> Seq<char> {
    match authorization {
        Some(a) => a@,
        None => Seq::empty(),
    }
}

/// The one header value that authorizes a request.
pub open spec fn expected_auth(token: Seq<char>) -> Seq<char> {
    "Bearer "@ + token
}

/// Guards the paid and private endpoints. With no token configured every
/// request is refused (403); otherwise the `Authorization` header must be
/// exactly `Bearer <token>` (else 401).
pub fn require_capture_token(capture_token: &str, authorization: Option<&str>) -> (r: Result<
    (),
    ApiRejection,
>)
    ensures
        capture_token@.len() == 0 ==> (r matches Err(e) && e.status == STATUS_FORBIDDEN
            && e.body.error@ == disabled_message()),
        capture_token@.len() != 0 && auth_text(authorization) == expected_auth(capture_token@)
            ==> r is Ok,
        capture_token@.len() != 0 && auth_text(authorization) != expected_auth(capture_token@)
            ==> (r matches Err(e) && e.status == STATUS_UNAUTHORIZED && e.body.error@
            == bad_auth_message()),
{
    broadcast use vstd::string::group_string_axioms;

    if capture_token.is_empty() {
        return Err(
            ApiRejection {
                status: STATUS_FORBIDDEN,
                body: ErrorResponse {
                    error: "Capture disabled: no CAPTURE_TOKEN set. Run: op.exe read 'op://Dev/condor-eye-capture/token' to authorize.".to_string(),
                },
            },
        );
    }
    let auth = match authorization {
        Some(a) => chars_of(a),
        None => Vec::new(),
    };
    let expected = concat_chars(&chars_of("Bearer "), &chars_of(capture_token));
    if !crate::text::chars_eq(&auth, &expected) {
        return Err(
            ApiRejection {
                status: STATUS_UNAUTHORIZED,
                body: ErrorResponse {
                    error: "Invalid or missing Authorization header. Use: Authorization: Bearer <token from op>".to_string(),
                },
            },
        );
    }
    Ok(())
}

// ---------------------------------------------------------------------------
// Answers
// ---------------------------------------------------------------------------
/// The service status: running, the given version, whether an API key is
/// set, and the model.
pub fn status_response(config: &AppConfig, version: &str) -> (r: StatusResponse)
    ensures
        r.running,
        r.version@ == version@,
        r.api_key_configured == (config.api_key@.len() != 0),
        r.model == config.model,
{
    broadcast use vstd::string::group_string_axioms;

    StatusResponse {
        running: true,
        version: version.to_string(),
        api_key_configured: !config.api_key.as_str().is_empty(),
        model: config.model.clone(),
    }
}

/// The audio status answer: the snapshot's fields, moved over.
pub fn audio_status_response(s: AudioStatusSnapshot) -> (r: AudioStatusResponse)
    ensures
        r.running == s.running,
        r.project == s.project,
        r.active_taps == s.active_taps,
        r.audio_bind == s.audio_bind,
        r.audio_port == s.audio_port,
        r.audio_transport == s.audio_transport,
        r.audio_output_dir == s.audio_output_dir,
        r.whisper_url == s.whisper_url,
{
    AudioStatusResponse {
        running: s.running,
        project: s.project,
        active_taps: s.active_taps,
        audio_bind: s.audio_bind,
        audio_port: s.audio_port,
        audio_transport: s.audio_transport,
        audio_output_dir: s.audio_output_dir,
        whisper_url: s.whisper_url,
    }
}

/// The message for an unknown tap.
pub fn tap_not_found(tap_id: &str) -> (r: String)
    ensures
        r@ == "Tap not found: "@ + tap_id@,
{
    crate::text::join2("Tap not found: ", tap_id)
}

/// Where a window search answers: the first matching window's bounds, with
/// high confidence, or nothing found.
pub fn locate_response(windows: &Vec<WindowInfo>, target: &str) -> (r: LocateResponse)
    ensures
        windows@.len() > 0 ==> ({
            let w = windows@[0];
            &&& r.found
            &&& r.bounds == Some(Region { x: w.x, y: w.y, width: w.width, height: w.height })
            &&& r.confidence@ == "high"@
            &&& r.description@ == "Found window: "@ + w.title@ + " (pid "@ + dec_seq(w.pid as nat)
                + ")"@
        }),
        windows@.len() == 0 ==> ({
            &&& !r.found
            &&& r.bounds is None
            &&& r.confidence@ == "none"@
            &&& r.description@ == "No window matching '"@ + target@ + "' found"@
        }),
{
    broadcast use vstd::string::group_string_axioms;

    if windows.len() > 0 {
        let w = &windows[0];
        let mut d = concat_chars(&chars_of("Found window: "), &chars_of(w.title.as_str()));
        d = concat_chars(&d, &chars_of(" (pid "));
        push_u64_dec(&mut d, w.pid as u64);
        d = concat_chars(&d, &chars_of(")"));
        LocateResponse {
            found: true,
            bounds: Some(Region { x: w.x, y: w.y, width: w.width, height: w.height }),
            confidence: "high".to_string(),
            description: string_of(&d),
        }
    } else {
        let d = concat_chars(
            &concat_chars(&chars_of("No window matching '"), &chars_of(target)),
            &chars_of("' found"),
        );
        LocateResponse {
            found: false,
            bounds: None,
            confidence: "none".to_string(),
            description: string_of(&d),
        }
    }
}

// ---------------------------------------------------------------------------
// Capture requests
// ---------------------------------------------------------------------------
/// The prompt used when a capture asks for none.
pub open spec fn describe_prompt() -> Seq<char> {
    "Describe what you see in this screenshot. Be specific about any data, numbers, charts, or UI elements visible."@
}

/// The request's prompt, or the default description prompt.
pub fn capture_prompt(prompt: Option<String>) -> (r: String)
    ensures
        r@ == match prompt {
            Some(p) => p@,
            None => describe_prompt(),
        },
{
    broadcast use vstd::string::group_string_axioms;

    match prompt {
        Some(p) => p,
        None => "Describe what you see in this screenshot. Be specific about any data, numbers, charts, or UI elements visible.".to_string(),
    }
}

/// What a capture request asks to be done, in order: focus a window (unless
/// `no_focus`), send shortcuts, capture the region (the full screen when
/// none), and review it with the provider and prompt.
#[derive(Debug)]
pub struct CapturePlan {
    pub prompt: String,
    pub focus: Option<u64>,
    pub keys: Option<Vec<String>>,
    pub region: Option<Region>,
    pub review: ReviewProvider,
}

pub fn plan_capture(req: CaptureRequest) -> (p: CapturePlan)
    ensures
        p.prompt@ == match req.prompt {
            Some(t) => t@,
            None => describe_prompt(),
        },
        p.focus == (if req.no_focus {
            None
        } else {
            req.hwnd
        }),
        p.keys == req.keys,
        p.region == req.region,
        p.review == req.review,
{
    let focus = if req.no_focus {
        None
    } else {
        req.hwnd
    };
    CapturePlan {
        prompt: capture_prompt(req.prompt),
        focus,
        keys: req.keys,
        region: req.region,
        review: req.review,
    }
}

// ---------------------------------------------------------------------------
// Capture answers
// ---------------------------------------------------------------------------
/// The answer to a capture: the PNG in standard base64, the review's text,
/// the review's latency and the captured region.
#[derive(Debug)]
pub struct CaptureReply {
    pub image: String,
    pub description: String,
    pub latency_ms: u64,
    pub region: Region,
}

pub fn capture_reply(png: &[u8], description: String, latency_ms: u64, region: Region) -> (r:
    CaptureReply)
    ensures
        r.image@ == base64_seq(png@),
        r.description == description,
        r.latency_ms == latency_ms,
        r.region == region,
{
    CaptureReply { image: base64_encode(png), description, latency_ms, region }
}

/// The answer to a plain screenshot: the PNG in standard base64, the region
/// and the PNG's size in bytes.
#[derive(Debug)]
pub struct ScreenshotReply {
    pub image: String,
    pub region: Region,
    pub size_bytes: usize,
}

pub fn screenshot_reply(png: &[u8], region: Region) -> (r: ScreenshotReply)
    ensures
        r.image@ == base64_seq(png@),
        r.region == region,
        r.size_bytes == png@.len(),
{
    ScreenshotReply { image: base64_encode(png), region, size_bytes: png.len() }
}

} // verus!
