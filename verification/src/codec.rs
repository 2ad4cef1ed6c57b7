//! Encodings the service speaks: base64 for images, JSON for replies.
use vstd::prelude::*;

use base64::Engine;

verus! {

/// The standard base64 alphabet: `A`-`Z`, `a`-`z`, `0`-`9`, `+`, `/`.
pub open spec fn b64_digit(v: int) -> char {
    if v < 26 {
        (65 + v) as char
    } else if v < 52 {
        (97 + v - 26) as char
    } else if v < 62 {
        (48 + v - 52) as char
    } else if v == 62 {
        '+'
    } else {
        '/'
    }
}

/// Standard base64 with `=` padding (RFC 4648): every three bytes become
/// four digits; a last group of one or two bytes is padded to four.
pub open spec fn base64_seq(b: Seq<u8>) -> Seq<char>
    decreases b.len(),
{
    if b.len() == 0 {
        Seq::empty()
    } else if b.len() == 1 {
        let n = b[0] as int;
        seq![b64_digit(n / 4), b64_digit((n % 4) * 16), '=', '=']
    } else if b.len() == 2 {
        let n = b[0] as int * 256 + b[1] as int;
        seq![b64_digit(n / 1024), b64_digit((n / 16) % 64), b64_digit((n % 16) * 4), '=']
    } else {
        let n = b[0] as int * 65536 + b[1] as int * 256 + b[2] as int;
        seq![
            b64_digit(n / 262144),
            b64_digit((n / 4096) % 64),
            b64_digit((n / 64) % 64),
            b64_digit(n % 64),
        ] + base64_seq(b.skip(3))
    }
}

/// `base64::engine::general_purpose::STANDARD.encode`: the standard alphabet
/// with padding, as the crate documents that engine.
#[verifier::external_body]
pub(crate) fn base64_encode(bytes: &[u8]) -> (r: String)
    ensures
        r@ == base64_seq(bytes@),
{
    base64::engine::general_purpose::STANDARD.encode(bytes)
}

/// The string stored under `key` in the JSON object that `text` holds;
/// none when `text` is not JSON, not an object, lacks the key, or holds
/// something other than a string there.
pub uninterp spec fn json_field_string(text: Seq<char>, key: Seq<char>) -> Option<Seq<char>>;

/// `serde_json::from_str` into a `Value`, then `Value::get` of the key and a
/// string match. Its result is named `json_field_string`.
#[verifier::external_body]
pub(crate) fn json_field_str(text: &str, key: &str) -> (r: Option<String>)
    ensures
        match r {
            Some(s) => json_field_string(text@, key@) == Some(s@),
            None => json_field_string(text@, key@) is None,
        },
{
    let v: serde_json::Value = match serde_json::from_str(text) {
        Ok(v) => v,
        Err(_) => return None,
    };
    match v.get(key) {
        Some(serde_json::Value::String(s)) => Some(s.clone()),
        _ => None,
    }
}

/// What `serde_json` makes of `text` as a reply body: its message when the
/// text is not JSON; otherwise the string at `content[0].text`, if there is
/// one.
pub uninterp spec fn json_content_text(text: Seq<char>) -> Result<Option<Seq<char>>, Seq<char>>;

pub open spec fn content_text_view(r: Result<Option<String>, String>) -> Result<
    Option<Seq<char>>,
    Seq<char>,
> {
    match r {
        Ok(Some(s)) => Ok(Some(s@)),
        Ok(None) => Ok(None),
        Err(e) => Err(e@),
    }
}

/// `serde_json::from_str` into a `Value`, then indexing `["content"][0]["text"]`
/// and `Value::as_str`; the decoder's error as text. Its result is named
/// `json_content_text`.
#[verifier::external_body]
pub(crate) fn json_first_content_text(text: &str) -> (r: Result<Option<String>, String>)
    ensures
        content_text_view(r) == json_content_text(text@),
{
    match serde_json::from_str::<serde_json::Value>(text) {
        Ok(v) => Ok(v["content"][0]["text"].as_str().map(|s| s.to_string())),
        Err(e) => Err(e.to_string()),
    }
}

} // verus!
