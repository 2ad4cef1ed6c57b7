//! Sharing the last free-form capture: to a Discord channel through the
//! local bridge, or to a coordination agent as a proposed task.
use vstd::prelude::*;

use crate::config::AppConfig;
use crate::text::{
    byte_prefix, chars_of, concat_chars, dec_seq, prefix_splits_char, push_u64_dec, string_of,
    utf8_prefix,
};

verus! {

/// The last free-form capture: the model's description and the image.
#[derive(Debug, Clone)]
pub struct LastCapture {
    pub description: String,
    pub image_b64: String,
}

/// A post for the Discord bridge.
#[derive(Debug)]
pub struct DiscordPost {
    pub url: String,
    pub channel: String,
    pub message: String,
    pub attachment: String,
    pub filename: String,
}

/// Longest description, in bytes, put in a Discord message.
pub const DISCORD_DESCRIPTION_BYTES: usize = 1900;

/// Longest description, in bytes, put in a task summary.
pub const SUMMARY_DESCRIPTION_BYTES: usize = 200;

/// The post sharing the last capture: to `#fleet` unless a channel is given,
/// through the bridge at `http://localhost:8770` unless one is configured,
/// with a titled message holding the first 1900 bytes of the description.
pub fn discord_post(channel: Option<String>, bridge_url: Option<String>, last: Option<&LastCapture>) -> (r:
    Result<DiscordPost, String>)
    requires
        last matches Some(c) ==> !prefix_splits_char(c.description@, 1900),
    ensures
        match last {
            None => r matches Err(e) && e@ == "No capture to share"@,
            Some(c) => r matches Ok(p) && p.channel@ == (match channel {
                Some(ch) => ch@,
                None => "fleet"@,
            }) && p.url@ == (match bridge_url {
                Some(b) => b@,
                None => "http://localhost:8770"@,
            }) + "/discord/post"@ && p.message@ == "**Condor Eye Capture**\n"@ + utf8_prefix(
                c.description@,
                1900,
            ) && p.attachment@ == c.image_b64@ && p.filename@ == "capture.png"@,
        },
{
    broadcast use vstd::string::group_string_axioms;

    let c = match last {
        Some(c) => c,
        None => return Err("No capture to share".to_string()),
    };
    let channel = match channel {
        Some(ch) => ch,
        None => "fleet".to_string(),
    };
    let bridge = match bridge_url {
        Some(b) => b,
        None => "http://localhost:8770".to_string(),
    };
    let url = concat_chars(&chars_of(bridge.as_str()), &chars_of("/discord/post"));
    let head = byte_prefix(c.description.as_str(), DISCORD_DESCRIPTION_BYTES);
    let message = concat_chars(&chars_of("**Condor Eye Capture**\n"), &chars_of(head));
    Ok(
        DiscordPost {
            url: string_of(&url),
            channel,
            message: string_of(&message),
            attachment: c.image_b64.clone(),
            filename: "capture.png".to_string(),
        },
    )
}

/// What a successful Discord share answers.
pub fn discord_sent(channel: &str) -> (r: String)
    ensures
        r@ == "Sent to #"@ + channel@,
{
    crate::text::join2("Sent to #", channel)
}

/// A task proposed to a coordination agent.
#[derive(Debug)]
pub struct CoordTask {
    pub url: String,
    pub authorization: String,
    pub id: String,
    pub summary: String,
    pub context: String,
    pub to_agent: String,
    pub tags: Vec<String>,
}

pub open spec fn strings_view(v: Seq<String>) -> Seq<Seq<char>> {
    v.map_values(|s: String| s@)
}

/// The task sharing the last capture with an agent, made at `now_secs`
/// (Unix seconds). Sharing needs a coordination token, then a capture.
pub fn coord_task(config: &AppConfig, agent_id: &str, last: Option<&LastCapture>, now_secs: u64) -> (r:
    Result<CoordTask, String>)
    requires
        last matches Some(c) ==> !prefix_splits_char(c.description@, 200),
    ensures
        config.coord_api_token@.len() == 0 ==> (r matches Err(e) && e@
            == "COORD_API_TOKEN not configured"@),
        config.coord_api_token@.len() != 0 && last is None ==> (r matches Err(e) && e@
            == "No capture to share"@),
        config.coord_api_token@.len() != 0 && last is Some ==> ({
            let c = last->0;
            r matches Ok(t) && t.url@ == config.coord_api_url@ + "/tasks"@ && t.authorization@
                == "Bearer "@ + config.coord_api_token@ && t.id@ == "ce-"@ + dec_seq(
                now_secs as nat,
            ) && t.summary@ == "[Condor Eye] "@ + utf8_prefix(c.description@, 200) && t.context
                == c.description && t.to_agent@ == agent_id@ && strings_view(t.tags@) == seq![
                "condor-eye"@,
                "capture"@,
            ]
        }),
{
    broadcast use vstd::string::group_string_axioms;

    if config.coord_api_token.as_str().is_empty() {
        return Err("COORD_API_TOKEN not configured".to_string());
    }
    let c = match last {
        Some(c) => c,
        None => return Err("No capture to share".to_string()),
    };
    let url = concat_chars(&chars_of(config.coord_api_url.as_str()), &chars_of("/tasks"));
    let auth = concat_chars(&chars_of("Bearer "), &chars_of(config.coord_api_token.as_str()));
    let mut id = chars_of("ce-");
    push_u64_dec(&mut id, now_secs);
    let head = byte_prefix(c.description.as_str(), SUMMARY_DESCRIPTION_BYTES);
    let summary = concat_chars(&chars_of("[Condor Eye] "), &chars_of(head));
    let mut tags: Vec<String> = Vec::new();
    tags.push("condor-eye".to_string());
    tags.push("capture".to_string());
    assert(strings_view(tags@) =~= seq!["condor-eye"@, "capture"@]);
    Ok(
        CoordTask {
            url: string_of(&url),
            authorization: string_of(&auth),
            id: string_of(&id),
            summary: string_of(&summary),
            context: c.description.clone(),
            to_agent: agent_id.to_string(),
            tags,
        },
    )
}

/// What a successful task share answers.
pub fn coord_sent(agent_id: &str) -> (r: String)
    ensures
        r@ == "Sent to "@ + agent_id@,
{
    crate::text::join2("Sent to ", agent_id)
}

} // verus!
