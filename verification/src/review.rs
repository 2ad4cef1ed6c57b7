//! Optional review of a screenshot by a local command-line tool.
use vstd::prelude::*;

use crate::text::{chars_of, concat_chars, push_u64_dec, string_of};

verus! {

#[derive(Debug, Clone, Copy, PartialEq, Eq, Structural)]
pub enum ReviewProvider {
    Claude,
    Codex,
    Off,
}

impl Default for ReviewProvider {
    fn default() -> (p: ReviewProvider)
        ensures
            p == ReviewProvider::Off,
    {
        ReviewProvider::Off
    }
}

/// A program invocation: arguments and, for some tools, one environment
/// variable.
#[derive(Debug, Clone)]
pub struct CliCommand {
    pub program: String,
    pub args: Vec<String>,
    pub env: Option<(String, String)>,
}

pub open spec fn args_view(args: Seq<String>) -> Seq<Seq<char>> {
    args.map_values(|a: String| a@)
}

/// How a provider's command-line tool (`program`) is asked to review the
/// image: one tool gets the prompt with tools disabled and the image path in
/// `CLAUDE_IMAGE`; the other gets the prompt followed by the image path.
/// `Off` runs no tool.
pub fn cli_review_command(
    provider: ReviewProvider,
    program: String,
    prompt: &str,
    img_path: &str,
) -> (c: Option<CliCommand>)
    ensures
        provider == ReviewProvider::Off ==> c is None,
        provider == ReviewProvider::Claude ==> (c matches Some(cmd) && cmd.program == program
            && args_view(cmd.args@) == seq!["-p"@, prompt@, "--allowedTools"@, "none"@] && (
        cmd.env matches Some(e) && e.0@ == "CLAUDE_IMAGE"@ && e.1@ == img_path@)),
        provider == ReviewProvider::Codex ==> (c matches Some(cmd) && cmd.program == program
            && args_view(cmd.args@) == seq!["-q"@, prompt@ + "\n\nImage: "@ + img_path@]
            && cmd.env is None),
{
    broadcast use vstd::string::group_string_axioms;

    let mut args: Vec<String> = Vec::new();
    match provider {
        ReviewProvider::Off => Option::None,
        ReviewProvider::Claude => {
            args.push("-p".to_string());
            args.push(prompt.to_string());
            args.push("--allowedTools".to_string());
            args.push("none".to_string());
            assert(args_view(args@) =~= seq!["-p"@, prompt@, "--allowedTools"@, "none"@]);
            Some(
                CliCommand {
                    program,
                    args,
                    env: Some(("CLAUDE_IMAGE".to_string(), img_path.to_string())),
                },
            )
        },
        ReviewProvider::Codex => {
            let joined = concat_chars(
                &concat_chars(&chars_of(prompt), &chars_of("\n\nImage: ")),
                &chars_of(img_path),
            );
            args.push("-q".to_string());
            args.push(string_of(&joined));
            assert(args_view(args@) =~= seq!["-q"@, prompt@ + "\n\nImage: "@ + img_path@]);
            Some(CliCommand { program, args, env: Option::None })
        },
    }
}

/// What a finished review run answers: the tool's output when it exited
/// successfully, otherwise `"<tool> failed: <stderr>"`.
pub fn review_result(tool: &str, success: bool, stdout: &str, stderr: &str) -> (r: Result<
    String,
    String,
>)
    ensures
        success ==> (r matches Ok(o) && o@ == stdout@),
        !success ==> (r matches Err(e) && e@ == tool@ + " failed: "@ + stderr@),
{
    broadcast use vstd::string::group_string_axioms;

    if success {
        Ok(stdout.to_string())
    } else {
        let v = concat_chars(&concat_chars(&chars_of(tool), &chars_of(" failed: ")), &chars_of(stderr));
        Err(string_of(&v))
    }
}

/// Name of the temporary image handed to the tool.
pub fn review_image_name(millis: u64) -> (n: String)
    ensures
        n@ == "capture-"@ + crate::text::dec_seq(millis as nat) + ".png"@,
{
    broadcast use vstd::string::group_string_axioms;

    let mut v = chars_of("capture-");
    push_u64_dec(&mut v, millis);
    let r = concat_chars(&v, &chars_of(".png"));
    string_of(&r)
}

} // verus!
