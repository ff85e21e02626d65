//! The command parser: raw message text in, a typed command or no match out.
//!
//! The surface is a leading `/`, shell-style word splitting, then the fixed
//! grammar `request-otp --token T`, `cluster <add|list> --token T`,
//! `join <name> --otp O` (each flag also in its one-letter form).

use vstd::prelude::*;
use vstd::string::StringExecFns;

use crate::auth::Given;

verus! {

/// The parsed command line: just its one command.
#[derive(Debug, Clone)]
pub struct Args {
    pub cmd: Command,
}

/// A typed administrative command.
#[derive(Debug, Clone)]
pub enum Command {
    Cluster { cmd: ClusterCommand, token: Given },
    RequestOTP { token: Given },
    Join { cluster: String, otp: Given },
}

/// The cluster subcommands.
#[derive(Debug, Clone, Copy, PartialEq, Eq, Structural)]
pub enum ClusterCommand {
    Add,
    List,
}

/// Mathematical image of a [`Command`].
pub enum CommandV {
    Cluster { cmd: ClusterCommand, token: Seq<char> },
    RequestOTP { token: Seq<char> },
    Join { cluster: Seq<char>, otp: Seq<char> },
}

impl View for Command {
    type V = CommandV;

    open spec fn view(&self) -> CommandV {
        match self {
            Command::Cluster { cmd, token } => CommandV::Cluster { cmd: *cmd, token: token@ },
            Command::RequestOTP { token } => CommandV::RequestOTP { token: token@ },
            Command::Join { cluster, otp } => CommandV::Join { cluster: cluster@, otp: otp@ },
        }
    }
}

/// What shell-style splitting makes of the input: its words, or nothing when
/// the input has mismatched quotes.
pub uninterp spec fn shell_split(s: Seq<char>) -> Option<Seq<Seq<char>>>;

/// Relies on shellwords::split: shell-style word splitting with single
/// quotes, double quotes and backslashes as the metacharacters; mismatched
/// quotes are the one error.
#[verifier::external_body]
fn split_words(s: &str) -> (r: Option<Vec<String>>)
    ensures
        match r {
            Some(v) => shell_split(s@) == Some(v.deep_view()),
            None => shell_split(s@) is None,
        },
{
    shellwords::split(s).ok()
}

/// Relies on str::strip_prefix with a single-character pattern: the remainder
/// after the leading character when it is there.
#[verifier::external_body]
fn strip_slash(s: &str) -> (r: Option<&str>)
    ensures
        match r {
            Some(rest) => s@.len() >= 1 && s@[0] == '/' && rest@ == s@.skip(1),
            None => !(s@.len() >= 1 && s@[0] == '/'),
        },
{
    s.strip_prefix('/')
}

/// The fixed grammar over already-split words.
pub open spec fn spec_parse_tokens(toks: Seq<Seq<char>>) -> Option<CommandV> {
    if toks.len() == 3 && toks[0] == "request-otp"@ && (toks[1] == "--token"@ || toks[1]
        == "-t"@) {
        Some(CommandV::RequestOTP { token: toks[2] })
    } else if toks.len() == 4 && toks[0] == "cluster"@ && (toks[1] == "add"@ || toks[1]
        == "list"@) && (toks[2] == "--token"@ || toks[2] == "-t"@) {
        Some(
            CommandV::Cluster {
                cmd: if toks[1] == "add"@ {
                    ClusterCommand::Add
                } else {
                    ClusterCommand::List
                },
                token: toks[3],
            },
        )
    } else if toks.len() == 4 && toks[0] == "join"@ && (toks[2] == "--otp"@ || toks[2]
        == "-o"@) {
        Some(CommandV::Join { cluster: toks[1], otp: toks[3] })
    } else {
        None
    }
}

/// Raw text to command: a leading `/`, shell-style splitting, the grammar.
/// Anything that fails any stage is no match.
pub open spec fn spec_parse_cmd(text: Seq<char>) -> Option<CommandV> {
    if text.len() >= 1 && text[0] == '/' {
        match shell_split(text.skip(1)) {
            Some(toks) => spec_parse_tokens(toks),
            None => None,
        }
    } else {
        None
    }
}

/// Is the word exactly this literal?
fn tok_is(tok: &String, lit: &str) -> (r: bool)
    ensures
        r == (tok@ == lit@),
{
    let s: String = lit.to_owned();
    s == *tok
}

/// Parse already-split words against the fixed grammar.
pub fn parse_tokens(toks: &Vec<String>) -> (r: Option<Command>)
    ensures
        match r {
            Some(c) => spec_parse_tokens(toks.deep_view()) == Some(c@),
            None => spec_parse_tokens(toks.deep_view()) is None,
        },
{
    let ghost dv = toks.deep_view();
    proof {
        assert(dv.len() == toks@.len());
        assert forall|i: int| 0 <= i < toks@.len() implies #[trigger] dv[i] == toks@[i]@ by {}
    }
    let n = toks.len();
    if n == 3 && tok_is(&toks[0], "request-otp") && (tok_is(&toks[1], "--token") || tok_is(
        &toks[1],
        "-t",
    )) {
        Some(Command::RequestOTP { token: Given(toks[2].clone()) })
    } else if n == 4 && tok_is(&toks[0], "cluster") && (tok_is(&toks[1], "add") || tok_is(
        &toks[1],
        "list",
    )) && (tok_is(&toks[2], "--token") || tok_is(&toks[2], "-t")) {
        let cmd = if tok_is(&toks[1], "add") {
            ClusterCommand::Add
        } else {
            ClusterCommand::List
        };
        Some(Command::Cluster { cmd, token: Given(toks[3].clone()) })
    } else if n == 4 && tok_is(&toks[0], "join") && (tok_is(&toks[2], "--otp") || tok_is(
        &toks[2],
        "-o",
    )) {
        Some(Command::Join { cluster: toks[1].clone(), otp: Given(toks[3].clone()) })
    } else {
        None
    }
}

/// Parse raw message text. Yields the typed command, or nothing for text
/// that is not a well-formed command (a silent drop, never an error).
pub fn parse_cmd(text: &str) -> (r: Option<Command>)
    ensures
        match r {
            Some(c) => spec_parse_cmd(text@) == Some(c@),
            None => spec_parse_cmd(text@) is None,
        },
{
    match strip_slash(text) {
        None => None,
        Some(rest) => match split_words(rest) {
            None => None,
            Some(toks) => parse_tokens(&toks),
        },
    }
}

} // verus!
