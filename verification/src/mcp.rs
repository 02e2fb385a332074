//! The MCP bridge: requests that run the marketplace CLI, and the answers
//! they get.
//!
//! Reading requests, spawning processes and looking at the file system is
//! the caller's part.

use vstd::prelude::*;

use crate::error::{path_debug, path_debug_text};
use crate::paths::{join_path, join_spec, parent_path, parent_spec};
use crate::text::{concat, strings_view, trim, trim_spec};

verus! {

/// A request from the client: the arguments to run the CLI with.
#[derive(Debug, Clone)]
pub struct ServerRequest {
    pub args: Vec<String>,
}

/// The answer to a request: the CLI's exit status and output.
#[derive(Debug, Clone)]
pub struct ServerResponse {
    pub status: i32,
    pub stdout: String,
    pub stderr: String,
}

/// Name of the marketplace CLI binary.
pub const CLI_BIN: &'static str = "gemini-marketplace";

/// Name of the MCP server binary.
pub const SERVER_BIN: &'static str = "marketplace-mcp-server";

/// What the caller found while looking for a binary.
#[derive(Debug, Clone)]
pub struct BinaryProbe {
    /// The path named by the environment variable, and whether it exists.
    pub env_candidate: Option<(String, bool)>,
    /// The binary next to the running executable, and whether it exists.
    pub sibling: Option<(String, bool)>,
    /// The first file of that name along `PATH`.
    pub in_path: Option<String>,
}

/// The path a binary is run from: an explicit override; else the
/// environment's path when it exists; else the sibling of the running
/// executable when it exists; else the first match along `PATH`; else the
/// bare name.
pub open spec fn choose_binary_spec(override_path: Option<Seq<char>>, probe: BinaryProbe, bin: Seq<char>) -> Seq<char> {
    match override_path {
        Some(p) => p,
        None => match probe.env_candidate {
            Some((p, true)) => p@,
            _ => match probe.sibling {
                Some((p, true)) => p@,
                _ => match probe.in_path {
                    Some(p) => p@,
                    None => bin,
                },
            },
        },
    }
}

/// The path a binary named `bin` is run from.
pub fn choose_binary(override_path: Option<String>, probe: &BinaryProbe, bin: &str) -> (r: String)
    ensures
        r@ == choose_binary_spec(crate::locator::opt_string_view(override_path), *probe, bin@),
{
    if let Some(p) = override_path {
        return p;
    }
    if let Some((p, true)) = &probe.env_candidate {
        return p.clone();
    }
    if let Some((p, true)) = &probe.sibling {
        return p.clone();
    }
    match &probe.in_path {
        Some(p) => p.clone(),
        None => String::from_str(bin),
    }
}

/// The path the marketplace CLI is run from.
pub fn resolve_cli_path(override_path: Option<String>, probe: &BinaryProbe) -> (r: String)
    ensures
        r@ == choose_binary_spec(crate::locator::opt_string_view(override_path), *probe, CLI_BIN@),
{
    choose_binary(override_path, probe, CLI_BIN)
}

/// The path the MCP server is run from.
pub fn resolve_server_path(override_path: Option<String>, probe: &BinaryProbe) -> (r: String)
    ensures
        r@ == choose_binary_spec(crate::locator::opt_string_view(override_path), *probe, SERVER_BIN@),
{
    choose_binary(override_path, probe, SERVER_BIN)
}

/// The binary `bin` next to the executable at `current_exe`, if it has a directory.
pub fn sibling_path(current_exe: &str, bin: &str) -> (r: Option<String>)
    ensures
        match parent_spec(current_exe@) {
            Some(dir) => r matches Some(p) && p@ == join_spec(dir, bin@),
            None => r is None,
        },
{
    match parent_path(current_exe) {
        Some(dir) => Some(join_path(dir.as_str(), bin)),
        None => None,
    }
}

/// The places a binary is looked for along `PATH`: each directory joined
/// with the binary's name and the platform's executable suffix.
pub fn path_candidates(dirs: &Vec<String>, bin: &str, exe_suffix: &str) -> (r: Vec<String>)
    ensures
        strings_view(r@) == strings_view(dirs@).map_values(|d: Seq<char>| join_spec(d, bin@ + exe_suffix@)),
{
    let name = concat(bin, exe_suffix);
    let mut out: Vec<String> = Vec::new();
    let mut i: usize = 0;
    while i < dirs.len()
        invariant
            0 <= i <= dirs@.len(),
            name@ == bin@ + exe_suffix@,
            strings_view(out@) == strings_view(dirs@.subrange(0, i as int)).map_values(
                |d: Seq<char>| join_spec(d, bin@ + exe_suffix@),
            ),
        decreases dirs@.len() - i,
    {
        let ghost before = out@;
        let c = join_path(dirs[i].as_str(), name.as_str());
        let ghost cv = c@;
        out.push(c);
        proof {
            assert(strings_view(out@) =~= strings_view(before).push(cv));
            assert(strings_view(dirs@.subrange(0, i + 1)) =~= strings_view(dirs@.subrange(0, i as int)).push(
                dirs@[i as int]@,
            ));
            assert(strings_view(out@) =~= strings_view(dirs@.subrange(0, i + 1)).map_values(
                |d: Seq<char>| join_spec(d, bin@ + exe_suffix@),
            ));
        }
        i = i + 1;
    }
    proof {
        assert(dirs@.subrange(0, dirs@.len() as int) =~= dirs@);
    }
    out
}

/// The text `String::from_utf8_lossy` makes of the bytes.
pub uninterp spec fn utf8_lossy(bytes: Seq<u8>) -> Seq<char>;

/// `String::from_utf8_lossy(bytes).to_string()`: the bytes decoded as UTF-8,
/// invalid sequences replaced, claimed to be what `utf8_lossy` names.
#[verifier::external_body]
fn lossy_text(bytes: &[u8]) -> (r: String)
    ensures
        r@ == utf8_lossy(bytes@),
{
    String::from_utf8_lossy(bytes).to_string()
}

/// The answer for a CLI run that ended: its exit code (`-1` when it was
/// killed by a signal) and its output decoded as UTF-8.
pub fn reply_for_run(code: Option<i32>, stdout: &Vec<u8>, stderr: &Vec<u8>) -> (r: ServerResponse)
    ensures
        r.status == (match code {
            Some(c) => c,
            None => -1i32,
        }),
        r.stdout@ == utf8_lossy(stdout@),
        r.stderr@ == utf8_lossy(stderr@),
{
    ServerResponse {
        status: match code {
            Some(c) => c,
            None => -1,
        },
        stdout: lossy_text(stdout.as_slice()),
        stderr: lossy_text(stderr.as_slice()),
    }
}

/// The `Debug` text of a list of strings.
pub uninterp spec fn strings_debug_text(items: Seq<Seq<char>>) -> Seq<char>;

/// `format!("{:?}", items)`: the bracketed, quoted and escaped list, claimed
/// to be what `strings_debug_text` names.
#[verifier::external_body]
fn strings_debug(items: &Vec<String>) -> (r: String)
    ensures
        r@ == strings_debug_text(strings_view(items@)),
{
    format!("{:?}", items)
}

/// The message for a CLI that could not be started.
pub open spec fn exec_failure_message(cli_path: Seq<char>, args: Seq<Seq<char>>) -> Seq<char> {
    "failed to exec "@ + path_debug_text(cli_path) + " with args "@ + strings_debug_text(args)
}

/// The answer when the CLI could not be started.
pub fn reply_for_exec_failure(cli_path: &str, args: &Vec<String>) -> (r: ServerResponse)
    ensures
        r.status == -1,
        r.stdout@.len() == 0,
        r.stderr@ == exec_failure_message(cli_path@, strings_view(args@)),
{
    let mut m = String::from_str("failed to exec ");
    let p = path_debug(cli_path);
    m.append(p.as_str());
    m.append(" with args ");
    let a = strings_debug(args);
    m.append(a.as_str());
    ServerResponse { status: -1, stdout: String::new(), stderr: m }
}

/// The answer to a request that could not be parsed (the parser said `detail`).
pub fn reply_for_parse_failure(detail: &str) -> (r: ServerResponse)
    ensures
        r.status == -1,
        r.stdout@.len() == 0,
        r.stderr@ == "failed to parse request: "@ + detail@,
{
    let mut m = String::from_str("failed to parse request: ");
    m.append(detail);
    ServerResponse { status: -1, stdout: String::new(), stderr: m }
}

/// The server's handling of one request read from its input: the arguments
/// to run the CLI with, or, for input that is not a request, the answer at once.
pub fn plan_request(parsed: Result<ServerRequest, String>) -> (r: Result<Vec<String>, ServerResponse>)
    ensures
        match parsed {
            Ok(req) => r == Ok::<Vec<String>, ServerResponse>(req.args),
            Err(detail) => r matches Err(resp) && resp.status == -1 && resp.stdout@.len() == 0 && resp.stderr@
                == "failed to parse request: "@ + detail@,
        },
{
    match parsed {
        Ok(req) => Ok(req.args),
        Err(detail) => Err(reply_for_parse_failure(detail.as_str())),
    }
}

/// The answer line the harness reads back, trimmed; an error when the
/// server said nothing.
pub fn harness_response_text(line: &str) -> (r: Result<String, String>)
    ensures
        match r {
            Ok(t) => trim_spec(line@).len() > 0 && t@ == trim_spec(line@),
            Err(m) => trim_spec(line@).len() == 0 && m@ == "server exited without response"@,
        },
{
    let t = trim(line);
    if t.as_str().is_empty() {
        Err(String::from_str("server exited without response"))
    } else {
        Ok(t)
    }
}

/// The harness's exit code: the answer's status when the server exited
/// successfully, otherwise the server's own exit code (1 when it has none).
pub fn harness_exit_code(server_succeeded: bool, server_code: Option<i32>, response_status: i32) -> (r: i32)
    ensures
        r == (if server_succeeded {
            response_status
        } else {
            match server_code {
                Some(c) => c,
                None => 1,
            }
        }),
{
    if server_succeeded {
        response_status
    } else {
        match server_code {
            Some(c) => c,
            None => 1,
        }
    }
}

} // verus!
