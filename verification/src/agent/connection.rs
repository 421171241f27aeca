//! Session data and errors of a connection to the coding-agent CLI.
use vstd::prelude::*;

use crate::text::{chars_of, owned, string_of, trim, trim_chars};

verus! {

/// `std::io::Error`, carried by connection errors.
#[verifier::external_type_specification]
#[verifier::external_body]
pub struct ExIoError(std::io::Error);

/// `serde_json::Error`, carried by connection errors.
#[verifier::external_type_specification]
#[verifier::external_body]
pub struct ExJsonError(serde_json::Error);

/// Errors of a connection to the CLI.
#[derive(Debug)]
pub enum ConnectionError {
    /// Reading from or writing to the CLI failed.
    Io(std::io::Error),
    /// A line could not be encoded or decoded as JSON.
    Json(serde_json::Error),
    /// The CLI has gone.
    ConnectionClosed,
    /// The CLI could not be started.
    SpawnError(String),
}

/// The text of an I/O error (its `Display`).
#[verifier::external_body]
fn io_error_text(e: &std::io::Error) -> String {
    e.to_string()
}

/// The text of a JSON error (its `Display`).
#[verifier::external_body]
fn json_error_text(e: &serde_json::Error) -> String {
    e.to_string()
}

impl ConnectionError {
    /// The error's message: `IO error: ...`, `JSON error: ...`, `Connection closed`, or
    /// `Spawn error: ...`.
    pub fn message(&self) -> (m: String)
        ensures
            *self is Io ==> "IO error: "@.is_prefix_of(m@),
            *self is Json ==> "JSON error: "@.is_prefix_of(m@),
            *self is ConnectionClosed ==> m@ == "Connection closed"@,
            self matches ConnectionError::SpawnError(s) ==> m@ == "Spawn error: "@ + s@,
    {
        match self {
            ConnectionError::Io(e) => {
                let mut m = owned("IO error: ");
                let t = io_error_text(e);
                m.append(t.as_str());
                m
            },
            ConnectionError::Json(e) => {
                let mut m = owned("JSON error: ");
                let t = json_error_text(e);
                m.append(t.as_str());
                m
            },
            ConnectionError::ConnectionClosed => owned("Connection closed"),
            ConnectionError::SpawnError(s) => {
                let mut m = owned("Spawn error: ");
                m.append(s.as_str());
                m
            },
        }
    }
}

impl From<std::io::Error> for ConnectionError {
    fn from(e: std::io::Error) -> (r: ConnectionError) {
        ConnectionError::Io(e)
    }
}

impl vstd::std_specs::convert::FromSpecImpl<std::io::Error> for ConnectionError {
    open spec fn obeys_from_spec() -> bool {
        true
    }

    open spec fn from_spec(v: std::io::Error) -> ConnectionError {
        ConnectionError::Io(v)
    }
}

impl From<serde_json::Error> for ConnectionError {
    fn from(e: serde_json::Error) -> (r: ConnectionError) {
        ConnectionError::Json(e)
    }
}

impl vstd::std_specs::convert::FromSpecImpl<serde_json::Error> for ConnectionError {
    open spec fn obeys_from_spec() -> bool {
        true
    }

    open spec fn from_spec(v: serde_json::Error) -> ConnectionError {
        ConnectionError::Json(v)
    }
}

/// The result of a connection operation.
pub type Result<T> = std::result::Result<T, ConnectionError>;

/// What the CLI reports when a session starts.
#[derive(Debug, Clone)]
pub struct SessionInfo {
    pub session_id: String,
    pub model: String,
    pub tools: Vec<String>,
}

/// The arguments that start the CLI in stream-json mode, followed by `extra`.
pub open spec fn cli_args_of(extra: Seq<&'static str>) -> Seq<Seq<char>> {
    seq!["--print"@, "--input-format"@, "stream-json"@, "--output-format"@, "stream-json"@, "--verbose"@]
        + extra.map_values(|a: &'static str| a@)
}

/// The arguments that start the CLI in stream-json mode, with `extra` (such as a permission
/// flag) after them.
pub fn cli_args(extra: &[&'static str]) -> (args: Vec<&'static str>)
    ensures
        args@.map_values(|a: &'static str| a@) == cli_args_of(extra@),
{
    let mut args: Vec<&'static str> = Vec::new();
    args.push("--print");
    args.push("--input-format");
    args.push("stream-json");
    args.push("--output-format");
    args.push("stream-json");
    args.push("--verbose");
    let ghost base = args@;
    let mut i: usize = 0;
    while i < extra.len()
        invariant
            i <= extra@.len(),
            args@ == base + extra@.take(i as int),
        decreases extra.len() - i,
    {
        args.push(extra[i]);
        i += 1;
        assert(args@ =~= base + extra@.take(i as int));
    }
    assert(extra@.take(extra@.len() as int) =~= extra@);
    proof {
        reveal_strlit("--print");
        reveal_strlit("--input-format");
        reveal_strlit("stream-json");
        reveal_strlit("--output-format");
        reveal_strlit("--verbose");
    }
    assert(args@.map_values(|a: &'static str| a@) =~= cli_args_of(extra@));
    args
}

/// What the reader makes of a line from the CLI: a blank line is skipped, any other is
/// parsed without its surrounding white space.
pub fn line_to_parse(line: &str) -> (r: Option<String>)
    ensures
        trim(line@).len() == 0 ==> r is None,
        trim(line@).len() > 0 ==> (r matches Some(t) && t@ == trim(line@)),
{
    let chars = chars_of(line);
    let t = trim_chars(chars.as_slice());
    if t.len() == 0 {
        None
    } else {
        Some(string_of(t.as_slice()))
    }
}

} // verus!
