//! Runs of the external tool.
use vstd::prelude::*;
use vstd::string::*;
use crate::error::{error, ErrorKind, ErrorView, MatError};
use crate::text;

verus! {

/// What a run gave.
#[derive(Debug, PartialEq, Eq)]
pub struct RunOutput {
    pub stdout: String,
    pub stderr: String,
    /// The exit code, where it is known.
    pub code: Option<i32>,
}

impl RunOutput {
    /// Whether the run went well: its exit code is known and zero.
    pub fn success(&self) -> (r: bool)
        ensures
            r == (self.code == Some(0i32)),
    {
        match self.code {
            Some(c) => c == 0,
            None => false,
        }
    }
}

/// The arguments of a run: those given, then where the tool keeps its state.
pub fn run_arguments(args: Vec<String>, storage_dir: &str) -> (r: Vec<String>)
    ensures
        text::texts(r@) == text::texts(args@).push("--storage-directory"@).push(storage_dir@),
{
    let ghost given = text::texts(args@);
    let mut r = args;
    r.push("--storage-directory".to_owned());
    r.push(storage_dir.to_owned());
    assert(text::texts(r@) =~= given.push("--storage-directory"@).push(storage_dir@));
    r
}

/// Why a run did not start.
#[derive(Debug, Clone, Copy, PartialEq, Eq, Structural)]
pub enum SpawnFailure {
    NotFound,
    NotExecutable,
    Other,
}

/// The failure of a run that did not start.
pub open spec fn spawn_failure(why: SpawnFailure, bin: Seq<char>, detail: Seq<char>) -> ErrorView {
    match why {
        SpawnFailure::NotFound => error(
            ErrorKind::ChildNotFound,
            "chip-tool binary not found ("@ + text::quoted_text(bin)
                + "); set MAT_CHIP_TOOL_BIN or add it to PATH"@,
        ),
        SpawnFailure::NotExecutable => error(
            ErrorKind::ChildNotFound,
            "chip-tool binary not executable ("@ + text::quoted_text(bin) + "): "@ + detail,
        ),
        SpawnFailure::Other => error(
            ErrorKind::ChildFailed,
            "failed to spawn chip-tool: "@ + detail,
        ),
    }
}

/// The failure of a run that did not start.
pub fn spawn_error(why: SpawnFailure, bin: &str, detail: &str) -> (e: MatError)
    ensures
        e@ == spawn_failure(why, bin@, detail@),
{
    match why {
        SpawnFailure::NotFound => MatError::new(
            ErrorKind::ChildNotFound,
            "chip-tool binary not found (".to_owned().concat(&text::quote(bin)).concat(
                "); set MAT_CHIP_TOOL_BIN or add it to PATH",
            ),
        ),
        SpawnFailure::NotExecutable => MatError::new(
            ErrorKind::ChildNotFound,
            "chip-tool binary not executable (".to_owned().concat(&text::quote(bin)).concat("): ").concat(
                detail,
            ),
        ),
        SpawnFailure::Other => MatError::new(
            ErrorKind::ChildFailed,
            "failed to spawn chip-tool: ".to_owned().concat(detail),
        ),
    }
}

/// A tool that is not there, or cannot be run, was not found; any other failure
/// to start it is its own.
pub proof fn law_missing_tool_is_told_apart(why: SpawnFailure, bin: Seq<char>, detail: Seq<char>)
    ensures
        spawn_failure(why, bin, detail).kind == ErrorKind::ChildNotFound <==> why is NotFound || why
            is NotExecutable,
        spawn_failure(why, bin, detail).kind == ErrorKind::ChildFailed <==> why is Other,
{
}

} // verus!
