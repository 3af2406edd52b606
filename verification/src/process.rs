//! What a run of a tool comes to. Starting the process, feeding it and
//! waiting for it are the caller's part; what counts as a failure is decided
//! here.

use crate::error::PDF2ImageError;
use vstd::prelude::*;

verus! {

/// What came of running one command: the bytes that the tool wrote to its
/// standard output, or the reason why it could not be run to its end.
pub type ProcessOutput = Result<Vec<u8>, PDF2ImageError>;

/// How far one run of a tool got.
#[derive(Debug, Clone, PartialEq, Eq)]
pub enum ProcessResult {
    /// The tool was not found or could not be started.
    NotSpawned,
    /// The document could not be written to the standard input of the tool.
    InputNotWritten,
    /// The end of the process could not be waited for, or its output not
    /// read.
    OutputNotRead,
    /// The process ended.
    Exited {
        /// Everything that the tool wrote to its standard output.
        stdout: Vec<u8>,
        /// Whether the tool reported success.
        success: bool,
    },
}

/// The output of a run, or its failure.
///
/// A process that ended has an output, however it ended: a tool that failed
/// wrote little or nothing, and what reads the output rejects that.
pub open spec fn output_of(result: ProcessResult) -> ProcessOutput {
    match result {
        ProcessResult::NotSpawned => Err(PDF2ImageError::SpawnFailure),
        ProcessResult::InputNotWritten => Err(PDF2ImageError::IoFailure),
        ProcessResult::OutputNotRead => Err(PDF2ImageError::IoFailure),
        ProcessResult::Exited { stdout, success } => Ok(stdout),
    }
}

/// Tells what a run of a tool comes to.
pub fn process_output(result: ProcessResult) -> (output: ProcessOutput)
    ensures
        output == output_of(result),
{
    match result {
        ProcessResult::NotSpawned => Err(PDF2ImageError::SpawnFailure),
        ProcessResult::InputNotWritten => Err(PDF2ImageError::IoFailure),
        ProcessResult::OutputNotRead => Err(PDF2ImageError::IoFailure),
        ProcessResult::Exited { stdout, success: _ } => Ok(stdout),
    }
}

} // verus!
