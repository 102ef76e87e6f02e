//! The error kinds of the pipeline and the analyzer.
//!
//! No kind is locally recovered: every error aborts the enclosing operation
//! (a stage, or the whole analysis) and carries enough context to diagnose
//! the failure (the stage name, or the line number and raw line content).

use vstd::prelude::*;

verus! {

/// An error raised by the pipeline or the analyzer.
#[derive(Debug)]
pub enum PipelineError {
    /// A filesystem open, read or write failed.
    Io { detail: String },
    /// The network fetch of the reference database failed.
    Network { detail: String },
    /// An external tool exited with non-zero status or could not be
    /// launched; carries the stage name, the command, and the captured
    /// standard-error stream.
    ExternalTool { stage: String, command: String, stderr: String },
    /// A membership line held fewer than two fields; carries the 1-based
    /// line number and the raw line content.
    Parse { line: usize, content: String },
    /// A required input file was missing before a stage that needs it.
    Configuration { detail: String },
}

} // verus!
