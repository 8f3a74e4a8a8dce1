//! What a run of an inspected tool left behind.

use vstd::prelude::*;

verus! {

/// The captured output of one command. A command that could not be started
/// has `success` false and the reason in `stderr`.
#[derive(Debug, Clone)]
pub struct CommandOutput {
    pub stdout: String,
    pub stderr: String,
    pub success: bool,
}

/// A command's output as plain values.
pub struct Capture {
    pub stdout: Seq<char>,
    pub stderr: Seq<char>,
    pub success: bool,
}

impl View for CommandOutput {
    type V = Capture;

    open spec fn view(&self) -> Capture {
        Capture { stdout: self.stdout@, stderr: self.stderr@, success: self.success }
    }
}

} // verus!
