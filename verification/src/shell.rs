//! Shell scripts and the judgement of how a run of one went.
use vstd::prelude::*;

verus! {

/// A shell script.
#[derive(Debug)]
pub struct Shell(pub String);

/// Why a run of a shell script failed.
#[derive(Debug, PartialEq, Eq)]
pub enum ShellError {
    /// The script exited with a status other than 0; the script, its status
    /// and its output are kept for the report.
    BadExitCode { script: String, code: i32, stdout: String, stderr: String },
}

impl Shell {
    /// How a run of the script went, from the exit status and output that the
    /// caller got by running it (with `exit_on_error` set, so that a failing
    /// command stops the script): success exactly when the status is 0.
    pub fn run(&self, code: i32, stdout: String, stderr: String) -> (r: Result<(), ShellError>)
        ensures
            r is Ok <==> code == 0,
            r matches Err(ShellError::BadExitCode { script, code: c, stdout: o, stderr: e }) ==> (
            script@ == self.0@ && c == code && o@ == stdout@ && e@ == stderr@),
    {
        if code != 0 {
            Err(ShellError::BadExitCode { script: self.0.clone(), code, stdout, stderr })
        } else {
            Ok(())
        }
    }
}

} // verus!
