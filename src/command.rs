//! Errors of the external tools (preprocessor, assembler and linker), and
//! the decision whether a finished process failed.

use vstd::prelude::*;
use crate::text::Text;

verus! {

/// A failed run of an external command.
#[derive(Debug, Clone, PartialEq, Eq, Hash)]
pub enum CommandError {
    /// The command could not be started.
    StartFailed { cmd: Text, error: Text },
    /// The command ran and exited unsuccessfully.
    CompletedUnsuccessfully { cmd: Text, status: i32, stderr: Text },
}

/// The exit status reported for a failed command: its code, or `1` where it
/// has none (it was killed by a signal).
pub open spec fn reported_status(code: Option<i32>) -> i32 {
    match code {
        Some(c) => c,
        None => 1,
    }
}

/// Judge a finished command: success, or the error that carries its command
/// line, exit status and error output.
pub fn check_status(cmd: Text, success: bool, code: Option<i32>, stderr: Text) -> (r: Result<(), CommandError>)
    ensures
        success <==> r is Ok,
        !success ==> (r matches Err(CommandError::CompletedUnsuccessfully { cmd: c, status, stderr: e })
            && c@ == cmd@ && status == reported_status(code) && e@ == stderr@),
{
    if success {
        Ok(())
    } else {
        let status = match code {
            Some(c) => c,
            None => 1,
        };
        Err(CommandError::CompletedUnsuccessfully { cmd, status, stderr })
    }
}

} // verus!
