//! Process exit codes and their merging.

use vstd::prelude::*;

verus! {

/// The outcome of a whole run.
#[derive(Debug, Clone, Copy, PartialEq, Eq, Structural)]
pub enum ExitCode {
    Success,
    HasResult(bool),
    GeneralError,
    KilledBySigint,
}

/// The numeric value of an exit code: success is zero, a run without
/// results is one, a general error is one, an interrupt is 130.
pub open spec fn exit_code_spec(c: ExitCode) -> int {
    match c {
        ExitCode::Success => 0,
        ExitCode::HasResult(has_results) => if has_results {
            0
        } else {
            1
        },
        ExitCode::GeneralError => 1,
        ExitCode::KilledBySigint => 130,
    }
}

/// Whether any of the codes is an error.
pub open spec fn any_error(s: Seq<ExitCode>) -> bool {
    exists|i: int| 0 <= i < s.len() && exit_code_spec(s[i]) != 0
}

impl ExitCode {
    /// The numeric value handed to the operating system.
    pub fn as_i32(self) -> (r: i32)
        ensures
            r as int == exit_code_spec(self),
    {
        match self {
            ExitCode::Success => 0,
            ExitCode::HasResult(has_results) => if has_results {
                0
            } else {
                1
            },
            ExitCode::GeneralError => 1,
            ExitCode::KilledBySigint => 130,
        }
    }

    /// Whether this code reports a failure.
    pub fn is_error(self) -> (r: bool)
        ensures
            r == (exit_code_spec(self) != 0),
    {
        self.as_i32() != 0
    }

    /// One code for many: an error when any of them is one, else success.
    pub fn merge_exitcodes(results: &Vec<ExitCode>) -> (r: ExitCode)
        ensures
            r == (if any_error(results@) {
                ExitCode::GeneralError
            } else {
                ExitCode::Success
            }),
    {
        let mut i: usize = 0;
        while i < results.len()
            invariant
                i <= results@.len(),
                forall|j: int| 0 <= j < i ==> exit_code_spec(#[trigger] results@[j]) == 0,
            decreases results@.len() - i,
        {
            if results[i].is_error() {
                proof {
                    assert(exit_code_spec(results@[i as int]) != 0);
                }
                return ExitCode::GeneralError;
            }
            i = i + 1;
        }
        ExitCode::Success
    }
}

} // verus!
