//! The lines that a search writes: one for the candidate that was found,
//! and, where the caller asks for them, one for each candidate that failed.

use vstd::prelude::*;
use vstd::string::StringExecFns;

verus! {

/// The line that reports the candidate that was found.
pub open spec fn found_text(candidate: Seq<char>) -> Seq<char> {
    "Found: "@ + candidate
}

/// The line that reports a candidate that failed.
pub open spec fn miss_text(candidate: Seq<char>) -> Seq<char> {
    "Nope:  "@ + candidate
}

/// Writes the line for the candidate that was found.
pub fn found_report(candidate: &str) -> (line: String)
    ensures
        line@ == found_text(candidate@),
{
    String::from_str("Found: ").concat(candidate)
}

/// Writes the line for a candidate that was tried, if there is one to
/// write: a candidate that failed gets a line where `output_bad_attempts`
/// is set, and no other candidate gets one here.
pub fn miss_report(candidate: &str, matched: bool, output_bad_attempts: bool) -> (line: Option<
    String,
>)
    ensures
        line is Some <==> !matched && output_bad_attempts,
        line matches Some(text) ==> text@ == miss_text(candidate@),
{
    if !matched && output_bad_attempts {
        Some(String::from_str("Nope:  ").concat(candidate))
    } else {
        None
    }
}

} // verus!
