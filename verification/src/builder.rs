//! Topology building
//!
//! A topology is configured through calls that report how they went with a
//! result code and, on failure, an error number. This module reads such
//! reports.

use vstd::prelude::*;

verus! {

/// How a configuration call went
#[derive(Clone, Copy, Debug, PartialEq, Eq, Structural)]
pub enum Report {
    /// The call succeeded
    Done,
    /// The call failed for the reason that the caller foresaw
    Refused,
    /// The call reported something that it is not known to report
    Unexpected,
}

/// The report that a result code and an error number make up. A result of 0
/// means success. A result of -1 means failure: a failure that the caller
/// foresaw when `refusal` is absent, or is the error number; any other
/// failure, and any other result, is unexpected.
pub open spec fn report_of(result: i32, errno: i32, refusal: Option<i32>) -> Report {
    if result == 0 {
        Report::Done
    } else if result == -1 && (refusal matches Some(expected) ==> errno == expected) {
        Report::Refused
    } else {
        Report::Unexpected
    }
}

/// Reads the report of a configuration call: its result code, the error
/// number that was current after it, and the error number with which the
/// call is known to refuse its arguments, if there is just one.
pub fn read_report(result: i32, errno: i32, refusal: Option<i32>) -> (r: Report)
    ensures
        r == report_of(result, errno, refusal),
{
    if result == 0 {
        Report::Done
    } else if result == -1 {
        match refusal {
            Some(expected) => if errno == expected {
                Report::Refused
            } else {
                Report::Unexpected
            },
            None => Report::Refused,
        }
    } else {
        Report::Unexpected
    }
}

} // verus!
