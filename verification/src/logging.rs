//! Logging to two places at once.

use vstd::prelude::*;

verus! {

/// Name of the log file in the output directory.
pub const LOG_FILE_NAME: &'static str = "motioncap.log";

/// Joins the outcomes of two writes that were both made: the first error, if
/// any. Taking outcomes, not operations, it cannot keep the second write from
/// being tried.
pub fn both<E>(a: Result<(), E>, b: Result<(), E>) -> (r: Result<(), E>)
    ensures
        r == match a {
            Err(e) => Err(e),
            Ok(_) => b,
        },
{
    match a {
        Ok(_) => b,
        Err(e) => Err(e),
    }
}

} // verus!
