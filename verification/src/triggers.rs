//! From detections to a recording trigger.

use vstd::prelude::*;

use crate::detect::Detection;

verus! {

/// Converts a set of detections into a recording trigger. Returns `None` if
/// nothing was detected: whatever tripped the motion gate (a ceiling fan, say)
/// is then not an event. Recording only ever starts on a classified living
/// thing, never on the motion gate alone.
pub fn evaluate(detections: Vec<Detection>) -> (r: Option<Vec<Detection>>)
    ensures
        r == if detections@.len() == 0 {
            None
        } else {
            Some(detections)
        },
{
    if detections.len() == 0 {
        None
    } else {
        Some(detections)
    }
}

} // verus!
