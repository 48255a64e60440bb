//! What a clip's sidecar file records.

use vstd::prelude::*;

use crate::single::Single;
use crate::time::Duration;

verus! {

/// One detection recorded during an event.
pub struct DetectionRecord {
    /// Time from the clip's timeline start to the frame the detection ran against.
    pub offset: Duration,
    /// The detected living-thing class.
    pub class_name: String,
    /// The detection's confidence score.
    pub confidence: Single,
}

/// One motion-gate trip recorded during an event, confirmed or not, kept for
/// telling a genuine subject from noise such as a fan or a curtain.
pub struct MotionEvent {
    /// Time from the clip's timeline start to the frame that tripped the motion gate.
    pub offset: Duration,
    /// Fraction of changed pixels that tripped the motion gate.
    pub changed_ratio: Single,
}

/// A clip's sidecar.
pub struct Sidecar {
    /// Every detection recorded during the clip, in order.
    pub detections: Vec<DetectionRecord>,
    /// Every motion-gate trip recorded during the clip, in order.
    pub motion_events: Vec<MotionEvent>,
}

/// The class names of a list of detections, in their order.
pub open spec fn detected_classes(detections: Seq<DetectionRecord>) -> Seq<Seq<char>> {
    Seq::new(detections.len(), |i: int| detections[i].class_name@)
}

/// Every detection is listed by its class, in the order they were made.
pub proof fn every_detection_has_its_class(detections: Seq<DetectionRecord>, i: int)
    requires
        0 <= i < detections.len(),
    ensures
        detected_classes(detections).len() == detections.len(),
        detected_classes(detections)[i] == detections[i].class_name@,
{
}

} // verus!
