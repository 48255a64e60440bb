//! The repeat-sighting gate: a living thing has to be seen again before it
//! counts.

use vstd::prelude::*;

use crate::detect::Detection;
use crate::text::same_text;
use crate::time::Instant;
use crate::triggers;

verus! {

/// How long an unconfirmed sighting waits for a second one, in nanoseconds.
///
/// The model now and then reports a living thing on a single frame of an empty
/// scene, with scores in the range of genuine ones, so no threshold tells the
/// two apart. A real subject is seen again on later polls; one hallucinated
/// frame is not. The window is generous because polls reach the model only
/// when the motion gate trips.
pub const PENDING_CONFIRMATION_WINDOW: u128 = 5_000_000_000;

/// A sighting that awaits its repetition.
pub struct PendingConfirmation {
    /// The living-thing class that was seen.
    pub class_name: &'static str,
    /// When `class_name` was last seen: on the first, unconfirmed poll, or on
    /// the latest poll that confirmed it again.
    pub first_seen: Instant,
}

/// The pending sighting of the loop while no recording is active.
pub struct PreTriggerPending(pub Option<PendingConfirmation>);

/// The pending sighting of the loop while a recording is active. Kept apart
/// from [`PreTriggerPending`] so that neither can confirm the other's.
pub struct ActiveEventPending(pub Option<PendingConfirmation>);

impl Default for PreTriggerPending {
    /// Nothing seen yet.
    fn default() -> (r: PreTriggerPending)
        ensures
            r.0 is None,
    {
        PreTriggerPending(None)
    }
}

impl Default for ActiveEventPending {
    /// Nothing seen yet.
    fn default() -> (r: ActiveEventPending)
        ensures
            r.0 is None,
    {
        ActiveEventPending(None)
    }
}

impl PreTriggerPending {
    /// Whether a class was seen recently.
    pub fn is_some(&self) -> (r: bool)
        ensures
            r == self.0 is Some,
    {
        self.0.is_some()
    }
}

impl ActiveEventPending {
    /// Whether a class was seen recently.
    pub fn is_some(&self) -> (r: bool)
        ensures
            r == self.0 is Some,
    {
        self.0.is_some()
    }
}

/// A pending sighting at `now`: gone once the window has passed without a
/// fresh one.
pub open spec fn unexpired(
    pending: Option<PendingConfirmation>,
    now: Instant,
) -> Option<PendingConfirmation> {
    match pending {
        Some(p) => if now.since(p.first_seen) > PENDING_CONFIRMATION_WINDOW {
            None
        } else {
            pending
        },
        None => None,
    }
}

/// Whether one of the detections is of the class.
pub open spec fn sees(detections: Seq<Detection>, class_name: Seq<char>) -> bool {
    exists|i: int| 0 <= i < detections.len() && (#[trigger] detections[i]).class_name@ == class_name
}

/// Whether the detections repeat a pending sighting that has not expired.
pub open spec fn repeats(
    pending: Option<PendingConfirmation>,
    detections: Seq<Detection>,
    now: Instant,
) -> bool {
    match unexpired(pending, now) {
        Some(p) => sees(detections, p.class_name@),
        None => false,
    }
}

/// The pending sighting after a poll: a repeated one is refreshed; otherwise
/// the first detection takes its place; with no detection it can only expire.
pub open spec fn pending_after(
    pending: Option<PendingConfirmation>,
    detections: Seq<Detection>,
    now: Instant,
) -> Option<PendingConfirmation> {
    if repeats(pending, detections, now) {
        Some(PendingConfirmation { class_name: pending->0.class_name, first_seen: now })
    } else if detections.len() > 0 {
        Some(PendingConfirmation { class_name: detections[0].class_name, first_seen: now })
    } else {
        unexpired(pending, now)
    }
}

/// Clears `pending` once it has gone the confirmation window without a fresh
/// sighting. Runs on every poll that tripped the motion gate, with or without
/// detections: a sighting from minutes ago must not keep reading as recent.
pub fn expire_stale_pending(pending: &mut Option<PendingConfirmation>, now: Instant)
    ensures
        *final(pending) == unexpired(*old(pending), now),
{
    let stale: bool = match pending.as_ref() {
        Some(p) => now.duration_since(p.first_seen).nanos > PENDING_CONFIRMATION_WINDOW,
        None => false,
    };
    if stale {
        *pending = None;
    }
}

/// Whether one of the detections is of the class.
fn any_of_class(detections: &Vec<Detection>, class_name: &str) -> (r: bool)
    ensures
        r == sees(detections@, class_name@),
{
    let mut i: usize = 0;
    while i < detections.len()
        invariant
            i <= detections@.len(),
            forall|k: int| 0 <= k < i ==> (#[trigger] detections@[k]).class_name@ != class_name@,
        decreases detections@.len() - i,
    {
        if same_text(detections[i].class_name, class_name) {
            return true;
        }
        i = i + 1;
    }
    false
}

/// Holds this poll's detections against the pending sighting: hands them back
/// if they repeat it, and updates `pending` for the next poll.
///
/// A confirmed sighting is refreshed, not cleared, so a subject that stays in
/// view confirms on every poll after its first repetition. Only the class is
/// compared, since the score of one subject varies from poll to poll; and
/// every detection is, not only the first, so a class still in view is not
/// displaced by another that comes before it in the list.
pub fn confirm_pending(
    pending: &mut Option<PendingConfirmation>,
    detections: Vec<Detection>,
    now: Instant,
) -> (r: Option<Vec<Detection>>)
    ensures
        r == if repeats(*old(pending), detections@, now) {
            Some(detections)
        } else {
            None
        },
        *final(pending) == pending_after(*old(pending), detections@, now),
{
    expire_stale_pending(pending, now);
    let awaited: Option<&'static str> = match pending.as_ref() {
        Some(p) => Some(p.class_name),
        None => None,
    };
    if let Some(class_name) = awaited {
        if any_of_class(&detections, class_name) {
            *pending = Some(PendingConfirmation { class_name, first_seen: now });
            return Some(detections);
        }
    }
    if detections.len() > 0 {
        *pending = Some(
            PendingConfirmation { class_name: detections[0].class_name, first_seen: now },
        );
    }
    None
}

/// Takes what the detector made of a frame through the repeat-sighting gate.
/// `now` is the moment the detector was called. A failed detection is handed
/// on and leaves `pending` alone; without detections a stale sighting still
/// expires.
pub fn poll_confirmed_detections<E>(
    detected: Result<Vec<Detection>, E>,
    pending: &mut Option<PendingConfirmation>,
    now: Instant,
) -> (r: Result<Option<Vec<Detection>>, E>)
    ensures
        match detected {
            Ok(detections) => {
                &&& r == Ok::<Option<Vec<Detection>>, E>(
                    if repeats(*old(pending), detections@, now) {
                        Some(detections)
                    } else {
                        None
                    },
                )
                &&& *final(pending) == pending_after(*old(pending), detections@, now)
            },
            Err(e) => r == Err::<Option<Vec<Detection>>, E>(e) && *final(pending) == *old(pending),
        },
{
    let detections: Vec<Detection> = match detected {
        Ok(detections) => detections,
        Err(e) => {
            return Err(e);
        },
    };
    let confirmed: Option<Vec<Detection>> = match triggers::evaluate(detections) {
        Some(d) => confirm_pending(pending, d, now),
        None => None,
    };
    expire_stale_pending(pending, now);
    Ok(confirmed)
}

/// Motion without a detection is never confirmed, whatever was seen before.
pub proof fn motion_alone_is_never_confirmed(pending: Option<PendingConfirmation>, now: Instant)
    ensures
        !repeats(pending, Seq::<Detection>::empty(), now),
        pending_after(pending, Seq::<Detection>::empty(), now) == unexpired(pending, now),
{
}

/// A sighting with nothing before it, or nothing within the window, is not
/// confirmed: it only starts to wait.
pub proof fn first_sighting_only_waits(
    pending: Option<PendingConfirmation>,
    detections: Seq<Detection>,
    now: Instant,
)
    requires
        unexpired(pending, now) is None,
        detections.len() > 0,
    ensures
        !repeats(pending, detections, now),
        pending_after(pending, detections, now) == Some(
            PendingConfirmation { class_name: detections[0].class_name, first_seen: now },
        ),
{
}

/// What is pending after a poll was seen within the window.
pub proof fn pending_is_always_recent(
    pending: Option<PendingConfirmation>,
    detections: Seq<Detection>,
    now: Instant,
)
    ensures
        match pending_after(pending, detections, now) {
            Some(p) => now.since(p.first_seen) <= PENDING_CONFIRMATION_WINDOW,
            None => true,
        },
{
}

/// The pending sighting after a series of polls, each with its detections and
/// its time.
pub open spec fn pending_after_all(
    pending: Option<PendingConfirmation>,
    polls: Seq<(Seq<Detection>, Instant)>,
) -> Option<PendingConfirmation>
    decreases polls.len(),
{
    if polls.len() == 0 {
        pending
    } else {
        pending_after(
            pending_after_all(pending, polls.drop_last()),
            polls.last().0,
            polls.last().1,
        )
    }
}

/// The time between poll `i` and the sighting before it.
pub open spec fn gap_before(
    seen: PendingConfirmation,
    polls: Seq<(Seq<Detection>, Instant)>,
    i: int,
) -> int {
    polls[i].1.since(
        if i == 0 {
            seen.first_seen
        } else {
            polls[i - 1].1
        },
    )
}

/// A subject in view on every poll, with no two polls further apart than the
/// window, is confirmed on every one of them once it is pending.
pub proof fn continuous_presence_confirms_every_poll(
    seen: PendingConfirmation,
    polls: Seq<(Seq<Detection>, Instant)>,
)
    requires
        forall|i: int|
            0 <= i < polls.len() ==> sees((#[trigger] polls[i]).0, seen.class_name@),
        forall|i: int|
            0 <= i < polls.len() ==> #[trigger] gap_before(seen, polls, i)
                <= PENDING_CONFIRMATION_WINDOW,
    ensures
        forall|i: int|
            0 <= i < polls.len() ==> repeats(
                pending_after_all(Some(seen), polls.take(i)),
                (#[trigger] polls[i]).0,
                polls[i].1,
            ),
        pending_after_all(Some(seen), polls) == Some(
            PendingConfirmation {
                class_name: seen.class_name,
                first_seen: if polls.len() == 0 {
                    seen.first_seen
                } else {
                    polls.last().1
                },
            },
        ),
    decreases polls.len(),
{
    if polls.len() > 0 {
        let init = polls.drop_last();
        assert forall|i: int| 0 <= i < init.len() implies sees(
            (#[trigger] init[i]).0,
            seen.class_name@,
        ) by {
            assert(sees(polls[i].0, seen.class_name@));
        }
        assert forall|i: int| 0 <= i < init.len() implies #[trigger] gap_before(seen, init, i)
            <= PENDING_CONFIRMATION_WINDOW by {
            assert(gap_before(seen, polls, i) == gap_before(seen, init, i));
        }
        continuous_presence_confirms_every_poll(seen, init);
        let last = polls.len() - 1;
        assert(sees(polls[last].0, seen.class_name@));
        assert(gap_before(seen, polls, last) <= PENDING_CONFIRMATION_WINDOW);
        assert(polls.take(last) =~= init);
        assert forall|i: int| 0 <= i < polls.len() implies repeats(
            pending_after_all(Some(seen), polls.take(i)),
            (#[trigger] polls[i]).0,
            polls[i].1,
        ) by {
            if i < last {
                assert(init.take(i) =~= polls.take(i));
                assert(repeats(pending_after_all(Some(seen), init.take(i)), init[i].0, init[i].1));
            }
        }
    }
}

/// Only a second sighting of the very class that is pending confirms, and only
/// within five seconds. Without one the first detection takes its place.
pub proof fn only_the_same_class_confirms(
    pending: PendingConfirmation,
    detections: Seq<Detection>,
    now: Instant,
)
    ensures
        repeats(Some(pending), detections, now) ==> now.nanos - pending.first_seen.nanos
            <= 5_000_000_000 && exists|i: int|
            0 <= i < detections.len() && (#[trigger] detections[i]).class_name@
                == pending.class_name@,
        detections.len() > 0 && (forall|i: int|
            0 <= i < detections.len() ==> (#[trigger] detections[i]).class_name@
                != pending.class_name@) ==> {
            let next = pending_after(Some(pending), detections, now);
            &&& !repeats(Some(pending), detections, now)
            &&& next is Some
            &&& next->0.class_name@ == detections[0].class_name@
            &&& next->0.first_seen == now
        },
{
}

/// Wherever in the list the pending class is seen again within the window, it
/// confirms, and goes on waiting as of now; after the window it starts over.
pub proof fn seen_again_within_the_window_confirms(
    pending: PendingConfirmation,
    detections: Seq<Detection>,
    i: int,
    now: Instant,
)
    requires
        0 <= i < detections.len(),
        detections[i].class_name@ == pending.class_name@,
    ensures
        now.nanos - pending.first_seen.nanos <= 5_000_000_000 ==> {
            let next = pending_after(Some(pending), detections, now);
            &&& repeats(Some(pending), detections, now)
            &&& next is Some
            &&& next->0.class_name@ == pending.class_name@
            &&& next->0.first_seen == now
        },
        now.nanos - pending.first_seen.nanos > 5_000_000_000 ==> {
            let next = pending_after(Some(pending), detections, now);
            &&& !repeats(Some(pending), detections, now)
            &&& next is Some
            &&& next->0.class_name@ == detections[0].class_name@
            &&& next->0.first_seen == now
        },
{
}

/// While nothing is seen, a sighting is kept as it is until the window has
/// passed, and not a moment longer.
pub proof fn sighting_waits_for_the_window(
    pending: PendingConfirmation,
    now: Instant,
    waited: Instant,
)
    requires
        now.nanos <= pending.first_seen.nanos + 5_000_000_000 < waited.nanos,
    ensures
        pending_after(Some(pending), Seq::<Detection>::empty(), now) == Some(pending),
        pending_after(Some(pending), Seq::<Detection>::empty(), waited) is None,
        unexpired(Some(pending), now) == Some(pending),
        unexpired(Some(pending), waited) is None,
        unexpired(None, now) is None,
{
}

} // verus!
