//! When the capture stream is torn down and rebuilt.

use vstd::prelude::*;

pub use crate::clip_state::pre_buffer_ready;
pub use crate::liveness::{
    frame_liveness_advanced, frame_liveness_advanced_at, reset_liveness_after_reconnect,
    reset_liveness_after_reconnect_at, FrameLiveness,
};
use crate::time::Instant;

verus! {

/// How long a stall has to last before the stream is rebuilt, in nanoseconds.
/// Much longer than the limit at which frames stop being evaluated: reopening
/// the device on every brief stall would itself provoke more of them.
pub const CAMERA_RECONNECT_STALL: u128 = 15_000_000_000;

/// Time that has to have passed since the last attempt before the next, in
/// nanoseconds, so that a camera that is gone is not reopened on every poll.
pub const CAMERA_RECONNECT_COOLDOWN: u128 = 10_000_000_000;

/// Whether the stream is to be rebuilt at `now`: the stall has lasted long
/// enough, and the last attempt, if any, was more than the cooldown ago.
pub open spec fn reconnect_due(
    last_seen: Option<FrameLiveness>,
    last_reconnect_attempt: Option<Instant>,
    now: Instant,
) -> bool {
    &&& last_seen is Some
    &&& now.since(last_seen->0.unchanged_since) >= CAMERA_RECONNECT_STALL
    &&& last_reconnect_attempt is Some ==> now.since(last_reconnect_attempt->0)
        > CAMERA_RECONNECT_COOLDOWN
}

/// Whether the stream is to be rebuilt at `now`.
pub fn should_reconnect(
    last_seen: Option<&FrameLiveness>,
    last_reconnect_attempt: Option<Instant>,
    now: Instant,
) -> (r: bool)
    ensures
        r == reconnect_due(
            match last_seen {
                Some(seen) => Some(*seen),
                None => None,
            },
            last_reconnect_attempt,
            now,
        ),
{
    let stalled: bool = match last_seen {
        Some(seen) => seen.stalled_for(now).nanos >= CAMERA_RECONNECT_STALL,
        None => false,
    };
    if !stalled {
        return false;
    }
    match last_reconnect_attempt {
        Some(attempted_at) => {
            now.duration_since(attempted_at).nanos > CAMERA_RECONNECT_COOLDOWN
        },
        None => true,
    }
}

/// Decides at `now` whether to rebuild the stream, and takes note of the
/// attempt if so. Every attempt counts for the cooldown, whether it will
/// succeed or not. On `true` the caller drops the old stream, which holds the
/// device, and only then opens a new one.
pub fn maybe_reconnect_camera(
    last_seen: Option<&FrameLiveness>,
    last_reconnect_attempt: &mut Option<Instant>,
    now: Instant,
) -> (r: bool)
    ensures
        r == reconnect_due(
            match last_seen {
                Some(seen) => Some(*seen),
                None => None,
            },
            *old(last_reconnect_attempt),
            now,
        ),
        *final(last_reconnect_attempt) == if r {
            Some(now)
        } else {
            *old(last_reconnect_attempt)
        },
{
    if !should_reconnect(last_seen, *last_reconnect_attempt, now) {
        return false;
    }
    *last_reconnect_attempt = Some(now);
    true
}

/// Two attempts are always more than the cooldown apart, whatever is seen in
/// between.
pub proof fn attempts_keep_the_cooldown(
    seen: Option<FrameLiveness>,
    attempted_at: Instant,
    now: Instant,
)
    requires
        reconnect_due(seen, Some(attempted_at), now),
    ensures
        now.nanos - attempted_at.nanos > CAMERA_RECONNECT_COOLDOWN,
{
}

/// A rebuilt stream gets the full stall time before it is rebuilt again, even
/// if it never delivers a frame.
pub proof fn rebuilt_stream_gets_its_time(
    last_seen: FrameLiveness,
    attempt: Option<Instant>,
    rebuilt_at: Instant,
    now: Instant,
)
    requires
        reconnect_due(
            crate::liveness::seen_after_reconnect(Some(last_seen), rebuilt_at),
            attempt,
            now,
        ),
    ensures
        now.nanos - rebuilt_at.nanos >= CAMERA_RECONNECT_STALL,
{
}

/// A stall that lasts is acted upon: once it has lasted 15 seconds and no
/// attempt was made within the last 10, the stream is rebuilt; and never
/// while the camera delivers, or before it has delivered anything.
pub proof fn lasting_stall_is_acted_upon(
    seen: FrameLiveness,
    attempt: Option<Instant>,
    now: Instant,
)
    ensures
        now.nanos - seen.unchanged_since.nanos >= 15_000_000_000 && (attempt is Some
            ==> now.nanos - attempt->0.nanos > 10_000_000_000) ==> reconnect_due(
            Some(seen),
            attempt,
            now,
        ),
        now.nanos - seen.unchanged_since.nanos < 15_000_000_000 ==> !reconnect_due(
            Some(seen),
            attempt,
            now,
        ),
        !reconnect_due(None, attempt, now),
{
}

} // verus!
