//! Whether the camera still delivers frames, while nothing is recorded.

use vstd::prelude::*;

use crate::clip_state::MAX_FRAME_STALL;
use crate::time::{Clock, Duration, Instant};

verus! {

/// The most recent frame timestamp evaluated, and since when it has been the
/// latest one.
pub struct FrameLiveness {
    /// The last frame timestamp evaluated.
    pub timestamp: Instant,
    /// When `timestamp` was first seen as the latest frame.
    pub unchanged_since: Instant,
    /// Whether the stall has been reported already, so that a stalled camera
    /// is reported once and not on every poll.
    pub warned: bool,
}

impl FrameLiveness {
    /// How long the timestamp has been the latest one at `now`.
    pub fn stalled_for(&self, now: Instant) -> (r: Duration)
        ensures
            r.nanos == now.since(self.unchanged_since),
    {
        now.duration_since(self.unchanged_since)
    }
}

/// Whether a polled frame is the one that was seen last.
pub open spec fn same_frame(last_seen: Option<FrameLiveness>, frame_timestamp: Instant) -> bool {
    last_seen is Some && last_seen->0.timestamp == frame_timestamp
}

/// Whether the camera counts as live at `now`: the polled frame is new, or has
/// been the latest for less than the stall limit.
pub open spec fn live(
    last_seen: Option<FrameLiveness>,
    frame_timestamp: Instant,
    now: Instant,
) -> bool {
    same_frame(last_seen, frame_timestamp) ==> now.since(last_seen->0.unchanged_since)
        < MAX_FRAME_STALL
}

/// What is remembered after a poll: a new frame, from `now` on; or the same
/// one, reported once it counts as stalled.
pub open spec fn seen_after(
    last_seen: Option<FrameLiveness>,
    frame_timestamp: Instant,
    now: Instant,
) -> FrameLiveness {
    if same_frame(last_seen, frame_timestamp) {
        FrameLiveness {
            warned: last_seen->0.warned || !live(last_seen, frame_timestamp, now),
            ..last_seen->0
        }
    } else {
        FrameLiveness { timestamp: frame_timestamp, unchanged_since: now, warned: false }
    }
}

/// Takes note of a frame polled at `now` and reports whether to go on with it.
/// Returns `false` once the same frame has recurred for [`MAX_FRAME_STALL`]:
/// the camera has then stopped, and evaluating the frame again on every poll
/// would make one recording after another out of it. A shorter recurrence is
/// ordinary jitter.
pub fn frame_liveness_advanced_at(
    last_seen: &mut Option<FrameLiveness>,
    frame_timestamp: Instant,
    now: Instant,
) -> (r: bool)
    ensures
        r == live(*old(last_seen), frame_timestamp, now),
        *final(last_seen) == Some(seen_after(*old(last_seen), frame_timestamp, now)),
{
    let recurring: Option<FrameLiveness> = match last_seen.as_ref() {
        Some(seen) => {
            if seen.timestamp.nanos == frame_timestamp.nanos {
                Some(
                    FrameLiveness {
                        timestamp: seen.timestamp,
                        unchanged_since: seen.unchanged_since,
                        warned: seen.warned,
                    },
                )
            } else {
                None
            }
        },
        None => None,
    };
    match recurring {
        Some(seen) => {
            if seen.stalled_for(now).nanos < MAX_FRAME_STALL {
                return true;
            }
            if !seen.warned {
                *last_seen = Some(
                    FrameLiveness {
                        timestamp: seen.timestamp,
                        unchanged_since: seen.unchanged_since,
                        warned: true,
                    },
                );
            }
            false
        },
        None => {
            *last_seen = Some(
                FrameLiveness { timestamp: frame_timestamp, unchanged_since: now, warned: false },
            );
            true
        },
    }
}

/// [`frame_liveness_advanced_at`] the current moment.
pub fn frame_liveness_advanced(
    last_seen: &mut Option<FrameLiveness>,
    frame_timestamp: Instant,
    clock: &Clock,
) -> (r: bool)
    ensures
        exists|now: Instant|
            {
                &&& now.nanos >= 0
                &&& r == #[trigger] live(*old(last_seen), frame_timestamp, now)
                &&& *final(last_seen) == Some(seen_after(*old(last_seen), frame_timestamp, now))
            },
{
    let now: Instant = clock.now();
    frame_liveness_advanced_at(last_seen, frame_timestamp, now)
}

/// What is remembered once the capture stream was rebuilt at `now`.
pub open spec fn seen_after_reconnect(
    last_seen: Option<FrameLiveness>,
    now: Instant,
) -> Option<FrameLiveness> {
    match last_seen {
        Some(seen) => Some(FrameLiveness { unchanged_since: now, warned: false, ..seen }),
        None => None,
    }
}

/// Restarts the stall clocks after the capture stream was rebuilt at `now`.
///
/// The timestamp is kept: until the new stream delivers, the latest frame is
/// still the stale one, and forgetting it would let it pass for a live one.
pub fn reset_liveness_after_reconnect_at(last_seen: &mut Option<FrameLiveness>, now: Instant)
    ensures
        *final(last_seen) == seen_after_reconnect(*old(last_seen), now),
{
    let timestamp: Option<Instant> = match last_seen.as_ref() {
        Some(seen) => Some(seen.timestamp),
        None => None,
    };
    if let Some(timestamp) = timestamp {
        *last_seen = Some(FrameLiveness { timestamp, unchanged_since: now, warned: false });
    }
}

/// [`reset_liveness_after_reconnect_at`] the current moment.
pub fn reset_liveness_after_reconnect(last_seen: &mut Option<FrameLiveness>, clock: &Clock)
    ensures
        exists|now: Instant|
            now.nanos >= 0 && *final(last_seen) == #[trigger] seen_after_reconnect(
                *old(last_seen),
                now,
            ),
{
    let now: Instant = clock.now();
    reset_liveness_after_reconnect_at(last_seen, now);
}

/// A stalled camera is reported once: when a poll finds it stalled it is
/// marked, and the mark stays for as long as the frame does not change.
pub proof fn stall_is_reported_once(
    last_seen: Option<FrameLiveness>,
    frame_timestamp: Instant,
    now: Instant,
    later: Instant,
)
    requires
        !live(last_seen, frame_timestamp, now),
    ensures
        seen_after(last_seen, frame_timestamp, now).warned,
        seen_after(
            Some(seen_after(last_seen, frame_timestamp, now)),
            frame_timestamp,
            later,
        ).warned,
{
}

/// A stalled camera stays stalled until a new frame arrives.
pub proof fn stall_lasts_until_a_new_frame(
    last_seen: Option<FrameLiveness>,
    frame_timestamp: Instant,
    now: Instant,
    later: Instant,
)
    requires
        !live(last_seen, frame_timestamp, now),
        now.nanos <= later.nanos,
    ensures
        !live(Some(seen_after(last_seen, frame_timestamp, now)), frame_timestamp, later),
        forall|newer: Instant|
            newer != frame_timestamp ==> #[trigger] live(
                Some(seen_after(last_seen, frame_timestamp, now)),
                newer,
                later,
            ),
{
}

/// After a reconnect the stale frame is still known for what it is, but has
/// the full stall limit again before it counts as stalled.
pub proof fn reconnect_grants_a_fresh_grace_period(
    last_seen: FrameLiveness,
    rebuilt_at: Instant,
    now: Instant,
)
    ensures
        same_frame(seen_after_reconnect(Some(last_seen), rebuilt_at), last_seen.timestamp),
        live(seen_after_reconnect(Some(last_seen), rebuilt_at), last_seen.timestamp, now) == (
        now.since(rebuilt_at) < MAX_FRAME_STALL),
{
}

/// A new frame restarts the stall clock: it is remembered as of now, and not
/// as reported.
pub proof fn new_frame_restarts_the_stall_clock(
    last_seen: Option<FrameLiveness>,
    frame_timestamp: Instant,
    now: Instant,
)
    requires
        last_seen is Some ==> last_seen->0.timestamp.nanos != frame_timestamp.nanos,
    ensures
        live(last_seen, frame_timestamp, now),
        seen_after(last_seen, frame_timestamp, now).timestamp == frame_timestamp,
        seen_after(last_seen, frame_timestamp, now).unchanged_since == now,
        !seen_after(last_seen, frame_timestamp, now).warned,
{
}

/// What is remembered after polls of one frame at the given moments.
pub open spec fn seen_after_all(
    last_seen: Option<FrameLiveness>,
    frame_timestamp: Instant,
    polls: Seq<Instant>,
) -> Option<FrameLiveness>
    decreases polls.len(),
{
    if polls.len() == 0 {
        last_seen
    } else {
        Some(
            seen_after(
                seen_after_all(last_seen, frame_timestamp, polls.drop_last()),
                frame_timestamp,
                polls.last(),
            ),
        )
    }
}

/// A frame that is new when first polled counts as live at every later poll
/// until a second and a half have passed since that first poll, and at none from
/// then on, however often it is polled in between. It is marked as reported
/// only if one of these polls found it stalled.
pub proof fn frame_is_live_for_the_stall_limit(
    last_seen: Option<FrameLiveness>,
    frame_timestamp: Instant,
    polls: Seq<Instant>,
    now: Instant,
)
    requires
        polls.len() > 0,
        last_seen is Some ==> last_seen->0.timestamp.nanos != frame_timestamp.nanos,
    ensures
        ({
            let seen = seen_after_all(last_seen, frame_timestamp, polls);
            &&& seen is Some
            &&& seen->0.timestamp == frame_timestamp
            &&& seen->0.unchanged_since == polls[0]
            &&& live(seen, frame_timestamp, now) == (now.nanos - polls[0].nanos < 1_500_000_000)
            &&& seen->0.warned == exists|i: int|
                0 < i < polls.len() && (#[trigger] polls[i]).nanos - polls[0].nanos
                    >= 1_500_000_000
        }),
    decreases polls.len(),
{
    let init = polls.drop_last();
    if polls.len() == 1 {
        assert(seen_after_all(last_seen, frame_timestamp, init) == last_seen);
    } else {
        frame_is_live_for_the_stall_limit(last_seen, frame_timestamp, init, polls.last());
        let seen = seen_after_all(last_seen, frame_timestamp, polls)->0;
        let last = polls.len() - 1;
        assert(polls[last] == polls.last());
        if seen_after_all(last_seen, frame_timestamp, init)->0.warned {
            let i = choose|i: int|
                0 < i < init.len() && (#[trigger] init[i]).nanos - init[0].nanos
                    >= 1_500_000_000;
            assert(polls[i] == init[i]);
        }
        if exists|i: int|
            0 < i < polls.len() && (#[trigger] polls[i]).nanos - polls[0].nanos
                >= 1_500_000_000 {
            let i = choose|i: int|
                0 < i < polls.len() && (#[trigger] polls[i]).nanos - polls[0].nanos
                    >= 1_500_000_000;
            if i < last {
                assert(init[i] == polls[i]);
            }
        }
    }
}

/// After a rebuild the latest frame is the same one, seen as of the rebuild;
/// and a stall of the new stream is reported anew. Nothing seen stays so.
pub proof fn rebuilt_stream_is_watched_anew(
    last_seen: FrameLiveness,
    rebuilt_at: Instant,
    now: Instant,
)
    requires
        now.nanos - rebuilt_at.nanos >= 1_500_000_000,
    ensures
        ({
            let seen = seen_after_reconnect(Some(last_seen), rebuilt_at);
            &&& seen is Some
            &&& !seen->0.warned
            &&& !live(seen, last_seen.timestamp, now)
            &&& seen_after(seen, last_seen.timestamp, now).warned
        }),
        seen_after_reconnect(None, rebuilt_at) is None,
{
}

} // verus!
