//! Rolling pre-buffer of the most recent frames and audio.

use std::collections::VecDeque;
use std::sync::Arc;

use vstd::prelude::*;

use crate::frame::RgbFrame;
use crate::single::Single;
use crate::time::{Clock, Duration, Instant};

verus! {

/// Another handle on a shared value, by `Arc::clone`. Claims that the new
/// handle points to the same value.
#[verifier::external_body]
pub(crate) fn share<T>(value: &Arc<T>) -> (r: Arc<T>)
    ensures
        r == *value,
{
    Arc::clone(value)
}

/// Common shape of every kind of buffered entry, so that eviction and
/// filtering are written once.
pub trait Timestamped: Sized {
    /// When this entry was captured.
    spec fn stamp(&self) -> Instant;

    /// When this entry was captured.
    fn timestamp(&self) -> (r: Instant)
        ensures
            r == self.stamp(),
    ;

    /// Another handle on the same entry.
    fn duplicate(&self) -> (r: Self)
        ensures
            r == *self,
    ;
}

/// A captured video frame paired with the instant it arrived. The pixels are
/// shared, so handing a frame on never copies them.
pub struct TimestampedFrame {
    /// When this frame was captured.
    pub timestamp: Instant,
    /// The captured frame's decoded pixel data.
    pub image: Arc<RgbFrame>,
}

impl Timestamped for TimestampedFrame {
    open spec fn stamp(&self) -> Instant {
        self.timestamp
    }

    fn timestamp(&self) -> Instant {
        self.timestamp
    }

    fn duplicate(&self) -> Self {
        TimestampedFrame { timestamp: self.timestamp, image: share(&self.image) }
    }
}

/// A chunk of captured audio samples paired with the instant it arrived. The
/// samples are shared, so handing a chunk on never copies them.
pub struct TimestampedAudio {
    /// When this audio chunk was captured.
    pub timestamp: Instant,
    /// Interleaved PCM samples for this chunk.
    pub samples: Arc<Vec<Single>>,
}

impl Timestamped for TimestampedAudio {
    open spec fn stamp(&self) -> Instant {
        self.timestamp
    }

    fn timestamp(&self) -> Instant {
        self.timestamp
    }

    fn duplicate(&self) -> Self {
        TimestampedAudio { timestamp: self.timestamp, samples: share(&self.samples) }
    }
}

/// Whether an entry has outlived `retention` at `now`.
pub open spec fn stale<T: Timestamped>(entry: T, now: Instant, retention: Duration) -> bool {
    now.since(entry.stamp()) > retention.nanos
}

/// What is left of `entries` once stale ones are dropped from the front, up to
/// the first that is not stale.
pub open spec fn retained<T: Timestamped>(
    entries: Seq<T>,
    now: Instant,
    retention: Duration,
) -> Seq<T>
    decreases entries.len(),
{
    if entries.len() > 0 && stale(entries[0], now, retention) {
        retained(entries.drop_first(), now, retention)
    } else {
        entries
    }
}

/// The entries captured strictly after `since`, in their order.
pub open spec fn newer<T: Timestamped>(entries: Seq<T>, since: Instant) -> Seq<T> {
    entries.filter(|entry: T| entry.stamp().nanos > since.nanos)
}

/// Whether entries are in the order of their timestamps, oldest first.
pub open spec fn oldest_first<T: Timestamped>(entries: Seq<T>) -> bool {
    forall|i: int, j: int|
        0 <= i < j < entries.len() ==> (#[trigger] entries[i]).stamp().nanos <= (
        #[trigger] entries[j]).stamp().nanos
}

/// Drops entries older than `retention` relative to `now`, oldest first.
fn evict<T: Timestamped>(deque: &mut VecDeque<T>, now: Instant, retention: Duration)
    ensures
        final(deque)@ == retained(old(deque)@, now, retention),
{
    while deque.len() > 0
        invariant
            retained(deque@, now, retention) == retained(old(deque)@, now, retention),
        ensures
            deque@ == retained(old(deque)@, now, retention),
        decreases deque@.len(),
    {
        if now.duration_since(deque[0].timestamp()).nanos > retention.nanos {
            let ghost before = deque@;
            deque.pop_front();
            assert(deque@ =~= before.drop_first());
        } else {
            break;
        }
    }
}

/// Entries captured strictly after `since`, oldest first.
fn since<T: Timestamped>(deque: &VecDeque<T>, since_ts: Instant) -> (r: Vec<T>)
    ensures
        r@ == newer(deque@, since_ts),
{
    let mut out: Vec<T> = Vec::new();
    let mut i: usize = 0;
    let ghost keep = |entry: T| entry.stamp().nanos > since_ts.nanos;
    assert(out@ =~= deque@.take(0).filter(keep)) by {
        reveal(Seq::filter);
    }
    while i < deque.len()
        invariant
            i <= deque@.len(),
            keep == (|entry: T| entry.stamp().nanos > since_ts.nanos),
            out@ == deque@.take(i as int).filter(keep),
        decreases deque@.len() - i,
    {
        let ghost upto = deque@.take(i + 1);
        assert(upto.drop_last() =~= deque@.take(i as int));
        assert(upto.last() == deque@[i as int]);
        reveal(Seq::filter);
        if deque[i].timestamp().nanos > since_ts.nanos {
            out.push(deque[i].duplicate());
        }
        i = i + 1;
    }
    assert(deque@.take(i as int) =~= deque@);
    out
}

/// Every entry, oldest first.
fn all_of<T: Timestamped>(deque: &VecDeque<T>) -> (r: Vec<T>)
    ensures
        r@ == deque@,
{
    let mut out: Vec<T> = Vec::new();
    let mut i: usize = 0;
    while i < deque.len()
        invariant
            i <= deque@.len(),
            out@ == deque@.take(i as int),
        decreases deque@.len() - i,
    {
        out.push(deque[i].duplicate());
        i = i + 1;
    }
    assert(deque@.take(i as int) =~= deque@);
    out
}

/// Rolling window of the last `retention` worth of frames and audio, so a
/// recording can be started with footage from before the trigger fired.
pub struct RingBuffer {
    /// How long an entry is kept before being evicted.
    retention: Duration,
    /// Buffered video frames, oldest first.
    frames: VecDeque<TimestampedFrame>,
    /// Buffered audio chunks, oldest first.
    audio: VecDeque<TimestampedAudio>,
}

impl RingBuffer {
    /// How long an entry is kept.
    pub closed spec fn retention(&self) -> Duration {
        self.retention
    }

    /// The buffered frames, in the order they were pushed.
    pub closed spec fn frames(&self) -> Seq<TimestampedFrame> {
        self.frames@
    }

    /// The buffered audio chunks, in the order they were pushed.
    pub closed spec fn audio(&self) -> Seq<TimestampedAudio> {
        self.audio@
    }

    /// Creates an empty buffer that retains up to `retention` worth of frames and audio.
    pub fn new(retention: Duration) -> (r: RingBuffer)
        ensures
            r.retention() == retention,
            r.frames() == Seq::<TimestampedFrame>::empty(),
            r.audio() == Seq::<TimestampedAudio>::empty(),
    {
        RingBuffer { retention, frames: VecDeque::new(), audio: VecDeque::new() }
    }

    /// Appends a frame captured at `now` and evicts stale frames.
    pub fn push_frame_at(&mut self, image: RgbFrame, now: Instant)
        ensures
            final(self).retention() == old(self).retention(),
            final(self).audio() == old(self).audio(),
            final(self).frames() == retained(
                old(self).frames().push(
                    TimestampedFrame { timestamp: now, image: Arc::new(image) },
                ),
                now,
                old(self).retention(),
            ),
    {
        self.frames.push_back(TimestampedFrame { timestamp: now, image: Arc::new(image) });
        self.evict_frames(now);
    }

    /// Appends a newly captured frame, timestamped by the clock, and evicts
    /// stale frames.
    pub fn push_frame(&mut self, image: RgbFrame, clock: &Clock)
        ensures
            final(self).retention() == old(self).retention(),
            final(self).audio() == old(self).audio(),
            exists|now: Instant|
                now.nanos >= 0 && final(self).frames() == #[trigger] retained(
                    old(self).frames().push(
                        TimestampedFrame { timestamp: now, image: Arc::new(image) },
                    ),
                    now,
                    old(self).retention(),
                ),
    {
        let now: Instant = clock.now();
        self.push_frame_at(image, now);
    }

    /// Appends an audio chunk captured at `now` and evicts stale audio.
    pub fn push_audio_at(&mut self, samples: Vec<Single>, now: Instant)
        ensures
            final(self).retention() == old(self).retention(),
            final(self).frames() == old(self).frames(),
            final(self).audio() == retained(
                old(self).audio().push(
                    TimestampedAudio { timestamp: now, samples: Arc::new(samples) },
                ),
                now,
                old(self).retention(),
            ),
    {
        self.audio.push_back(TimestampedAudio { timestamp: now, samples: Arc::new(samples) });
        self.evict_audio(now);
    }

    /// Appends a newly captured audio chunk, timestamped by the clock, and
    /// evicts stale audio.
    pub fn push_audio(&mut self, samples: Vec<Single>, clock: &Clock)
        ensures
            final(self).retention() == old(self).retention(),
            final(self).frames() == old(self).frames(),
            exists|now: Instant|
                now.nanos >= 0 && final(self).audio() == #[trigger] retained(
                    old(self).audio().push(
                        TimestampedAudio { timestamp: now, samples: Arc::new(samples) },
                    ),
                    now,
                    old(self).retention(),
                ),
    {
        let now: Instant = clock.now();
        self.push_audio_at(samples, now);
    }

    /// Drops frames older than the retention relative to `now`.
    fn evict_frames(&mut self, now: Instant)
        ensures
            final(self).retention == old(self).retention,
            final(self).audio == old(self).audio,
            final(self).frames@ == retained(old(self).frames@, now, old(self).retention),
    {
        evict(&mut self.frames, now, self.retention);
    }

    /// Drops audio chunks older than the retention relative to `now`.
    fn evict_audio(&mut self, now: Instant)
        ensures
            final(self).retention == old(self).retention,
            final(self).frames == old(self).frames,
            final(self).audio@ == retained(old(self).audio@, now, old(self).retention),
    {
        evict(&mut self.audio, now, self.retention);
    }

    /// Everything currently buffered, oldest first. Seeds a new recording with
    /// the pre-event window when a trigger fires.
    pub fn snapshot(&self) -> (r: (Vec<TimestampedFrame>, Vec<TimestampedAudio>))
        ensures
            r.0@ == self.frames(),
            r.1@ == self.audio(),
    {
        (all_of(&self.frames), all_of(&self.audio))
    }

    /// The most recently pushed frame, if any.
    pub fn latest_frame(&self) -> (r: Option<&TimestampedFrame>)
        ensures
            match r {
                Some(frame) => self.frames().len() > 0 && *frame == self.frames().last(),
                None => self.frames().len() == 0,
            },
    {
        if self.frames.len() == 0 {
            None
        } else {
            Some(&self.frames[self.frames.len() - 1])
        }
    }

    /// Frames pushed with a timestamp strictly after `since_ts`, oldest first.
    /// Draining every one of them, not only the latest, keeps a recording free
    /// of jumps.
    pub fn frames_since(&self, since_ts: Instant) -> (r: Vec<TimestampedFrame>)
        ensures
            r@ == newer(self.frames(), since_ts),
    {
        since(&self.frames, since_ts)
    }

    /// Audio chunks pushed with a timestamp strictly after `since_ts`, oldest first.
    pub fn audio_since(&self, since_ts: Instant) -> (r: Vec<TimestampedAudio>)
        ensures
            r@ == newer(self.audio(), since_ts),
    {
        since(&self.audio, since_ts)
    }
}

/// Evicting drops a prefix and nothing else.
pub proof fn retained_is_a_suffix<T: Timestamped>(
    entries: Seq<T>,
    now: Instant,
    retention: Duration,
)
    ensures
        retained(entries, now, retention).len() <= entries.len(),
        retained(entries, now, retention) == entries.skip(
            entries.len() - retained(entries, now, retention).len(),
        ),
    decreases entries.len(),
{
    if entries.len() > 0 && stale(entries[0], now, retention) {
        let rest = entries.drop_first();
        retained_is_a_suffix(rest, now, retention);
        let kept = retained(rest, now, retention);
        assert(rest.skip(rest.len() - kept.len()) =~= entries.skip(entries.len() - kept.len()));
    } else {
        assert(entries.skip(0) =~= entries);
    }
}

/// After a push the buffer ends in the entry that was pushed, however short
/// the retention.
pub proof fn pushed_entry_is_retained<T: Timestamped>(
    entries: Seq<T>,
    entry: T,
    retention: Duration,
)
    ensures
        retained(entries.push(entry), entry.stamp(), retention).len() > 0,
        retained(entries.push(entry), entry.stamp(), retention).last() == entry,
    decreases entries.len(),
{
    let pushed = entries.push(entry);
    if entries.len() > 0 {
        assert(pushed.drop_first() =~= entries.drop_first().push(entry));
        pushed_entry_is_retained(entries.drop_first(), entry, retention);
    }
}

/// In a buffer that is in time order, evicting keeps exactly the entries
/// within the retention.
pub proof fn retained_keeps_exactly_the_window<T: Timestamped>(
    entries: Seq<T>,
    now: Instant,
    retention: Duration,
)
    requires
        oldest_first(entries),
    ensures
        retained(entries, now, retention) == entries.filter(
            |entry: T| !stale(entry, now, retention),
        ),
    decreases entries.len(),
{
    let fresh = |entry: T| !stale(entry, now, retention);
    reveal(Seq::filter);
    if entries.len() > 0 {
        let first = seq![entries[0]];
        let rest = entries.drop_first();
        assert(entries =~= first + rest);
        assert(first.drop_last() =~= Seq::<T>::empty());
        Seq::filter_distributes_over_add(first, rest, fresh);
        if stale(entries[0], now, retention) {
            assert(oldest_first(rest)) by {
                assert forall|i: int, j: int| 0 <= i < j < rest.len() implies (
                #[trigger] rest[i]).stamp().nanos <= (#[trigger] rest[j]).stamp().nanos by {
                    assert(entries[i + 1].stamp().nanos <= entries[j + 1].stamp().nanos);
                }
            }
            retained_keeps_exactly_the_window(rest, now, retention);
            none_pass_filter(first, fresh);
            assert(Seq::<T>::empty() + rest.filter(fresh) =~= rest.filter(fresh));
        } else {
            all_pass_filter(entries, fresh);
        }
    }
}

/// A filter that every entry passes changes nothing.
proof fn all_pass_filter<T>(entries: Seq<T>, keep: spec_fn(T) -> bool)
    requires
        forall|i: int| 0 <= i < entries.len() ==> keep(#[trigger] entries[i]),
    ensures
        entries.filter(keep) == entries,
    decreases entries.len(),
{
    reveal(Seq::filter);
    if entries.len() > 0 {
        let init = entries.drop_last();
        assert forall|i: int| 0 <= i < init.len() implies keep(#[trigger] init[i]) by {
            assert(keep(entries[i]));
        }
        all_pass_filter(init, keep);
        assert(init.push(entries.last()) =~= entries);
    }
}

/// A filter that no entry passes leaves nothing.
proof fn none_pass_filter<T>(entries: Seq<T>, keep: spec_fn(T) -> bool)
    requires
        forall|i: int| 0 <= i < entries.len() ==> !keep(#[trigger] entries[i]),
    ensures
        entries.filter(keep) == Seq::<T>::empty(),
    decreases entries.len(),
{
    reveal(Seq::filter);
    if entries.len() > 0 {
        let init = entries.drop_last();
        assert forall|i: int| 0 <= i < init.len() implies !keep(#[trigger] init[i]) by {
            assert(!keep(entries[i]));
        }
        none_pass_filter(init, keep);
    }
}

/// A buffer that is in time order stays so when an entry is pushed that is no
/// older than the newest one.
pub proof fn push_keeps_time_order<T: Timestamped>(entries: Seq<T>, entry: T, retention: Duration)
    requires
        oldest_first(entries),
        entries.len() > 0 ==> entries.last().stamp().nanos <= entry.stamp().nanos,
    ensures
        oldest_first(retained(entries.push(entry), entry.stamp(), retention)),
{
    let pushed = entries.push(entry);
    assert forall|i: int, j: int| 0 <= i < j < pushed.len() implies (
    #[trigger] pushed[i]).stamp().nanos <= (#[trigger] pushed[j]).stamp().nanos by {
        if j == entries.len() {
            if i < entries.len() - 1 {
                assert(entries[i].stamp().nanos <= entries[entries.len() - 1].stamp().nanos);
            }
        } else {
            assert(entries[i].stamp().nanos <= entries[j].stamp().nanos);
        }
    }
    let kept = retained(pushed, entry.stamp(), retention);
    retained_is_a_suffix(pushed, entry.stamp(), retention);
    let dropped = pushed.len() - kept.len();
    assert forall|i: int, j: int| 0 <= i < j < kept.len() implies (
    #[trigger] kept[i]).stamp().nanos <= (#[trigger] kept[j]).stamp().nanos by {
        assert(pushed[i + dropped].stamp().nanos <= pushed[j + dropped].stamp().nanos);
    }
}

/// Nothing in a buffer in time order is newer than its newest entry.
pub proof fn nothing_newer_than_the_newest<T: Timestamped>(entries: Seq<T>)
    requires
        oldest_first(entries),
        entries.len() > 0,
    ensures
        newer(entries, entries.last().stamp()) == Seq::<T>::empty(),
{
    let last = entries.last().stamp();
    assert forall|i: int| 0 <= i < entries.len() implies !((#[trigger] entries[i]).stamp().nanos
        > last.nanos) by {
        if i < entries.len() - 1 {
            assert(entries[i].stamp().nanos <= entries[entries.len() - 1].stamp().nanos);
        }
    }
    none_pass_filter(entries, |entry: T| entry.stamp().nanos > last.nanos);
}

/// Two drains in a row hand out every entry once: the second, asking from the
/// newest entry of the first, gives exactly what arrived in between.
pub proof fn consecutive_drains_neither_skip_nor_repeat<T: Timestamped>(
    entries: Seq<T>,
    arrived: Seq<T>,
    from: Instant,
)
    requires
        oldest_first(entries),
        newer(entries, from).len() > 0,
        forall|i: int|
            0 <= i < arrived.len() ==> (#[trigger] arrived[i]).stamp().nanos
                > entries.last().stamp().nanos,
    ensures
        newer(entries, from).last() == entries.last(),
        newer(entries + arrived, newer(entries, from).last().stamp()) == arrived,
        newer(entries + arrived, from) == newer(entries, from) + arrived,
{
    reveal(Seq::filter);
    let last = entries.last().stamp();
    let after_from = |entry: T| entry.stamp().nanos > from.nanos;
    let after_last = |entry: T| entry.stamp().nanos > last.nanos;
    if !after_from(entries.last()) {
        assert forall|i: int| 0 <= i < entries.len() implies !after_from(#[trigger] entries[i]) by {
            if i < entries.len() - 1 {
                assert(entries[i].stamp().nanos <= entries[entries.len() - 1].stamp().nanos);
            }
        }
        none_pass_filter(entries, after_from);
        assert(false);
    }
    nothing_newer_than_the_newest(entries);
    Seq::filter_distributes_over_add(entries, arrived, after_from);
    Seq::filter_distributes_over_add(entries, arrived, after_last);
    all_pass_filter(arrived, after_from);
    all_pass_filter(arrived, after_last);
    assert(Seq::<T>::empty() + arrived =~= arrived);
}

/// Eviction never takes what a drain has still to hand out, as long as the
/// previous drain is no further back than the retention.
pub proof fn eviction_spares_undrained_entries<T: Timestamped>(
    entries: Seq<T>,
    drained_to: Instant,
    now: Instant,
    retention: Duration,
)
    requires
        now.since(drained_to) <= retention.nanos,
    ensures
        newer(retained(entries, now, retention), drained_to) == newer(entries, drained_to),
    decreases entries.len(),
{
    reveal(Seq::filter);
    if entries.len() > 0 && stale(entries[0], now, retention) {
        let rest = entries.drop_first();
        let keep = |entry: T| entry.stamp().nanos > drained_to.nanos;
        eviction_spares_undrained_entries(rest, drained_to, now, retention);
        assert(entries =~= seq![entries[0]] + rest);
        Seq::filter_distributes_over_add(seq![entries[0]], rest, keep);
        none_pass_filter(seq![entries[0]], keep);
        assert(Seq::<T>::empty() + rest.filter(keep) =~= rest.filter(keep));
    }
}

/// In a buffer that is in time order, an entry stays if and only if it was
/// captured no longer before `now` than the retention.
pub proof fn entries_stay_for_the_retention<T: Timestamped>(
    entries: Seq<T>,
    now: Instant,
    retention: Duration,
)
    requires
        oldest_first(entries),
    ensures
        forall|i: int|
            0 <= i < entries.len() ==> {
                let dropped = entries.len() - retained(entries, now, retention).len();
                (i >= dropped) == (now.nanos - (#[trigger] entries[i]).stamp().nanos
                    <= retention.nanos)
            },
    decreases entries.len(),
{
    if entries.len() > 0 {
        let rest = entries.drop_first();
        if stale(entries[0], now, retention) {
            assert(oldest_first(rest)) by {
                assert forall|i: int, j: int| 0 <= i < j < rest.len() implies (
                #[trigger] rest[i]).stamp().nanos <= (#[trigger] rest[j]).stamp().nanos by {
                    assert(entries[i + 1].stamp().nanos <= entries[j + 1].stamp().nanos);
                }
            }
            entries_stay_for_the_retention(rest, now, retention);
            retained_is_a_suffix(rest, now, retention);
            let kept = retained(rest, now, retention).len();
            assert forall|i: int| 0 <= i < entries.len() implies (i >= entries.len() - kept) == (
            now.nanos - (#[trigger] entries[i]).stamp().nanos <= retention.nanos) by {
                if i > 0 {
                    assert(rest[i - 1] == entries[i]);
                }
            }
        } else {
            assert forall|i: int| 0 <= i < entries.len() implies now.nanos - (
            #[trigger] entries[i]).stamp().nanos <= retention.nanos by {
                if i > 0 {
                    assert(entries[0].stamp().nanos <= entries[i].stamp().nanos);
                }
            }
        }
    }
}

/// A drain looks at every entry by itself: it hands out each that was captured
/// after the given moment, and no other, in their order.
pub proof fn drain_looks_at_each_entry<T: Timestamped>(
    entries: Seq<T>,
    more: Seq<T>,
    entry: T,
    since: Instant,
)
    ensures
        newer(entries + more, since) == newer(entries, since) + newer(more, since),
        newer(Seq::<T>::empty(), since).len() == 0,
        entry.stamp().nanos > since.nanos ==> newer(seq![entry], since) == seq![entry],
        entry.stamp().nanos <= since.nanos ==> newer(seq![entry], since).len() == 0,
{
    let after = |entry: T| entry.stamp().nanos > since.nanos;
    Seq::filter_distributes_over_add(entries, more, after);
    none_pass_filter(Seq::<T>::empty(), after);
    if after(entry) {
        all_pass_filter(seq![entry], after);
    } else {
        none_pass_filter(seq![entry], after);
    }
}

} // verus!
