//! What the writer thread does next.

use vstd::prelude::*;

verus! {

/// Steps of the writer thread.
#[derive(Clone, Copy, Debug, PartialEq, Eq, Structural)]
pub enum WriterTask {
    /// Look for a shutdown request.
    Look,
    /// Sleep until the next poll.
    Sleep,
    /// Write new footage into the recording in progress.
    Drain,
    /// Write what was captured up to the shutdown request. The detection loop
    /// may be busy and not have closed the clip yet.
    LastDrain,
    /// Tell the detection loop that nothing more will be written.
    Signal,
    /// End the thread.
    Stop,
}

/// The step after `task`. `shutdown` is whether a shutdown was requested,
/// which matters only where one is looked for.
pub open spec fn task_after(task: WriterTask, shutdown: bool) -> WriterTask {
    match task {
        WriterTask::Look => if shutdown {
            WriterTask::LastDrain
        } else {
            WriterTask::Sleep
        },
        WriterTask::Sleep => WriterTask::Drain,
        WriterTask::Drain => WriterTask::Look,
        WriterTask::LastDrain => WriterTask::Signal,
        WriterTask::Signal => WriterTask::Stop,
        WriterTask::Stop => WriterTask::Stop,
    }
}

impl WriterTask {
    /// The step after this one.
    pub fn next(self, shutdown: bool) -> (r: WriterTask)
        ensures
            r == task_after(self, shutdown),
    {
        match self {
            WriterTask::Look => {
                if shutdown {
                    WriterTask::LastDrain
                } else {
                    WriterTask::Sleep
                }
            },
            WriterTask::Sleep => WriterTask::Drain,
            WriterTask::Drain => WriterTask::Look,
            WriterTask::LastDrain => WriterTask::Signal,
            WriterTask::Signal => WriterTask::Stop,
            WriterTask::Stop => WriterTask::Stop,
        }
    }
}

/// The writer signals only after its last drain, and makes its last drain only
/// once a shutdown was requested; until then it goes on draining.
pub proof fn signal_follows_the_last_drain(task: WriterTask, shutdown: bool)
    ensures
        task_after(task, shutdown) == WriterTask::Signal ==> task == WriterTask::LastDrain,
        task_after(task, shutdown) == WriterTask::LastDrain ==> task == WriterTask::Look
            && shutdown,
        task_after(task, shutdown) == WriterTask::Stop ==> task == WriterTask::Signal || task
            == WriterTask::Stop,
{
}

/// The step that the writer has come to after as many looks, each with what
/// was seen of a shutdown request.
pub open spec fn task_reached(seen: Seq<bool>) -> WriterTask
    decreases seen.len(),
{
    if seen.len() == 0 {
        WriterTask::Look
    } else {
        task_after(task_reached(seen.drop_last()), seen.last())
    }
}

/// Without a shutdown request the writer goes round and round, sleeping and
/// draining once in each round.
pub proof fn writer_drains_once_a_round(seen: Seq<bool>)
    requires
        forall|i: int| 0 <= i < seen.len() ==> !#[trigger] seen[i],
    ensures
        task_reached(seen) == if seen.len() % 3 == 0 {
            WriterTask::Look
        } else if seen.len() % 3 == 1 {
            WriterTask::Sleep
        } else {
            WriterTask::Drain
        },
    decreases seen.len(),
{
    if seen.len() > 0 {
        let init = seen.drop_last();
        assert forall|i: int| 0 <= i < init.len() implies !#[trigger] init[i] by {
            assert(!seen[i]);
        }
        writer_drains_once_a_round(init);
        assert(!seen[seen.len() - 1]);
    }
}

/// Once a request is seen, the writer drains a last time, signals, and stops
/// for good, whatever else it sees.
pub proof fn request_leads_to_the_signal(a: bool, b: bool, c: bool)
    ensures
        task_after(WriterTask::Look, true) == WriterTask::LastDrain,
        task_after(task_after(WriterTask::Look, true), a) == WriterTask::Signal,
        task_after(task_after(task_after(WriterTask::Look, true), a), b) == WriterTask::Stop,
        task_after(WriterTask::Stop, c) == WriterTask::Stop,
{
}

} // verus!
