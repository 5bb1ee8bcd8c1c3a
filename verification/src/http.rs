//! The transfer manager's consumer side: folding the stream of progress
//! events into the transfer's state.  The network read loop that produces
//! the events, and the visible progress indicator, are the caller's task.

use vstd::prelude::*;

verus! {

/// One event of a running transfer, as the producer emits them.
#[derive(Clone, Debug)]
pub enum ProgressInfo {
    /// The transfer begins; the total byte count, or zero when unknown.
    Start(u64),
    Progress { current: u64, total: Option<u64> },
    Complete(),
    Error(String),
}

/// The errors of the transfer layer, with plain payloads.
#[derive(Clone, Debug)]
pub enum HttpError {
    Http(String),
    FileSystem(String),
    General(String),
}

/// What the consumer knows after the events seen so far.
#[derive(Clone, Debug)]
pub enum TransferState {
    Pending,
    Running { current: u64, total: u64 },
    Complete,
    Failed { message: String },
}

/// One consumer step: a start event opens the running state, progress
/// updates the position, completion and error end it; the two terminal
/// states absorb everything after them.
pub open spec fn spec_transfer_step(state: TransferState, info: ProgressInfo) -> TransferState {
    match state {
        TransferState::Complete => state,
        TransferState::Failed { .. } => state,
        _ => match info {
            ProgressInfo::Start(total) => TransferState::Running { current: 0, total },
            ProgressInfo::Progress { current, total } => match state {
                TransferState::Running { current: _, total: t } => TransferState::Running {
                    current,
                    total: t,
                },
                _ => state,
            },
            ProgressInfo::Complete() => TransferState::Complete,
            ProgressInfo::Error(message) => TransferState::Failed { message },
        },
    }
}

pub fn transfer_step(state: &TransferState, info: &ProgressInfo) -> (r: TransferState)
    ensures
        r == spec_transfer_step(*state, *info),
{
    match state {
        TransferState::Complete => TransferState::Complete,
        TransferState::Failed { message } => TransferState::Failed { message: message.clone() },
        _ => match info {
            ProgressInfo::Start(total) => TransferState::Running { current: 0, total: *total },
            ProgressInfo::Progress { current, total: _ } => match state {
                TransferState::Running { current: _, total: t } => TransferState::Running {
                    current: *current,
                    total: *t,
                },
                TransferState::Pending => TransferState::Pending,
                _ => TransferState::Pending,
            },
            ProgressInfo::Complete() => TransferState::Complete,
            ProgressInfo::Error(message) => TransferState::Failed { message: message.clone() },
        },
    }
}

/// The state after draining a whole event sequence, in order.
pub open spec fn spec_run_transfer(events: Seq<ProgressInfo>) -> TransferState
    decreases events.len(),
{
    if events.len() == 0 {
        TransferState::Pending
    } else {
        spec_transfer_step(spec_run_transfer(events.drop_last()), events.last())
    }
}

pub fn run_transfer(events: &Vec<ProgressInfo>) -> (r: TransferState)
    ensures
        r == spec_run_transfer(events@),
{
    let mut state = TransferState::Pending;
    let mut i: usize = 0;
    proof {
        assert(events@.subrange(0, 0) =~= Seq::<ProgressInfo>::empty());
    }
    while i < events.len()
        invariant
            i <= events@.len(),
            state == spec_run_transfer(events@.subrange(0, i as int)),
        decreases events@.len() - i,
    {
        proof {
            assert(events@.subrange(0, i + 1).drop_last() =~= events@.subrange(0, i as int));
            assert(events@.subrange(0, i + 1).last() == events@[i as int]);
        }
        state = transfer_step(&state, &events[i]);
        i += 1;
    }
    proof {
        assert(events@.subrange(0, events@.len() as int) =~= events@);
    }
    state
}

} // verus!
