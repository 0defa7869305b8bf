//! The dispatch queue: buffers and serializes every metric-mutating call.
//!
//! Callers enqueue describable command objects; a single drain executes
//! them in submission order.  Before initialization the buffer is bounded,
//! so a host that never finishes configuring the library cannot make it
//! grow without limit.

use vstd::prelude::*;
use crate::common::{CommonMetricData, MetricMeta};
use crate::error::ErrorType;
use crate::metric::{Metric, MetricModel, MergePolicy};
use crate::upload::bump64;

verus! {

/// The queue's lifecycle.  Only one initialization may succeed; a second
/// attempt is rejected and reported, not fatal.
#[derive(Clone, Copy, Debug, PartialEq, Eq, Structural)]
pub enum DispatcherState {
    /// Constructed, not yet accepting work.
    Uninitialized,
    /// Accepting tasks into the bounded pre-initialization buffer.
    Buffering,
    /// Executing the buffered backlog during initialization.
    Draining,
    /// Initialized; tasks queue without a bound and drain on demand.
    Live,
    /// Winding down; no new tasks are accepted.
    ShuttingDown,
    /// Terminated; every further task is rejected.
    Stopped,
}

/// One buffered operation: a tagged command with a plain payload, so the
/// backlog can be inspected, persisted and replayed.
#[derive(Debug)]
pub enum Task {
    /// Canonicalize nothing: record this value under the metric's
    /// identifier with the given merge policy.
    Record { meta: CommonMetricData, value: Metric, policy: MergePolicy },
    /// Validate this text as a structured payload on the worker, then
    /// record its canonical form; invalid text records an error instead.
    SetObjectRaw { meta: CommonMetricData, text: String },
    /// Count one error of the given kind against the metric.
    RecordError { meta: CommonMetricData, error: ErrorType },
    /// Snapshot, assemble and hand off one ping.
    Submit { ping_name: String, reason: String },
}

/// Model of a [`Task`].
pub enum TaskModel {
    Record { meta: MetricMeta, value: MetricModel, policy: MergePolicy },
    SetObjectRaw { meta: MetricMeta, text: Seq<char> },
    RecordError { meta: MetricMeta, error: ErrorType },
    Submit { ping_name: Seq<char>, reason: Seq<char> },
}

impl View for Task {
    type V = TaskModel;

    open spec fn view(&self) -> TaskModel {
        match self {
            Task::Record { meta, value, policy } => TaskModel::Record {
                meta: meta@,
                value: value@,
                policy: *policy,
            },
            Task::SetObjectRaw { meta, text } => TaskModel::SetObjectRaw {
                meta: meta@,
                text: text@,
            },
            Task::RecordError { meta, error } => TaskModel::RecordError {
                meta: meta@,
                error: *error,
            },
            Task::Submit { ping_name, reason } => TaskModel::Submit {
                ping_name: ping_name@,
                reason: reason@,
            },
        }
    }
}

impl DeepView for Task {
    type V = TaskModel;

    open spec fn deep_view(&self) -> TaskModel {
        self.view()
    }
}

/// How many tasks the pre-initialization buffer holds before it starts
/// dropping new ones.
pub const PREINIT_TASK_CAPACITY: usize = 100;

/// The dispatch queue.
#[derive(Debug)]
pub struct Dispatcher {
    state: DispatcherState,
    queue: Vec<Task>,
    overflow_count: u64,
    rejected_count: u64,
}

/// Model of a [`Dispatcher`].
#[verifier::ext_equal]
pub struct DispatcherModel {
    pub state: DispatcherState,
    pub queue: Seq<TaskModel>,
    /// Tasks dropped because the pre-initialization buffer was full.
    pub overflow_count: u64,
    /// Tasks rejected because the queue was not accepting work.
    pub rejected_count: u64,
}

impl View for Dispatcher {
    type V = DispatcherModel;

    closed spec fn view(&self) -> DispatcherModel {
        DispatcherModel {
            state: self.state,
            queue: self.queue.deep_view(),
            overflow_count: self.overflow_count,
            rejected_count: self.rejected_count,
        }
    }
}

/// What enqueueing `t` does: buffered while room remains before
/// initialization, dropped (and counted) on overflow, queued freely when
/// live, rejected (and counted) in every other state.
pub open spec fn enqueue_spec(m: DispatcherModel, t: TaskModel) -> DispatcherModel {
    match m.state {
        DispatcherState::Buffering => if m.queue.len() < PREINIT_TASK_CAPACITY as int {
            DispatcherModel { queue: m.queue.push(t), ..m }
        } else {
            DispatcherModel { overflow_count: bump64(m.overflow_count), ..m }
        },
        DispatcherState::Live => DispatcherModel { queue: m.queue.push(t), ..m },
        _ => DispatcherModel { rejected_count: bump64(m.rejected_count), ..m },
    }
}

impl Dispatcher {
    /// A fresh queue, not yet accepting work.
    pub fn new() -> (r: Self)
        ensures
            r@.state == DispatcherState::Uninitialized,
            r@.queue == Seq::<TaskModel>::empty(),
            r@.overflow_count == 0,
            r@.rejected_count == 0,
    {
        let r = Dispatcher {
            state: DispatcherState::Uninitialized,
            queue: Vec::new(),
            overflow_count: 0,
            rejected_count: 0,
        };
        proof {
            assert(r@.queue =~= Seq::<TaskModel>::empty());
        }
        r
    }

    /// Starts buffering pre-initialization tasks.
    pub(crate) fn open_buffering(&mut self)
        requires
            old(self)@.state == DispatcherState::Uninitialized,
        ensures
            final(self)@ == (DispatcherModel { state: DispatcherState::Buffering, ..old(self)@ }),
    {
        self.state = DispatcherState::Buffering;
    }

    /// Accepts, buffers, drops or rejects a task (see [`enqueue_spec`]);
    /// the caller is never blocked and never sees a failure.
    pub(crate) fn enqueue(&mut self, t: Task)
        ensures
            final(self)@ == enqueue_spec(old(self)@, t@),
    {
        match self.state {
            DispatcherState::Buffering => {
                if self.queue.len() < PREINIT_TASK_CAPACITY {
                    self.queue.push(t);
                    proof {
                        assert(self@.queue =~= old(self)@.queue.push(t@));
                    }
                } else {
                    if self.overflow_count < u64::MAX {
                        self.overflow_count += 1;
                    }
                }
            },
            DispatcherState::Live => {
                self.queue.push(t);
                proof {
                    assert(self@.queue =~= old(self)@.queue.push(t@));
                }
            },
            _ => {
                if self.rejected_count < u64::MAX {
                    self.rejected_count += 1;
                }
            },
        }
        proof {
            assert(self@ =~= enqueue_spec(old(self)@, t@));
        }
    }

    /// Hands the whole backlog to the drain, leaving the queue empty.
    pub(crate) fn take_pending(&mut self) -> (r: Vec<Task>)
        ensures
            r.deep_view() == old(self)@.queue,
            final(self)@ == (DispatcherModel { queue: Seq::<TaskModel>::empty(), ..old(self)@ }),
    {
        let mut taken: Vec<Task> = Vec::new();
        core::mem::swap(&mut taken, &mut self.queue);
        proof {
            assert(self@.queue =~= Seq::<TaskModel>::empty());
            assert(self@ =~= (DispatcherModel {
                queue: Seq::<TaskModel>::empty(),
                ..old(self)@
            }));
        }
        taken
    }

    /// The current lifecycle state.
    pub fn state(&self) -> (r: DispatcherState)
        ensures
            r == self@.state,
    {
        self.state
    }

    /// How many pre-initialization tasks were dropped on overflow.
    pub fn overflow_count(&self) -> (r: u64)
        ensures
            r == self@.overflow_count,
    {
        self.overflow_count
    }

    /// How many tasks were rejected outside the accepting states.
    pub fn rejected_count(&self) -> (r: u64)
        ensures
            r == self@.rejected_count,
    {
        self.rejected_count
    }

    /// How many tasks are waiting.
    pub fn pending_count(&self) -> (r: usize)
        ensures
            r == self@.queue.len(),
    {
        self.queue.len()
    }

    /// Moves to the next lifecycle state; the state machine steps are
    /// driven by the owning context.
    pub(crate) fn transition(&mut self, s: DispatcherState)
        ensures
            final(self)@ == (DispatcherModel { state: s, ..old(self)@ }),
    {
        self.state = s;
    }
}

} // verus!
