use vstd::prelude::*;
use crate::options::Settings;
use crate::topology::{Names, NamesView};

verus! {

/// One consumer worker to start: the queue it consumes and its index among
/// the workers of that queue.
#[derive(Clone, Debug, PartialEq, Eq)]
pub struct Assignment {
    pub queue: String,
    pub index: usize,
}

/// The queue that worker `k` of the pool consumes, and its index there: the
/// first `consumers` workers take the first queue, the next ones the second.
pub open spec fn assignment_of(names: NamesView, consumers: nat, k: int) -> (Seq<char>, int) {
    if k < consumers {
        (names.first_queue, k)
    } else {
        (names.second_queue, k - consumers)
    }
}

/// How many workers the pool holds: `consumers` for each queue in use.
pub open spec fn pool_size(s: Settings) -> nat {
    if s.fanout {
        (2 * s.consumers) as nat
    } else {
        s.consumers as nat
    }
}

/// The workers to start: `consumers` on the first queue and, under fan-out,
/// as many again on the second.
pub fn worker_assignments(names: &Names, s: &Settings) -> (r: Vec<Assignment>)
    requires
        s.fanout ==> 2 * s.consumers <= usize::MAX,
    ensures
        r@.len() == pool_size(*s),
        forall|k: int|
            0 <= k < r@.len() ==> ((#[trigger] r@[k]).queue@, r@[k].index as int) == assignment_of(
                names@,
                s.consumers as nat,
                k,
            ),
{
    let mut r: Vec<Assignment> = Vec::new();
    let mut i: usize = 0;
    while i < s.consumers
        invariant
            i <= s.consumers,
            r@.len() == i,
            forall|k: int|
                0 <= k < r@.len() ==> ((#[trigger] r@[k]).queue@, r@[k].index as int)
                    == assignment_of(names@, s.consumers as nat, k),
        decreases s.consumers - i,
    {
        r.push(Assignment { queue: names.first_queue.clone(), index: i });
        i = i + 1;
    }
    if s.fanout {
        let mut j: usize = 0;
        while j < s.consumers
            invariant
                s.fanout,
                2 * s.consumers <= usize::MAX,
                j <= s.consumers,
                r@.len() == s.consumers + j,
                forall|k: int|
                    0 <= k < r@.len() ==> ((#[trigger] r@[k]).queue@, r@[k].index as int)
                        == assignment_of(names@, s.consumers as nat, k),
            decreases s.consumers - j,
        {
            r.push(Assignment { queue: names.second_queue.clone(), index: j });
            j = j + 1;
        }
    }
    r
}

/// Where a worker stands.
#[derive(Clone, Copy, Debug, PartialEq, Eq, Structural)]
pub enum WorkerPhase {
    /// Not yet consuming.
    Idle,
    /// Waiting for the next delivery.
    Consuming,
    /// Working on the delivery with this tag.
    Handling { tag: u64 },
    /// Acknowledging the delivery with this tag.
    Acknowledging { tag: u64 },
    /// Stopped for good.
    Stopped,
}

/// What happened since the worker's last action.
#[derive(Clone, Copy, Debug, PartialEq, Eq, Structural)]
pub enum WorkerEvent {
    /// The worker's channel is open and its topology declared.
    Ready,
    /// The broker handed over a delivery.
    Delivered { tag: u64 },
    /// The simulated task is over.
    TaskDone,
    /// The acknowledgment was sent.
    AckSent,
    /// A stop was asked for; it takes effect between deliveries.
    StopRequested,
}

/// What the caller does next for this worker.
#[derive(Clone, Debug, PartialEq, Eq)]
pub enum WorkerAction {
    /// Set the prefetch limit if there is one, then consume `queue`;
    /// with `no_ack` the broker counts each delivery as acknowledged at once.
    Subscribe { queue: String, no_ack: bool, prefetch: Option<u16> },
    /// Log the start of the work on a delivery and spend `seconds` on it.
    BeginTask { tag: u64, seconds: u64 },
    /// Log the end of the work, acknowledge the delivery if `ack` holds
    /// its tag, and close the channel if `stop` holds.
    FinishTask { ack: Option<u64>, stop: bool },
    /// Close the worker's channel and connection.
    Close,
    /// Nothing to do.
    Nothing,
}

pub enum WorkerActionView {
    Subscribe { queue: Seq<char>, no_ack: bool, prefetch: Option<u16> },
    BeginTask { tag: u64, seconds: u64 },
    FinishTask { ack: Option<u64>, stop: bool },
    Close,
    Nothing,
}

impl View for WorkerAction {
    type V = WorkerActionView;

    open spec fn view(&self) -> WorkerActionView {
        match self {
            WorkerAction::Subscribe { queue, no_ack, prefetch } => WorkerActionView::Subscribe {
                queue: queue@,
                no_ack: *no_ack,
                prefetch: *prefetch,
            },
            WorkerAction::BeginTask { tag, seconds } => WorkerActionView::BeginTask {
                tag: *tag,
                seconds: *seconds,
            },
            WorkerAction::FinishTask { ack, stop } => WorkerActionView::FinishTask {
                ack: *ack,
                stop: *stop,
            },
            WorkerAction::Close => WorkerActionView::Close,
            WorkerAction::Nothing => WorkerActionView::Nothing,
        }
    }
}

/// How long the simulated task on each delivery lasts, in seconds.
pub const TASK_SECONDS: u64 = 3;

/// What a worker is, as the broker and its caller see it.
pub struct WorkerState {
    pub phase: WorkerPhase,
    /// Deliveries received and not yet acknowledged.
    pub unacked: nat,
    /// A stop was asked for and has not yet taken effect.
    pub stop_requested: bool,
}

/// The prefetch limit to ask for on the channel: none when it is 0.
pub open spec fn prefetch_of(prefetch_count: u16) -> Option<u16> {
    if prefetch_count == 0 {
        None
    } else {
        Some(prefetch_count)
    }
}

/// Whether the broker may hand over another delivery.
pub open spec fn window_open(prefetch_count: u16, unacked: nat) -> bool {
    prefetch_count == 0 || unacked < prefetch_count
}

/// One step of a worker that consumes `queue`: the state and action that
/// follow an event.
pub open spec fn worker_step(
    queue: Seq<char>,
    manual_ack: bool,
    prefetch_count: u16,
    w: WorkerState,
    event: WorkerEvent,
) -> (WorkerState, WorkerActionView) {
    match (w.phase, event) {
        (WorkerPhase::Idle, WorkerEvent::Ready) => (
            WorkerState { phase: WorkerPhase::Consuming, ..w },
            WorkerActionView::Subscribe {
                queue,
                no_ack: !manual_ack,
                prefetch: prefetch_of(prefetch_count),
            },
        ),
        (WorkerPhase::Consuming, WorkerEvent::Delivered { tag }) => if window_open(
            prefetch_count,
            w.unacked,
        ) {
            (
                WorkerState {
                    phase: WorkerPhase::Handling { tag },
                    unacked: if manual_ack {
                        w.unacked + 1
                    } else {
                        w.unacked
                    },
                    ..w
                },
                WorkerActionView::BeginTask { tag, seconds: TASK_SECONDS },
            )
        } else {
            (w, WorkerActionView::Nothing)
        },
        (WorkerPhase::Handling { tag }, WorkerEvent::TaskDone) => if manual_ack {
            (
                WorkerState { phase: WorkerPhase::Acknowledging { tag }, ..w },
                WorkerActionView::FinishTask { ack: Some(tag), stop: false },
            )
        } else if w.stop_requested {
            (
                WorkerState { phase: WorkerPhase::Stopped, stop_requested: false, ..w },
                WorkerActionView::FinishTask { ack: None, stop: true },
            )
        } else {
            (
                WorkerState { phase: WorkerPhase::Consuming, ..w },
                WorkerActionView::FinishTask { ack: None, stop: false },
            )
        },
        (WorkerPhase::Acknowledging { .. }, WorkerEvent::AckSent) => {
            let unacked = if w.unacked > 0 {
                (w.unacked - 1) as nat
            } else {
                0
            };
            if w.stop_requested {
                (
                    WorkerState { phase: WorkerPhase::Stopped, unacked, stop_requested: false },
                    WorkerActionView::Close,
                )
            } else {
                (
                    WorkerState { phase: WorkerPhase::Consuming, unacked, ..w },
                    WorkerActionView::Nothing,
                )
            }
        },
        (WorkerPhase::Idle, WorkerEvent::StopRequested) => (
            WorkerState { phase: WorkerPhase::Stopped, ..w },
            WorkerActionView::Nothing,
        ),
        (WorkerPhase::Consuming, WorkerEvent::StopRequested) => (
            WorkerState { phase: WorkerPhase::Stopped, ..w },
            WorkerActionView::Close,
        ),
        (WorkerPhase::Handling { .. }, WorkerEvent::StopRequested) => (
            WorkerState { stop_requested: true, ..w },
            WorkerActionView::Nothing,
        ),
        (WorkerPhase::Acknowledging { .. }, WorkerEvent::StopRequested) => (
            WorkerState { stop_requested: true, ..w },
            WorkerActionView::Nothing,
        ),
        _ => (w, WorkerActionView::Nothing),
    }
}

/// The states a worker can reach: in each, the unacknowledged deliveries
/// are those of the task under way, if acknowledgment is by hand.
pub open spec fn worker_wf(manual_ack: bool, w: WorkerState) -> bool {
    match w.phase {
        WorkerPhase::Handling { .. } => w.unacked == (if manual_ack {
            1nat
        } else {
            0nat
        }),
        WorkerPhase::Acknowledging { .. } => manual_ack && w.unacked == 1,
        _ => w.unacked == 0,
    }
}

/// A consumer worker of one queue.
pub struct Worker {
    queue: String,
    index: usize,
    manual_ack: bool,
    prefetch_count: u16,
    phase: WorkerPhase,
    unacked: u64,
    stop_requested: bool,
}

impl Worker {
    pub closed spec fn spec_queue(&self) -> Seq<char> {
        self.queue@
    }

    pub closed spec fn spec_index(&self) -> usize {
        self.index
    }

    pub closed spec fn spec_manual_ack(&self) -> bool {
        self.manual_ack
    }

    pub closed spec fn spec_prefetch(&self) -> u16 {
        self.prefetch_count
    }

    pub closed spec fn spec_state(&self) -> WorkerState {
        WorkerState {
            phase: self.phase,
            unacked: self.unacked as nat,
            stop_requested: self.stop_requested,
        }
    }

    pub open spec fn wf(&self) -> bool {
        worker_wf(self.spec_manual_ack(), self.spec_state())
    }

    /// An idle worker for one assignment, acknowledging by hand when the
    /// settings ask for it and with their prefetch limit.
    pub fn new(a: &Assignment, s: &Settings) -> (r: Worker)
        ensures
            r.spec_queue() == a.queue@,
            r.spec_index() == a.index,
            r.spec_manual_ack() == s.enable_ack,
            r.spec_prefetch() == s.prefetch_count,
            r.spec_state() == (WorkerState {
                phase: WorkerPhase::Idle,
                unacked: 0,
                stop_requested: false,
            }),
            r.wf(),
    {
        Worker {
            queue: a.queue.clone(),
            index: a.index,
            manual_ack: s.enable_ack,
            prefetch_count: s.prefetch_count,
            phase: WorkerPhase::Idle,
            unacked: 0,
            stop_requested: false,
        }
    }

    /// The queue this worker consumes.
    pub fn queue(&self) -> (r: &str)
        ensures
            r@ == self.spec_queue(),
    {
        self.queue.as_str()
    }

    /// The worker's index among the workers of its queue.
    pub fn index(&self) -> (r: usize)
        ensures
            r == self.spec_index(),
    {
        self.index
    }

    pub fn phase(&self) -> (r: WorkerPhase)
        ensures
            r == self.spec_state().phase,
    {
        self.phase
    }

    /// Deliveries received and not yet acknowledged.
    pub fn unacked(&self) -> (r: u64)
        ensures
            r == self.spec_state().unacked,
    {
        self.unacked
    }

    /// Takes one event and says what to do next.
    pub fn step(&mut self, event: WorkerEvent) -> (r: WorkerAction)
        requires
            old(self).wf(),
        ensures
            (final(self).spec_state(), r@) == worker_step(
                old(self).spec_queue(),
                old(self).spec_manual_ack(),
                old(self).spec_prefetch(),
                old(self).spec_state(),
                event,
            ),
            final(self).wf(),
            final(self).spec_queue() == old(self).spec_queue(),
            final(self).spec_index() == old(self).spec_index(),
            final(self).spec_manual_ack() == old(self).spec_manual_ack(),
            final(self).spec_prefetch() == old(self).spec_prefetch(),
    {
        match (self.phase, event) {
            (WorkerPhase::Idle, WorkerEvent::Ready) => {
                self.phase = WorkerPhase::Consuming;
                WorkerAction::Subscribe {
                    queue: self.queue.clone(),
                    no_ack: !self.manual_ack,
                    prefetch: if self.prefetch_count == 0 {
                        None
                    } else {
                        Some(self.prefetch_count)
                    },
                }
            },
            (WorkerPhase::Consuming, WorkerEvent::Delivered { tag }) => {
                if self.prefetch_count == 0 || self.unacked < self.prefetch_count as u64 {
                    self.phase = WorkerPhase::Handling { tag };
                    if self.manual_ack {
                        self.unacked = self.unacked + 1;
                    }
                    WorkerAction::BeginTask { tag, seconds: TASK_SECONDS }
                } else {
                    WorkerAction::Nothing
                }
            },
            (WorkerPhase::Handling { tag }, WorkerEvent::TaskDone) => {
                if self.manual_ack {
                    self.phase = WorkerPhase::Acknowledging { tag };
                    WorkerAction::FinishTask { ack: Some(tag), stop: false }
                } else if self.stop_requested {
                    self.phase = WorkerPhase::Stopped;
                    self.stop_requested = false;
                    WorkerAction::FinishTask { ack: None, stop: true }
                } else {
                    self.phase = WorkerPhase::Consuming;
                    WorkerAction::FinishTask { ack: None, stop: false }
                }
            },
            (WorkerPhase::Acknowledging { .. }, WorkerEvent::AckSent) => {
                if self.unacked > 0 {
                    self.unacked = self.unacked - 1;
                }
                if self.stop_requested {
                    self.phase = WorkerPhase::Stopped;
                    self.stop_requested = false;
                    WorkerAction::Close
                } else {
                    self.phase = WorkerPhase::Consuming;
                    WorkerAction::Nothing
                }
            },
            (WorkerPhase::Idle, WorkerEvent::StopRequested) => {
                self.phase = WorkerPhase::Stopped;
                WorkerAction::Nothing
            },
            (WorkerPhase::Consuming, WorkerEvent::StopRequested) => {
                self.phase = WorkerPhase::Stopped;
                WorkerAction::Close
            },
            (WorkerPhase::Handling { .. }, WorkerEvent::StopRequested) => {
                self.stop_requested = true;
                WorkerAction::Nothing
            },
            (WorkerPhase::Acknowledging { .. }, WorkerEvent::StopRequested) => {
                self.stop_requested = true;
                WorkerAction::Nothing
            },
            _ => WorkerAction::Nothing,
        }
    }
}

/// Flow control: a worker asks for its prefetch limit when it subscribes,
/// and from every reachable state, whatever happens next, it holds at most
/// that many unacknowledged deliveries, for any limit above 0.
pub proof fn lemma_prefetch_bound(
    queue: Seq<char>,
    manual_ack: bool,
    prefetch_count: u16,
    w: WorkerState,
    event: WorkerEvent,
)
    requires
        worker_wf(manual_ack, w),
    ensures
        worker_wf(manual_ack, worker_step(queue, manual_ack, prefetch_count, w, event).0),
        prefetch_count > 0 ==> w.unacked <= prefetch_count,
        prefetch_count > 0 ==> worker_step(queue, manual_ack, prefetch_count, w, event).0.unacked
            <= prefetch_count,
        worker_step(queue, manual_ack, prefetch_count, w, event).1 matches WorkerActionView::Subscribe {
            prefetch,
            no_ack,
            ..
        } ==> prefetch == prefetch_of(prefetch_count) && no_ack == !manual_ack,
{
}

} // verus!
