//! The polling state machine that coordinates one worker per invocation.
//!
//! The caller's thread never blocks: it starts a worker, then repeatedly makes
//! a non-blocking check of the single-slot channel and hands what it observed
//! to `poll`.  The machine moves from `Idle` through `Running` to a terminal
//! state — `Completed` when the worker's one message arrived, `Disconnected`
//! when the worker was lost without sending — and back to `Idle` once the
//! caller has consumed the terminal state.  Cancellation is weak by design:
//! it only turns the machine back toward `Idle`; a worker already blocked on
//! the interpreter runs to completion and its late message is dropped
//! unobserved.

use crate::report::{ExecutionOutcome, PipelineError};
use vstd::prelude::*;

verus! {

/// The wrap-around scale of the cosmetic progress indicator.
pub const PROGRESS_SCALE: u32 = 1000;

/// How far the progress indicator advances on each empty poll.
pub const PROGRESS_STEP: u32 = 5;

/// State of the coordinator between polls.
#[derive(Clone, Copy, Debug, PartialEq, Eq, Structural)]
pub enum CoordinatorState {
    /// No execution outstanding; `start` is legal.
    Idle,
    /// A worker is out; `poll` and `cancel` are legal.
    Running,
    /// The worker's terminal message was delivered to the caller.
    Completed,
    /// The worker was lost without sending; surfaced as a warning distinct
    /// from a normal failure report.
    Disconnected,
}

/// What one non-blocking check of the channel observed.
#[derive(Debug, PartialEq)]
pub enum ChannelEvent {
    /// Nothing pending yet.
    Empty,
    /// The worker's one terminal message.
    Received(Result<ExecutionOutcome, PipelineError>),
    /// The sending side is gone without a message.
    Disconnected,
}

/// What `poll` hands the caller.
#[derive(Debug, PartialEq)]
pub enum PollResponse {
    /// Still running; the progress indicator advanced.
    Pending,
    /// The terminal message, delivered exactly once.
    Ready(Result<ExecutionOutcome, PipelineError>),
    /// The worker is lost; no message will ever come.
    Lost,
}

/// Where one poll takes the machine.  Polling is only legal from `Running`;
/// every other state is a fixed point.
pub open spec fn poll_target(s: CoordinatorState, event: ChannelEvent) -> CoordinatorState {
    if s is Running {
        match event {
            ChannelEvent::Empty => CoordinatorState::Running,
            ChannelEvent::Received(_) => CoordinatorState::Completed,
            ChannelEvent::Disconnected => CoordinatorState::Disconnected,
        }
    } else {
        s
    }
}

/// How many terminal messages a caller observes when it feeds the machine one
/// cycle of channel observations: a delivery happens exactly when the machine
/// is `Running` and the observation is a received message.
pub open spec fn cycle_deliveries(s: CoordinatorState, events: Seq<ChannelEvent>) -> int
    decreases events.len(),
{
    if events.len() == 0 {
        0
    } else {
        let d: int = if s is Running && events[0] is Received {
            1
        } else {
            0
        };
        d + cycle_deliveries(poll_target(s, events[0]), events.drop_first())
    }
}

proof fn lemma_no_delivery_outside_running(s: CoordinatorState, events: Seq<ChannelEvent>)
    requires
        !(s is Running),
    ensures
        cycle_deliveries(s, events) == 0,
    decreases events.len(),
{
    if events.len() > 0 {
        lemma_no_delivery_outside_running(s, events.drop_first());
    }
}

/// Single delivery, at most: across one `start`/drain cycle — any sequence of
/// channel observations fed to the machine from `Running` — the caller
/// observes the terminal outcome at most once.
pub proof fn lemma_at_most_one_delivery(events: Seq<ChannelEvent>)
    ensures
        0 <= cycle_deliveries(CoordinatorState::Running, events) <= 1,
    decreases events.len(),
{
    if events.len() > 0 {
        if events[0] is Received {
            lemma_no_delivery_outside_running(CoordinatorState::Completed, events.drop_first());
        } else if events[0] is Disconnected {
            lemma_no_delivery_outside_running(CoordinatorState::Disconnected, events.drop_first());
        } else {
            lemma_at_most_one_delivery(events.drop_first());
        }
    }
}

/// Single delivery, at least: when the worker's message does arrive — after
/// nothing but empty checks — the caller observes it exactly once, never zero
/// times.
pub proof fn lemma_delivery_occurs(events: Seq<ChannelEvent>, k: int)
    requires
        0 <= k < events.len(),
        events[k] is Received,
        forall|j: int| 0 <= j < k ==> events[j] is Empty,
    ensures
        cycle_deliveries(CoordinatorState::Running, events) == 1,
    decreases k,
{
    if k == 0 {
        lemma_no_delivery_outside_running(CoordinatorState::Completed, events.drop_first());
    } else {
        assert(forall|j: int| 0 <= j < k - 1 ==> events.drop_first()[j] == events[j + 1]);
        lemma_delivery_occurs(events.drop_first(), k - 1);
    }
}

/// The complement of delivery: when the worker is lost — nothing but empty
/// checks, then a disconnect — the caller observes no terminal outcome at all;
/// the loss is surfaced as a distinct signal instead.
pub proof fn lemma_disconnect_delivers_nothing(events: Seq<ChannelEvent>, k: int)
    requires
        0 <= k < events.len(),
        events[k] is Disconnected,
        forall|j: int| 0 <= j < k ==> events[j] is Empty,
    ensures
        cycle_deliveries(CoordinatorState::Running, events) == 0,
    decreases k,
{
    if k == 0 {
        lemma_no_delivery_outside_running(CoordinatorState::Disconnected, events.drop_first());
    } else {
        assert(forall|j: int| 0 <= j < k - 1 ==> events.drop_first()[j] == events[j + 1]);
        lemma_disconnect_delivers_nothing(events.drop_first(), k - 1);
    }
}

/// Coordinates one execution at a time: spawn-side state, a cosmetic progress
/// counter, and the polling contract.
pub struct ExecutionCoordinator {
    pub state: CoordinatorState,
    pub progress: u32,
}

impl ExecutionCoordinator {
    /// The progress counter stays within its wrap-around scale.
    pub open spec fn wf(&self) -> bool {
        self.progress < PROGRESS_SCALE
    }

    pub fn new() -> (c: Self)
        ensures
            c.state is Idle,
            c.progress == 0,
            c.wf(),
    {
        ExecutionCoordinator { state: CoordinatorState::Idle, progress: 0 }
    }

    /// Marks the start of one execution.  Only legal from `Idle`, so at most
    /// one worker is ever outstanding.
    pub fn start(&mut self)
        requires
            old(self).state is Idle,
        ensures
            final(self).state is Running,
            final(self).progress == 0,
            final(self).wf(),
    {
        self.state = CoordinatorState::Running;
        self.progress = 0;
    }

    /// Non-blocking poll: feeds the machine what one check of the channel
    /// observed.  An empty check keeps it running and advances the cosmetic
    /// progress indicator by one wrap-around step; a received message is
    /// delivered to the caller exactly once and completes the cycle; a lost
    /// sender is a distinct terminal state.
    pub fn poll(&mut self, event: ChannelEvent) -> (r: PollResponse)
        requires
            old(self).state is Running,
            old(self).wf(),
        ensures
            final(self).wf(),
            final(self).state == poll_target(old(self).state, event),
            final(self).progress == if event is Empty {
                ((old(self).progress + PROGRESS_STEP) as int % (PROGRESS_SCALE as int)) as u32
            } else {
                old(self).progress
            },
            event is Empty ==> r is Pending,
            event matches ChannelEvent::Received(m) ==> (r matches PollResponse::Ready(w) && w
                == m),
            event is Disconnected ==> r is Lost,
    {
        match event {
            ChannelEvent::Empty => {
                self.progress = (self.progress + PROGRESS_STEP) % PROGRESS_SCALE;
                PollResponse::Pending
            },
            ChannelEvent::Received(m) => {
                self.state = CoordinatorState::Completed;
                PollResponse::Ready(m)
            },
            ChannelEvent::Disconnected => {
                self.state = CoordinatorState::Disconnected;
                PollResponse::Lost
            },
        }
    }

    /// Weak cancellation: turns the machine back to `Idle` at once.  The
    /// worker is not stopped; whatever it eventually sends lands in a slot
    /// nobody polls and is dropped.
    pub fn cancel(&mut self)
        requires
            old(self).state is Running,
        ensures
            final(self).state is Idle,
            final(self).progress == 0,
            final(self).wf(),
    {
        self.state = CoordinatorState::Idle;
        self.progress = 0;
    }

    /// Consumes a terminal state, returning the machine to `Idle` so a new
    /// attempt is possible.
    pub fn acknowledge(&mut self)
        requires
            old(self).state is Completed || old(self).state is Disconnected,
        ensures
            final(self).state is Idle,
            final(self).progress == 0,
            final(self).wf(),
    {
        self.state = CoordinatorState::Idle;
        self.progress = 0;
    }
}

} // verus!
