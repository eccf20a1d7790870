//! The frame-flush protocol: wait for the transfer before, start the new
//! one, and hand control back at once, so that the next region is composed
//! while this one is on its way to the panel.
//!
//! The pipeline decides; its caller does the work. Each step takes what
//! happened and answers with what to do next.

use vstd::prelude::*;

verus! {

/// A dirty region as the compositor names it: both corners belong to it.
#[derive(Clone, Copy, Debug, PartialEq, Eq, Structural)]
pub struct Area {
    pub x1: i32,
    pub y1: i32,
    pub x2: i32,
    pub y2: i32,
}

/// A transfer as the driver takes it: `(x2, y2)` is the first point outside.
#[derive(Clone, Copy, Debug, PartialEq, Eq, Structural)]
pub struct FlushRequest {
    pub x1: i32,
    pub y1: i32,
    pub x2: i32,
    pub y2: i32,
}

/// What the caller reports to the pipeline.
#[derive(Clone, Copy, Debug, PartialEq, Eq, Structural)]
pub enum FlushEvent {
    /// The compositor asks for a region to be flushed.
    Requested(Area),
    /// The wait for the transfer in flight has returned.
    TransferDone,
    /// The driver has taken the new transfer.
    TransferStarted,
}

/// What the pipeline asks of its caller.
#[derive(Clone, Copy, Debug, PartialEq, Eq, Structural)]
pub enum FlushAction {
    /// Block until no transfer is in flight, then report `TransferDone`.
    AwaitTransfer,
    /// Start this transfer without waiting for it, then report
    /// `TransferStarted`.
    StartTransfer(FlushRequest),
    /// Tell the compositor that the region is accepted.
    SignalReady,
}

/// Where the pipeline stands within one flush.
#[derive(Clone, Copy, Debug, PartialEq, Eq, Structural)]
pub enum Phase {
    /// Between two flushes.
    Idle,
    /// A flush was requested; the transfer before may still run.
    Waiting(FlushRequest),
    /// No transfer runs; the new one is about to start.
    Starting(FlushRequest),
}

/// The pipeline as a mathematical value: its phase, and how many transfers
/// were started and how many of them are known to be complete.
pub struct FlushModel {
    pub phase: Phase,
    pub started: nat,
    pub completed: nat,
}

/// The states that a pipeline can be in: at most one transfer is in flight,
/// and none while the next is about to start.
pub open spec fn valid(m: FlushModel) -> bool {
    &&& m.completed <= m.started <= m.completed + 1
    &&& (m.phase is Starting ==> m.started == m.completed)
}

/// The region of an area with its far corner moved one past the end.
pub open spec fn half_open(a: Area) -> FlushRequest {
    FlushRequest { x1: a.x1, y1: a.y1, x2: (a.x2 + 1) as i32, y2: (a.y2 + 1) as i32 }
}

/// A pipeline that has started nothing.
pub open spec fn initial() -> FlushModel {
    FlushModel { phase: Phase::Idle, started: 0, completed: 0 }
}

/// The state after an event, and the action that answers it. An event that
/// the phase does not expect changes nothing and asks for nothing.
pub open spec fn next(m: FlushModel, e: FlushEvent) -> (FlushModel, Option<FlushAction>) {
    match (m.phase, e) {
        (Phase::Idle, FlushEvent::Requested(a)) => (
            FlushModel { phase: Phase::Waiting(half_open(a)), ..m },
            Some(FlushAction::AwaitTransfer),
        ),
        (Phase::Waiting(r), FlushEvent::TransferDone) => (
            FlushModel { phase: Phase::Starting(r), started: m.started, completed: m.started },
            Some(FlushAction::StartTransfer(r)),
        ),
        (Phase::Starting(_), FlushEvent::TransferStarted) => (
            FlushModel { phase: Phase::Idle, started: m.started + 1, completed: m.completed },
            Some(FlushAction::SignalReady),
        ),
        _ => (m, None),
    }
}

/// The state after a sequence of events.
pub open spec fn after(m: FlushModel, events: Seq<FlushEvent>) -> FlushModel
    decreases events.len(),
{
    if events.len() == 0 {
        m
    } else {
        next(after(m, events.drop_last()), events.last()).0
    }
}

/// A step leads from a valid state to a valid state.
pub proof fn lemma_next_valid(m: FlushModel, e: FlushEvent)
    requires
        valid(m),
    ensures
        valid(next(m, e).0),
{
}

/// Whatever is reported, in whatever order, at most one transfer is in
/// flight.
pub proof fn lemma_one_transfer_in_flight(events: Seq<FlushEvent>)
    ensures
        valid(after(initial(), events)),
    decreases events.len(),
{
    if events.len() > 0 {
        lemma_one_transfer_in_flight(events.drop_last());
        lemma_next_valid(after(initial(), events.drop_last()), events.last());
    }
}

/// Transfers keep their order: a transfer is started only in answer to the
/// return of the wait, for the request that waited, and at that moment every
/// transfer started before is complete.
pub proof fn lemma_start_follows_completion(m: FlushModel, e: FlushEvent, r: FlushRequest)
    requires
        valid(m),
        next(m, e).1 == Some(FlushAction::StartTransfer(r)),
    ensures
        e == FlushEvent::TransferDone,
        m.phase == Phase::Waiting(r),
        next(m, e).0.completed == next(m, e).0.started,
        next(m, e).0.started == m.started,
{
}

/// The state that the first `n` of `events` lead to.
pub open spec fn state_at(m: FlushModel, events: Seq<FlushEvent>, n: int) -> FlushModel {
    after(m, events.take(n))
}

/// The action that answers event `n` of `events`.
pub open spec fn action_at(m: FlushModel, events: Seq<FlushEvent>, n: int) -> Option<FlushAction> {
    next(state_at(m, events, n), events[n]).1
}

/// Each event leads from the state before it to the state after it.
pub proof fn lemma_state_steps(m: FlushModel, events: Seq<FlushEvent>, n: int)
    requires
        0 <= n < events.len(),
    ensures
        state_at(m, events, n + 1) == next(state_at(m, events, n), events[n]).0,
{
    assert(events.take(n + 1).drop_last() =~= events.take(n));
    assert(events.take(n + 1).last() == events[n]);
}

/// The pipeline comes to wait only by being asked to flush: if it does not
/// wait after `from` events and waits after `to`, one of the events between
/// was answered with the request to wait.
pub proof fn lemma_wait_was_asked_for(m: FlushModel, events: Seq<FlushEvent>, from: int, to: int)
    requires
        0 <= from <= to <= events.len(),
        !(state_at(m, events, from).phase is Waiting),
        state_at(m, events, to).phase is Waiting,
    ensures
        exists|k: int|
            from <= k < to && #[trigger] action_at(m, events, k) == Some(
                FlushAction::AwaitTransfer,
            ),
    decreases to - from,
{
    if from < to {
        lemma_state_steps(m, events, to - 1);
        if state_at(m, events, to - 1).phase is Waiting {
            lemma_wait_was_asked_for(m, events, from, to - 1);
        } else {
            assert(action_at(m, events, to - 1) == Some(FlushAction::AwaitTransfer));
        }
    }
}

/// Transfers are never reordered: of any two transfers that the pipeline
/// starts, the second starts in answer to the return of a wait that was
/// asked for after the first had started.
pub proof fn lemma_transfers_in_order(
    m: FlushModel,
    events: Seq<FlushEvent>,
    first: int,
    second: int,
)
    requires
        0 <= first < second < events.len(),
        action_at(m, events, first) matches Some(FlushAction::StartTransfer(_)),
        action_at(m, events, second) matches Some(FlushAction::StartTransfer(_)),
    ensures
        events[second] == FlushEvent::TransferDone,
        exists|k: int|
            first < k < second && #[trigger] action_at(m, events, k) == Some(
                FlushAction::AwaitTransfer,
            ),
{
    lemma_state_steps(m, events, first);
    lemma_wait_was_asked_for(m, events, first + 1, second);
}

/// One flush from start to end: the pipeline asks to wait, then to start the
/// transfer of the requested area, then to signal, and is ready for the next
/// flush with this transfer in flight and all others complete.
pub proof fn lemma_flush_in_three_steps(m: FlushModel, a: Area)
    requires
        valid(m),
        m.phase == Phase::Idle,
    ensures
        ({
            let s1 = next(m, FlushEvent::Requested(a));
            let s2 = next(s1.0, FlushEvent::TransferDone);
            let s3 = next(s2.0, FlushEvent::TransferStarted);
            &&& s1.1 == Some(FlushAction::AwaitTransfer)
            &&& s2.1 == Some(FlushAction::StartTransfer(half_open(a)))
            &&& s3.1 == Some(FlushAction::SignalReady)
            &&& s3.0 == FlushModel {
                phase: Phase::Idle,
                started: m.started + 1,
                completed: m.started,
            }
        }),
{
}

/// The flush pipeline of one display.
pub struct FlushPipeline {
    phase: Phase,
    busy: bool,
    started: Ghost<nat>,
    completed: Ghost<nat>,
}

impl View for FlushPipeline {
    type V = FlushModel;

    closed spec fn view(&self) -> FlushModel {
        FlushModel { phase: self.phase, started: self.started@, completed: self.completed@ }
    }
}

impl FlushPipeline {
    #[verifier::type_invariant]
    spec fn inv(self) -> bool {
        valid(self@) && self.busy == (self.started@ > self.completed@)
    }

    /// A pipeline that has started nothing.
    pub fn new() -> (p: Self)
        ensures
            p@ == initial(),
    {
        FlushPipeline { phase: Phase::Idle, busy: false, started: Ghost(0), completed: Ghost(0) }
    }

    /// Where the pipeline stands within a flush.
    pub fn phase(&self) -> (ph: Phase)
        ensures
            ph == self@.phase,
    {
        self.phase
    }

    /// Whether a transfer was started whose completion nobody has waited for.
    pub fn in_flight(&self) -> (r: bool)
        ensures
            valid(self@),
            r == (self@.started > self@.completed),
    {
        proof {
            use_type_invariant(self);
        }
        self.busy
    }

    /// Takes an event and answers with the action that the protocol asks
    /// for next, or with none where the event comes out of turn.
    pub fn step(&mut self, event: FlushEvent) -> (action: Option<FlushAction>)
        requires
            event matches FlushEvent::Requested(a) ==> a.x2 < i32::MAX && a.y2 < i32::MAX,
        ensures
            final(self)@ == next(old(self)@, event).0,
            action == next(old(self)@, event).1,
            valid(final(self)@),
    {
        proof {
            use_type_invariant(&*self);
        }
        let ghost started = self.started@;
        match (self.phase, event) {
            (Phase::Idle, FlushEvent::Requested(a)) => {
                let request = FlushRequest { x1: a.x1, y1: a.y1, x2: a.x2 + 1, y2: a.y2 + 1 };
                *self = FlushPipeline {
                    phase: Phase::Waiting(request),
                    busy: self.busy,
                    started: self.started,
                    completed: self.completed,
                };
                Some(FlushAction::AwaitTransfer)
            },
            (Phase::Waiting(r), FlushEvent::TransferDone) => {
                *self = FlushPipeline {
                    phase: Phase::Starting(r),
                    busy: false,
                    started: self.started,
                    completed: self.started,
                };
                Some(FlushAction::StartTransfer(r))
            },
            (Phase::Starting(_), FlushEvent::TransferStarted) => {
                *self = FlushPipeline {
                    phase: Phase::Idle,
                    busy: true,
                    started: Ghost((started + 1) as nat),
                    completed: self.completed,
                };
                Some(FlushAction::SignalReady)
            },
            _ => None,
        }
    }
}

} // verus!
