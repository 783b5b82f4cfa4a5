//! Draining the output of a background process, so that a full pipe never
//! stalls it.
//!
//! Like the supervisor, the drain performs nothing itself: it answers each
//! event with the next thing to do.

use crate::supervisor::Termination;
use vstd::prelude::*;

verus! {

/// What the drain waits for.
#[derive(Clone, Copy, Debug, PartialEq, Eq, Structural)]
pub enum DrainPhase {
    /// Nothing was asked for yet.
    Idle,
    /// Whether the process still runs.
    Polling,
    /// The next line of the error stream.
    Reading,
    /// The end of the process.
    Waiting,
    /// Nothing: the drain is over.
    Stopped,
}

/// What the driver reports back.
#[derive(Clone, Copy, Debug, PartialEq, Eq, Structural)]
pub enum DrainEvent {
    /// The drain is to begin.
    Start,
    /// The process still runs.
    Running,
    /// The process has ended.
    Ended(Termination),
    /// The state of the process could not be read.
    WaitFailed,
    /// A read came back with this many bytes; none at the end of the stream.
    Line(usize),
    /// The stream could not be read.
    ReadFailed,
}

/// Why the drain stopped.
#[derive(Clone, Copy, Debug, PartialEq, Eq, Structural)]
pub enum DrainEnd {
    /// The process ended, in this way.
    ProcessEnded(Termination),
    /// The state of the process could not be read.
    WaitFailed,
    /// The stream could not be read.
    ReadFailed,
    /// An event arrived that does not answer the action last asked for.
    OutOfOrder,
}

/// What the driver is asked to do next.
#[derive(Clone, Copy, Debug, PartialEq, Eq, Structural)]
pub enum DrainAction {
    /// Look whether the process still runs, without waiting.
    Poll,
    /// Read one line of the error stream and drop it.
    ReadLine,
    /// The stream is at its end: wait until the process ends.
    AwaitEnd,
    /// Stop draining, and say why.
    Stop(DrainEnd),
}

/// The phase that follows when `event` arrives in `phase`.
///
/// The drain looks at the process before each read, and reads one line each
/// time the process still runs. At the end of the stream it waits for the
/// end of the process. It stops when the process has ended, and at the first
/// failure; where the process ended, it says how.
pub open spec fn drain_phase_after(phase: DrainPhase, event: DrainEvent) -> DrainPhase {
    match (phase, event) {
        (DrainPhase::Idle, DrainEvent::Start) => DrainPhase::Polling,
        (DrainPhase::Polling, DrainEvent::Running) => DrainPhase::Reading,
        (DrainPhase::Reading, DrainEvent::Line(bytes)) => if bytes == 0 {
            DrainPhase::Waiting
        } else {
            DrainPhase::Polling
        },
        _ => DrainPhase::Stopped,
    }
}

/// The action asked for when `event` arrives in `phase`.
pub open spec fn drain_action_after(phase: DrainPhase, event: DrainEvent) -> DrainAction {
    match (phase, event) {
        (DrainPhase::Idle, DrainEvent::Start) => DrainAction::Poll,
        (DrainPhase::Polling, DrainEvent::Running) => DrainAction::ReadLine,
        (DrainPhase::Polling, DrainEvent::Ended(termination)) => DrainAction::Stop(
            DrainEnd::ProcessEnded(termination),
        ),
        (DrainPhase::Polling, DrainEvent::WaitFailed) => DrainAction::Stop(DrainEnd::WaitFailed),
        (DrainPhase::Reading, DrainEvent::Line(bytes)) => if bytes == 0 {
            DrainAction::AwaitEnd
        } else {
            DrainAction::Poll
        },
        (DrainPhase::Reading, DrainEvent::ReadFailed) => DrainAction::Stop(DrainEnd::ReadFailed),
        (DrainPhase::Waiting, DrainEvent::Ended(termination)) => DrainAction::Stop(
            DrainEnd::ProcessEnded(termination),
        ),
        (DrainPhase::Waiting, DrainEvent::WaitFailed) => DrainAction::Stop(DrainEnd::WaitFailed),
        _ => DrainAction::Stop(DrainEnd::OutOfOrder),
    }
}

/// The phase of a drain after the given events, taken in order.
pub open spec fn drain_phase_after_all(events: Seq<DrainEvent>) -> DrainPhase
    decreases events.len(),
{
    if events.len() == 0 {
        DrainPhase::Idle
    } else {
        drain_phase_after(drain_phase_after_all(events.drop_last()), events.last())
    }
}

/// The actions with which a drain answers the given events, one for each.
pub open spec fn drain_actions(events: Seq<DrainEvent>) -> Seq<DrainAction>
    decreases events.len(),
{
    if events.len() == 0 {
        Seq::empty()
    } else {
        drain_actions(events.drop_last()).push(
            drain_action_after(drain_phase_after_all(events.drop_last()), events.last()),
        )
    }
}

/// Whether the last answer to `events` is the one that the phase reached
/// waits on: a look at the process, a read, a wait, or a stop.
pub open spec fn drained_in_order(events: Seq<DrainEvent>) -> bool {
    let actions = drain_actions(events);
    let count = events.len() as int;
    match drain_phase_after_all(events) {
        DrainPhase::Idle => count == 0,
        DrainPhase::Polling => count > 0 && actions[count - 1] == DrainAction::Poll,
        DrainPhase::Reading => count > 0 && actions[count - 1] == DrainAction::ReadLine,
        DrainPhase::Waiting => count > 0 && actions[count - 1] == DrainAction::AwaitEnd,
        DrainPhase::Stopped => count > 0 && actions[count - 1] is Stop,
    }
}

/// The order of a drain.
///
/// Whatever events arrive at a drain that has not begun, each is answered by
/// one action, and:
/// - a line is read only right after a look at the process that found it
///   running;
/// - the end of the process is waited for only right after a read that
///   found the stream at its end;
/// - the drain reports the end of the process only as it was reported to
///   it, in answer to a look or to the wait;
/// - once the drain has stopped, whether at the end of the process or at a
///   failure, every later answer is to stop.
pub proof fn lemma_drain_order(events: Seq<DrainEvent>)
    ensures
        drained_in_order(events),
        drain_actions(events).len() == events.len(),
        forall|i: int|
            0 <= i < events.len() && #[trigger] drain_actions(events)[i] == DrainAction::ReadLine
                ==> i >= 1 && drain_actions(events)[i - 1] == DrainAction::Poll && events[i]
                == DrainEvent::Running,
        forall|i: int|
            0 <= i < events.len() && #[trigger] drain_actions(events)[i] == DrainAction::AwaitEnd
                ==> i >= 1 && drain_actions(events)[i - 1] == DrainAction::ReadLine && events[i]
                == DrainEvent::Line(0),
        forall|i: int|
            #![trigger drain_actions(events)[i]]
            0 <= i < events.len() ==> (drain_actions(events)[i] matches DrainAction::Stop(
                DrainEnd::ProcessEnded(how),
            ) ==> {
                &&& i >= 1
                &&& events[i] == DrainEvent::Ended(how)
                &&& drain_actions(events)[i - 1] == DrainAction::Poll || drain_actions(
                    events,
                )[i - 1] == DrainAction::AwaitEnd
            }),
        forall|i: int, j: int|
            0 <= i <= j < events.len() && #[trigger] drain_actions(events)[i] is Stop
                ==> #[trigger] drain_actions(events)[j] is Stop,
    decreases events.len(),
{
    if events.len() > 0 {
        let earlier = events.drop_last();
        let end = events.len() - 1;
        lemma_drain_order(earlier);
        let answer = drain_action_after(drain_phase_after_all(earlier), events.last());
        assert(drain_actions(events) == drain_actions(earlier).push(answer));
        assert forall|i: int| 0 <= i < end implies drain_actions(events)[i] == drain_actions(
            earlier,
        )[i] && events[i] == earlier[i] by {}
        assert forall|i: int, j: int|
            0 <= i <= j < events.len() && #[trigger] drain_actions(events)[i] is Stop
                implies #[trigger] drain_actions(events)[j] is Stop by {
            if j == end && i < end {
                assert(drain_actions(earlier)[i] is Stop);
                assert(drain_actions(earlier)[end - 1] is Stop);
            }
        }
    }
}

/// The drain of one background process.
#[derive(Debug)]
pub struct Drain {
    phase: DrainPhase,
}

impl View for Drain {
    type V = DrainPhase;

    closed spec fn view(&self) -> DrainPhase {
        self.phase
    }
}

impl Drain {
    /// A drain that has not begun.
    pub fn new() -> (drain: Self)
        ensures
            drain@ == DrainPhase::Idle,
    {
        Drain { phase: DrainPhase::Idle }
    }

    /// What the drain waits for.
    pub fn phase(&self) -> (phase: DrainPhase)
        ensures
            phase == self@,
    {
        self.phase
    }

    /// Takes `event` and answers with the action to perform next.
    pub fn step(&mut self, event: DrainEvent) -> (action: DrainAction)
        ensures
            final(self)@ == drain_phase_after(old(self)@, event),
            action == drain_action_after(old(self)@, event),
    {
        let (phase, action) = match (self.phase, event) {
            (DrainPhase::Idle, DrainEvent::Start) => (DrainPhase::Polling, DrainAction::Poll),
            (DrainPhase::Polling, DrainEvent::Running) => (
                DrainPhase::Reading,
                DrainAction::ReadLine,
            ),
            (DrainPhase::Polling, DrainEvent::Ended(termination)) => (
                DrainPhase::Stopped,
                DrainAction::Stop(DrainEnd::ProcessEnded(termination)),
            ),
            (DrainPhase::Polling, DrainEvent::WaitFailed) => (
                DrainPhase::Stopped,
                DrainAction::Stop(DrainEnd::WaitFailed),
            ),
            (DrainPhase::Reading, DrainEvent::Line(bytes)) => if bytes == 0 {
                (DrainPhase::Waiting, DrainAction::AwaitEnd)
            } else {
                (DrainPhase::Polling, DrainAction::Poll)
            },
            (DrainPhase::Reading, DrainEvent::ReadFailed) => (
                DrainPhase::Stopped,
                DrainAction::Stop(DrainEnd::ReadFailed),
            ),
            (DrainPhase::Waiting, DrainEvent::Ended(termination)) => (
                DrainPhase::Stopped,
                DrainAction::Stop(DrainEnd::ProcessEnded(termination)),
            ),
            (DrainPhase::Waiting, DrainEvent::WaitFailed) => (
                DrainPhase::Stopped,
                DrainAction::Stop(DrainEnd::WaitFailed),
            ),
            _ => (DrainPhase::Stopped, DrainAction::Stop(DrainEnd::OutOfOrder)),
        };
        self.phase = phase;
        action
    }
}

} // verus!
