//! What every panel driver shares: the lifecycle states, the errors, and
//! the rules by which an operation is accepted, runs and ends.

use vstd::prelude::*;
use crate::interface::Action;
use crate::protocol::{ActionView, Event, Phase, Step, Transport, answers, smooth};

verus! {

/// Where a panel stands in its lifecycle.
#[derive(Clone, Copy, Debug, PartialEq, Eq, Structural)]
pub enum DriverState {
    /// The panel has not been configured, or its configuration is under way.
    Uninitialized,
    /// The panel is configured and takes frames.
    Ready,
    /// The panel is in deep sleep and has lost its configuration.
    Sleeping,
}

/// Why an operation did not take place or did not finish.
#[derive(Clone, Copy, Debug, PartialEq, Eq, Structural)]
pub enum DriverError {
    /// The bus refused a write.
    Transport,
    /// The panel's hardware does not offer the operation.
    Unsupported,
    /// The operation is not valid in the driver's state, or another
    /// operation is still in flight.
    State,
}

/// The refresh waveforms that some panels let their host choose between.
#[derive(Clone, Copy, Debug, PartialEq, Eq, Structural)]
pub enum RefreshLut {
    /// The full refresh.
    Full,
    /// The quick refresh, which may leave ghosting.
    Quick,
}

/// How an action reads as the result of the operation in flight: `Done` is
/// its success, `Failed` its transport error, and any other action means
/// that the operation is not over.
pub open spec fn spec_outcome(action: ActionView) -> Option<Result<(), DriverError>> {
    match action {
        ActionView::Done => Some(Ok(())),
        ActionView::Failed => Some(Err(DriverError::Transport)),
        _ => None,
    }
}

/// The result of the operation in flight, once the action that a driver
/// answered with ends it.
pub fn outcome(action: &Action) -> (result: Option<Result<(), DriverError>>)
    ensures
        result == spec_outcome(action@),
{
    match action {
        Action::Done => Some(Ok(())),
        Action::Failed => Some(Err(DriverError::Transport)),
        _ => None,
    }
}

/// What a driver stands for: its lifecycle state, the state that the
/// operation in flight leads to, its background color and its channel.
pub struct PanelView<C> {
    pub state: DriverState,
    pub goal: DriverState,
    pub background: C,
    pub transport: Transport,
}

impl<C> PanelView<C> {
    /// Whether an operation that is valid in `state` is accepted: the
    /// driver is in that state and nothing is in flight.
    pub open spec fn accepts(self, state: DriverState) -> bool {
        self.state == state && self.transport.phase is Idle
    }

    /// The driver after it has accepted an operation: it is in `state`,
    /// with `steps` queued and `goal` as the state that they lead to.
    pub open spec fn begin(self, state: DriverState, goal: DriverState, steps: Seq<Step>) -> PanelView<C> {
        PanelView {
            state,
            goal,
            background: self.background,
            transport: Transport { pending: steps, phase: Phase::Issuing, pause_us: self.transport.pause_us },
        }
    }

    /// The driver after an event, and the action that it answers with. The
    /// channel decides the action. When the script ends the driver enters
    /// the state that the script leads to; when it fails the driver stays
    /// in the state it is in.
    pub open spec fn step(self, event: Event) -> (PanelView<C>, ActionView) {
        let (transport, action) = self.transport.step(event);
        let state = if action is Done {
            self.goal
        } else {
            self.state
        };
        let goal = if transport.phase is Idle {
            state
        } else {
            self.goal
        };
        (PanelView { state, goal, background: self.background, transport }, action)
    }

    /// The driver after a sequence of events.
    pub open spec fn run(self, events: Seq<Event>) -> PanelView<C>
        decreases events.len(),
    {
        if events.len() == 0 {
            self
        } else {
            self.step(events[0]).0.run(events.drop_first())
        }
    }

    /// What holds of every driver: with nothing in flight nothing is
    /// pending, and no other state is being headed for.
    pub open spec fn wf(self) -> bool {
        self.transport.phase is Idle ==> self.transport.pending.len() == 0 && self.goal == self.state
    }

    /// An operation that no write fails, and that never finds the panel
    /// busy, ends after one event for each of its steps and one more: the
    /// driver is then in the state that the operation leads to, with
    /// nothing in flight, and it was in its old state until then.
    pub proof fn lemma_operation_reaches_goal(self, events: Seq<Event>)
        requires
            events.len() == self.transport.pending.len() + 1,
            self.transport.proceeds(events[0]),
            smooth(self.transport.pending, events),
        ensures
            self.run(events) == (PanelView {
                state: self.goal,
                goal: self.goal,
                background: self.background,
                transport: Transport::idle(self.transport.pause_us),
            }),
            forall|n: int| 0 <= n < events.len() ==> (#[trigger] self.run(events.take(n))).state == self.state,
        decreases events.len(),
    {
        let next = self.step(events[0]).0;
        let later = events.drop_first();
        assert(self.transport.step(events[0]) == self.transport.issue());
        if self.transport.pending.len() == 0 {
            assert(next.run(later) == next);
            assert forall|n: int| 0 <= n < events.len() implies (#[trigger] self.run(events.take(n))).state
                == self.state by {
                assert(events.take(0).len() == 0);
            }
        } else {
            let rest = self.transport.pending.drop_first();
            let first: int = 0;
            assert(later[0] == events[first + 1]);
            assert(answers(self.transport.pending[first], events[first + 1]));
            assert forall|i: int| 0 <= i < rest.len() && i + 1 < later.len() implies answers(
                rest[i],
                #[trigger] later[i + 1],
            ) by {
                assert(later[i + 1] == events[i + 1 + 1]);
                assert(rest[i] == self.transport.pending[i + 1]);
            }
            next.lemma_operation_reaches_goal(later);
            assert forall|n: int| 0 <= n < events.len() implies (#[trigger] self.run(events.take(n))).state
                == self.state by {
                if n == 0 {
                    assert(events.take(0).len() == 0);
                } else {
                    assert(events.take(n)[0] == events[0]);
                    assert(events.take(n).drop_first() =~= later.take(n - 1));
                    assert(next.run(later.take(n - 1)).state == next.state);
                }
            }
        }
    }

    /// An operation that a write fails ends at once: the driver answers
    /// `Failed`, stays in the state it is in, and has nothing in flight.
    pub proof fn lemma_fault_keeps_state(self)
        requires
            self.transport.phase is Writing,
        ensures
            self.step(Event::Fault) == (
                PanelView {
                    state: self.state,
                    goal: self.state,
                    background: self.background,
                    transport: Transport::idle(self.transport.pause_us),
                },
                ActionView::Failed,
            ),
    {
    }

    /// A driver in flight answers as its channel does, and only the end of
    /// the operation moves its state: no event changes the background, and
    /// an action other than `Done` leaves the state as it is.
    pub proof fn lemma_step_follows_channel(self, event: Event)
        ensures
            self.step(event).1 == self.transport.step(event).1,
            self.step(event).0.transport == self.transport.step(event).0,
            self.step(event).0.background == self.background,
            !(self.step(event).1 is Done) ==> self.step(event).0.state == self.state,
            self.wf() ==> self.step(event).0.wf(),
    {
    }
}

} // verus!
