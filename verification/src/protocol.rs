//! The line protocol as a mathematical model.
//!
//! A driver never touches the bus itself. It queues a script of [`Step`]s and
//! is then driven by its host: the host hands in an [`Event`], the driver
//! answers with the next action, the host performs it and reports back. This
//! module states, over plain sequences, what the driver answers and what the
//! host therefore gets to see on the lines.

use vstd::prelude::*;

verus! {

/// Electrical level of a control line.
#[derive(Clone, Copy, Debug, PartialEq, Eq, Structural)]
pub enum Level {
    Low,
    High,
}

/// Position of the data/command select line.
#[derive(Clone, Copy, Debug, PartialEq, Eq, Structural)]
pub enum Select {
    /// The next bytes on the bus are an opcode.
    Command,
    /// The next bytes on the bus are payload.
    Data,
}

impl Select {
    /// Level of the select line in this position: low for an opcode, high
    /// for payload.
    pub open spec fn spec_level(self) -> Level {
        match self {
            Select::Command => Level::Low,
            Select::Data => Level::High,
        }
    }

    /// Level of the select line in this position.
    pub fn level(self) -> (level: Level)
        ensures
            level == self.spec_level(),
    {
        match self {
            Select::Command => Level::Low,
            Select::Data => Level::High,
        }
    }
}

/// What the host reports after it has performed an action.
#[derive(Clone, Copy, Debug, PartialEq, Eq, Structural)]
pub enum Event {
    /// The action was carried out.
    Completed,
    /// The busy line was sampled at this level.
    Sampled(Level),
    /// The bus refused the write.
    Fault,
}

/// What the driver waits for between two actions.
#[derive(Clone, Copy, Debug, PartialEq, Eq, Structural)]
pub enum Phase {
    /// Nothing has been queued since the last script ended.
    Idle,
    /// A script is in flight: it has yet to begin, or its last action needs
    /// no answer.
    Issuing,
    /// A bus write was handed out; its outcome decides whether the script goes on.
    Writing,
    /// The busy line is being sampled; the panel is busy at the given level.
    Sampling(Level),
    /// The panel was busy at the given level and the pause before the next
    /// sample is running.
    Pausing(Level),
}

/// One entry of a script.
pub enum Step {
    /// Drive the reset line to a level.
    Reset(Level),
    /// Move the data/command select line.
    Select(Select),
    /// Write the bytes to the bus as one transaction.
    Write(Seq<u8>),
    /// Sleep for a number of microseconds.
    Delay(u32),
    /// Poll the busy line until it leaves the given level.
    AwaitIdle(Level),
}

/// What the driver asks of its host, with the bytes of a write as a sequence.
pub enum ActionView {
    SetReset(Level),
    SetSelect(Select),
    Write(Seq<u8>),
    Delay(u32),
    SampleBusy,
    Done,
    Failed,
}

/// The action that opens a step.
pub open spec fn action_of(step: Step) -> ActionView {
    match step {
        Step::Reset(level) => ActionView::SetReset(level),
        Step::Select(select) => ActionView::SetSelect(select),
        Step::Write(bytes) => ActionView::Write(bytes),
        Step::Delay(us) => ActionView::Delay(us),
        Step::AwaitIdle(_) => ActionView::SampleBusy,
    }
}

/// The phase a driver is in once it has handed out the action that opens a step.
pub open spec fn phase_after(step: Step) -> Phase {
    match step {
        Step::Write(_) => Phase::Writing,
        Step::AwaitIdle(level) => Phase::Sampling(level),
        _ => Phase::Issuing,
    }
}

/// The actions that open the steps of a script, in order.
pub open spec fn actions_of(steps: Seq<Step>) -> Seq<ActionView> {
    Seq::new(steps.len(), |i: int| action_of(steps[i]))
}

/// Whether an event, reported in answer to a step, lets the script go on to
/// the step after it: a write that did not fault, a busy line that is not at
/// its busy level. Line levels and delays cannot fail, so any event does.
pub open spec fn answers(step: Step, event: Event) -> bool {
    match step {
        Step::Write(_) => !(event is Fault),
        Step::AwaitIdle(level) => event != Event::Sampled(level),
        _ => true,
    }
}

/// Whether the events let a script run from its first step without a fault
/// and without finding the panel busy: the event at position `i + 1` answers
/// step `i`. The first event only starts the script.
pub open spec fn smooth(steps: Seq<Step>, events: Seq<Event>) -> bool {
    &&& events.len() <= steps.len() + 1
    &&& forall|i: int|
        0 <= i < steps.len() && i + 1 < events.len() ==> answers(steps[i], #[trigger] events[i + 1])
}

/// The protocol state of a driver: the steps that have not begun, what the
/// driver waits for, and the pause between two samples of a busy panel.
pub struct Transport {
    pub pending: Seq<Step>,
    pub phase: Phase,
    pub pause_us: u32,
}

impl Transport {
    /// A transport with nothing in flight.
    pub open spec fn idle(pause_us: u32) -> Transport {
        Transport { pending: Seq::empty(), phase: Phase::Idle, pause_us }
    }

    /// Begins the first pending step, or ends the script when none is left.
    pub open spec fn issue(self) -> (Transport, ActionView) {
        if self.pending.len() == 0 {
            (Transport::idle(self.pause_us), ActionView::Done)
        } else {
            (
                Transport {
                    pending: self.pending.drop_first(),
                    phase: phase_after(self.pending[0]),
                    pause_us: self.pause_us,
                },
                action_of(self.pending[0]),
            )
        }
    }

    /// The state after an event, and the action asked for in answer to it.
    ///
    /// A fault reported for a write drops what is left of the script. A busy
    /// sample is followed by the pause and then by another sample. Every
    /// other event lets the next step begin.
    pub open spec fn step(self, event: Event) -> (Transport, ActionView) {
        match self.phase {
            Phase::Writing => if event is Fault {
                (Transport::idle(self.pause_us), ActionView::Failed)
            } else {
                self.issue()
            },
            Phase::Sampling(busy) => if event == Event::Sampled(busy) {
                (
                    Transport { pending: self.pending, phase: Phase::Pausing(busy), pause_us: self.pause_us },
                    ActionView::Delay(self.pause_us),
                )
            } else {
                self.issue()
            },
            Phase::Pausing(busy) => (
                Transport { pending: self.pending, phase: Phase::Sampling(busy), pause_us: self.pause_us },
                ActionView::SampleBusy,
            ),
            _ => self.issue(),
        }
    }

    /// The state after a sequence of events.
    pub open spec fn run(self, events: Seq<Event>) -> Transport
        decreases events.len(),
    {
        if events.len() == 0 {
            self
        } else {
            self.step(events[0]).0.run(events.drop_first())
        }
    }

    /// The actions asked for in answer to a sequence of events, one per event.
    pub open spec fn trace(self, events: Seq<Event>) -> Seq<ActionView>
        decreases events.len(),
    {
        if events.len() == 0 {
            Seq::empty()
        } else {
            seq![self.step(events[0]).1] + self.step(events[0]).0.trace(events.drop_first())
        }
    }

    /// Whether the next event, if it is `event`, lets the first pending step begin.
    pub open spec fn proceeds(self, event: Event) -> bool {
        match self.phase {
            Phase::Writing => !(event is Fault),
            Phase::Sampling(busy) => event != Event::Sampled(busy),
            Phase::Pausing(_) => false,
            _ => true,
        }
    }
}

/// The actions of two scripts run one after the other are the actions of
/// the first followed by those of the second.
pub proof fn lemma_actions_of_concat(first: Seq<Step>, second: Seq<Step>)
    ensures
        actions_of(first + second) == actions_of(first) + actions_of(second),
{
    assert(actions_of(first + second) =~= actions_of(first) + actions_of(second));
}

/// While no write faults and the panel is never found busy, a driver asks
/// for exactly the actions of its pending script, in order, and then
/// reports the end: nothing is left out, added or reordered.
pub proof fn lemma_smooth_trace(start: Transport, events: Seq<Event>)
    requires
        events.len() > 0 ==> start.proceeds(events[0]),
        smooth(start.pending, events),
    ensures
        start.trace(events) == actions_of(start.pending).push(ActionView::Done).take(events.len() as int),
        events.len() == start.pending.len() + 1 ==> start.run(events) == Transport::idle(start.pause_us),
    decreases events.len(),
{
    let whole = actions_of(start.pending).push(ActionView::Done);
    if events.len() == 0 {
        assert(start.trace(events) =~= whole.take(0));
    } else {
        let next = start.step(events[0]).0;
        let later = events.drop_first();
        assert(start.step(events[0]) == start.issue());
        if start.pending.len() == 0 {
            assert(next.trace(later) =~= Seq::<ActionView>::empty());
            assert(start.trace(events) =~= whole.take(1));
            assert(next.run(later) == next);
        } else {
            let rest = start.pending.drop_first();
            assert forall|i: int| 0 <= i < rest.len() && i + 1 < later.len() implies answers(
                rest[i],
                #[trigger] later[i + 1],
            ) by {
                assert(later[i + 1] == events[i + 1 + 1]);
                assert(rest[i] == start.pending[i + 1]);
            }
            if later.len() > 0 {
                let first: int = 0;
                assert(later[0] == events[first + 1]);
                assert(answers(start.pending[first], events[first + 1]));
            }
            lemma_smooth_trace(next, later);
            let tail = actions_of(rest).push(ActionView::Done);
            assert(whole =~= seq![action_of(start.pending[0])] + tail);
            assert(start.trace(events) =~= whole.take(events.len() as int));
        }
    }
}

/// Two scripts queued one behind the other run as the first followed by
/// the second: while no write faults and the panel is never found busy,
/// the actions are those of the first script, then those of the second,
/// then the end, with nothing in between.
pub proof fn lemma_smooth_trace_concat(
    start: Transport,
    first: Seq<Step>,
    second: Seq<Step>,
    events: Seq<Event>,
)
    requires
        start.pending == first + second,
        events.len() > 0 ==> start.proceeds(events[0]),
        smooth(start.pending, events),
    ensures
        start.trace(events) == (actions_of(first) + actions_of(second)).push(ActionView::Done).take(
            events.len() as int,
        ),
{
    lemma_smooth_trace(start, events);
    lemma_actions_of_concat(first, second);
}

/// A wait that finds the panel idle at its first sample asks for that one
/// sample and for no pause: the answer to the sample is already the action
/// that follows the wait. That action is a delay only where the script
/// itself asks for one there.
pub proof fn lemma_wait_idle_at_once(start: Transport, busy: Level, first: Event, sample: Event)
    requires
        start.proceeds(first),
        start.pending.len() > 0,
        start.pending[0] == Step::AwaitIdle(busy),
        sample != Event::Sampled(busy),
    ensures
        start.step(first).1 == ActionView::SampleBusy,
        start.step(first).0.step(sample) == (Transport {
            pending: start.pending.drop_first(),
            phase: Phase::Issuing,
            pause_us: start.pause_us,
        }).issue(),
        start.step(first).0.step(sample).1 is Delay ==> start.pending.len() > 1 && start.pending[1] is Delay,
{
}

/// A wait that finds the panel busy asks for one pause of the fixed length
/// and then samples again, with the script behind the wait untouched.
pub proof fn lemma_wait_busy_polls_again(start: Transport, busy: Level, first: Event, after_pause: Event)
    requires
        start.proceeds(first),
        start.pending.len() > 0,
        start.pending[0] == Step::AwaitIdle(busy),
    ensures
        start.trace(seq![first, Event::Sampled(busy), after_pause]) == seq![
            ActionView::SampleBusy,
            ActionView::Delay(start.pause_us),
            ActionView::SampleBusy,
        ],
        start.run(seq![first, Event::Sampled(busy), after_pause]) == start.step(first).0,
{
    let events = seq![first, Event::Sampled(busy), after_pause];
    let s1 = start.step(first).0;
    let e1 = events.drop_first();
    let s2 = s1.step(e1[0]).0;
    let e2 = e1.drop_first();
    let s3 = s2.step(e2[0]).0;
    let e3 = e2.drop_first();
    assert(s3.trace(e3) =~= Seq::<ActionView>::empty());
    assert(s2.trace(e2) =~= seq![ActionView::SampleBusy]);
    assert(s1.trace(e1) =~= seq![ActionView::Delay(start.pause_us), ActionView::SampleBusy]);
    assert(start.trace(events) =~= seq![
        ActionView::SampleBusy,
        ActionView::Delay(start.pause_us),
        ActionView::SampleBusy,
    ]);
    assert(s3.run(e3) == s3);
    assert(s2.run(e2) == s3);
    assert(s1.run(e1) == s3);
}

/// A fault reported for a write ends the script at once: the driver reports
/// the failure and nothing of the script is left.
pub proof fn lemma_fault_ends_script(start: Transport)
    requires
        start.phase is Writing,
    ensures
        start.step(Event::Fault) == (Transport::idle(start.pause_us), ActionView::Failed),
{
}

} // verus!
