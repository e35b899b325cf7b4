//! The command channel of a panel: queues scripts and hands them out to the
//! host one action at a time.
//!
//! The channel stores a script in compact form, so that a payload that goes
//! out byte by byte, or a fill of many equal bytes, takes one entry however
//! long it is. What it stands for is the [`Transport`] of the protocol model,
//! and every operation says what it does to that.

use vstd::prelude::*;
use vstd::slice::slice_to_vec;
use crate::protocol::{ActionView, Event, Level, Phase, Select, Step, Transport, action_of, phase_after};
use crate::script::{
    cmd_steps, cmd_with_data_steps, data_steps, each_byte, fill_steps, lemma_strobe_steps, repeat_byte,
    reset_steps, strobe_steps, table_steps, wait_steps,
};

verus! {

/// What the host is asked to do next.
#[derive(Debug, PartialEq, Eq)]
pub enum Action {
    /// Drive the reset line to the level.
    SetReset(Level),
    /// Move the data/command select line.
    SetSelect(Select),
    /// Write the bytes to the bus as one transaction, and report a fault if
    /// the bus refuses them.
    Write(Vec<u8>),
    /// Sleep for the number of microseconds.
    Delay(u32),
    /// Sample the busy line and report its level.
    SampleBusy,
    /// The script has run to its end; nothing is left to do.
    Done,
    /// The bus refused a write; the rest of the script was dropped.
    Failed,
}

impl View for Action {
    type V = ActionView;

    open spec fn view(&self) -> ActionView {
        match self {
            Action::SetReset(level) => ActionView::SetReset(*level),
            Action::SetSelect(select) => ActionView::SetSelect(*select),
            Action::Write(bytes) => ActionView::Write(bytes@),
            Action::Delay(us) => ActionView::Delay(*us),
            Action::SampleBusy => ActionView::SampleBusy,
            Action::Done => ActionView::Done,
            Action::Failed => ActionView::Failed,
        }
    }
}

/// One entry of a panel's configuration table: an opcode and the payload
/// that follows it.
#[derive(Debug, PartialEq, Eq)]
pub struct Entry {
    pub opcode: u8,
    pub payload: Vec<u8>,
}

impl View for Entry {
    type V = (u8, Seq<u8>);

    open spec fn view(&self) -> (u8, Seq<u8>) {
        (self.opcode, self.payload@)
    }
}

/// A configuration table as pairs of an opcode and its payload.
pub open spec fn table_view(table: Seq<Entry>) -> Seq<(u8, Seq<u8>)> {
    Seq::new(table.len(), |i: int| table[i]@)
}

/// One stored entry of a script.
enum Op {
    Reset(Level),
    Select(Select),
    Delay(u32),
    AwaitIdle(Level),
    /// The bytes as one transaction.
    Block(Vec<u8>),
    /// One transaction per byte.
    Each(Vec<u8>),
    /// The byte, written the given number of times.
    Fill(u8, u32),
    /// The byte as a payload of its own, the given number of times.
    Strobe(u8, u32),
}

/// The steps that a stored entry stands for.
spec fn flat(op: Op) -> Seq<Step> {
    match op {
        Op::Reset(level) => seq![Step::Reset(level)],
        Op::Select(select) => seq![Step::Select(select)],
        Op::Delay(us) => seq![Step::Delay(us)],
        Op::AwaitIdle(busy) => seq![Step::AwaitIdle(busy)],
        Op::Block(bytes) => seq![Step::Write(bytes@)],
        Op::Each(bytes) => each_byte(bytes@),
        Op::Fill(value, count) => repeat_byte(value, count as nat),
        Op::Strobe(value, count) => strobe_steps(value, count as nat),
    }
}

/// The steps that the stored entries from position `from` on stand for.
spec fn flat_from(ops: Seq<Op>, from: int) -> Seq<Step>
    decreases ops.len() - from,
{
    if 0 <= from < ops.len() {
        flat(ops[from]) + flat_from(ops, from + 1)
    } else {
        Seq::empty()
    }
}

proof fn lemma_flat_from_push(ops: Seq<Op>, op: Op, from: int)
    requires
        0 <= from <= ops.len(),
    ensures
        flat_from(ops.push(op), from) == flat_from(ops, from) + flat(op),
    decreases ops.len() - from,
{
    let grown = ops.push(op);
    if from < ops.len() {
        lemma_flat_from_push(ops, op, from + 1);
        assert(grown[from] == ops[from]);
        assert(flat_from(grown, from) =~= flat_from(ops, from) + flat(op));
    } else {
        assert(grown[from] == op);
        assert(flat_from(grown, from + 1) =~= Seq::<Step>::empty());
        assert(flat_from(grown, from) =~= flat_from(ops, from) + flat(op));
    }
}

/// A vector that holds one byte.
fn single(byte: u8) -> (bytes: Vec<u8>)
    ensures
        bytes@ == seq![byte],
{
    let bytes = vec![byte];
    assert(bytes@ =~= seq![byte]);
    bytes
}

/// The command channel of one panel.
pub struct DisplayInterface {
    /// The script in flight, in compact form.
    ops: Vec<Op>,
    /// Position of the entry whose steps are being handed out.
    pc: usize,
    /// Number of steps of that entry that have begun.
    done: u64,
    phase: Phase,
    pause_us: u32,
    single_byte_write: bool,
}

impl View for DisplayInterface {
    type V = Transport;

    closed spec fn view(&self) -> Transport {
        Transport {
            pending: flat_from(self.ops@, self.pc as int).skip(self.done as int),
            phase: self.phase,
            pause_us: self.pause_us,
        }
    }
}

/// The phase of a channel after steps were queued: a channel that was idle
/// has a script in flight, any other goes on as it was.
pub open spec fn armed(phase: Phase) -> Phase {
    if phase is Idle {
        Phase::Issuing
    } else {
        phase
    }
}

impl DisplayInterface {
    /// The invariant of the channel: its position lies within the stored
    /// script, and an idle channel stores nothing.
    pub closed spec fn wf(&self) -> bool {
        &&& self.pc <= self.ops.len()
        &&& forall|i: int| 0 <= i < self.ops.len() ==> (#[trigger] flat(self.ops@[i])).len() > 0
        &&& self.pc < self.ops.len() ==> self.done < flat(self.ops@[self.pc as int]).len()
        &&& self.pc == self.ops.len() ==> self.done == 0
        &&& self.phase is Idle ==> self.ops.len() == 0
    }

    /// Whether payloads go out one byte per transaction.
    pub closed spec fn byte_wise(&self) -> bool {
        self.single_byte_write
    }

    /// Number of entries that the channel stores for the script in flight.
    /// A payload, a fill and a strobe take one entry each, however long
    /// they are.
    pub closed spec fn stored(&self) -> nat {
        self.ops.len() as nat
    }

    /// Whether this channel is `before` with `steps` queued behind what was
    /// pending, in at most `entries` stored entries more, and nothing else
    /// changed.
    pub open spec fn queued(&self, before: &DisplayInterface, steps: Seq<Step>, entries: nat) -> bool {
        &&& self.wf()
        &&& self@.pending == before@.pending + steps
        &&& self@.phase == if steps.len() > 0 {
            armed(before@.phase)
        } else {
            before@.phase
        }
        &&& self@.pause_us == before@.pause_us
        &&& self.byte_wise() == before.byte_wise()
        &&& self.stored() <= before.stored() + entries
    }

    /// The pause between two samples of a busy panel when none is given, in
    /// microseconds.
    pub const DEFAULT_PAUSE_US: u32 = 10_000;

    /// A channel with nothing in flight. `delay_us` is the pause between two
    /// samples of a busy panel; `single_byte_write` makes every payload go
    /// out one byte per transaction.
    pub fn new(delay_us: Option<u32>, single_byte_write: bool) -> (interface: DisplayInterface)
        ensures
            interface.wf(),
            interface@ == Transport::idle(
                match delay_us {
                    Some(us) => us,
                    None => Self::DEFAULT_PAUSE_US,
                },
            ),
            interface.byte_wise() == single_byte_write,
            interface.stored() == 0,
    {
        let pause_us: u32 = match delay_us {
            Some(us) => us,
            None => Self::DEFAULT_PAUSE_US,
        };
        let interface = DisplayInterface {
            ops: Vec::new(),
            pc: 0,
            done: 0,
            phase: Phase::Idle,
            pause_us,
            single_byte_write,
        };
        assert(interface@.pending =~= Seq::<Step>::empty());
        interface
    }

    /// An idle channel has nothing pending and stores nothing.
    pub proof fn lemma_idle_is_empty(&self)
        requires
            self.wf(),
            self@.phase is Idle,
        ensures
            self@ == Transport::idle(self@.pause_us),
            self.stored() == 0,
    {
        assert(self@.pending =~= Seq::<Step>::empty());
    }

    /// Whether nothing is in flight.
    pub fn is_idle(&self) -> (idle: bool)
        ensures
            idle == (self@.phase is Idle),
    {
        match self.phase {
            Phase::Idle => true,
            _ => false,
        }
    }

    /// Appends one entry to the stored script.
    fn push(&mut self, op: Op)
        requires
            old(self).wf(),
            flat(op).len() > 0,
        ensures
            final(self).queued(old(self), flat(op), 1),
    {
        proof {
            lemma_flat_from_push(self.ops@, op, self.pc as int);
        }
        self.ops.push(op);
        if self.is_idle() {
            self.phase = Phase::Issuing;
        }
        assert(final(self)@.pending =~= old(self)@.pending + flat(op));
    }

    /// Queues a reset: the reset line goes low for `low_us` microseconds,
    /// high for `high_us`, and the pair is repeated once.
    pub fn reset(&mut self, low_us: u32, high_us: u32)
        requires
            old(self).wf(),
        ensures
            final(self).queued(old(self), reset_steps(low_us, high_us), 8),
    {
        self.push(Op::Reset(Level::Low));
        self.push(Op::Delay(low_us));
        self.push(Op::Reset(Level::High));
        self.push(Op::Delay(high_us));
        self.push(Op::Reset(Level::Low));
        self.push(Op::Delay(low_us));
        self.push(Op::Reset(Level::High));
        self.push(Op::Delay(high_us));
        assert(final(self)@.pending =~= old(self)@.pending + reset_steps(low_us, high_us));
    }

    /// Queues a sleep of `us` microseconds.
    pub fn delay_us(&mut self, us: u32)
        requires
            old(self).wf(),
        ensures
            final(self).queued(old(self), seq![Step::Delay(us)], 1),
    {
        self.push(Op::Delay(us));
    }

    /// Queues a wait for the panel: the busy line is sampled, with the
    /// channel's pause between two samples, until it is no longer at the
    /// level `busy`.
    pub fn wait_until_idle(&mut self, busy: Level)
        requires
            old(self).wf(),
        ensures
            final(self).queued(old(self), wait_steps(busy), 1),
    {
        self.push(Op::AwaitIdle(busy));
    }

    /// Queues an opcode: the select line goes to command, then the opcode is
    /// written.
    pub fn cmd(&mut self, opcode: u8)
        requires
            old(self).wf(),
        ensures
            final(self).queued(old(self), cmd_steps(opcode), 2),
    {
        self.push(Op::Select(Select::Command));
        self.push(Op::Block(single(opcode)));
        assert(final(self)@.pending =~= old(self)@.pending + cmd_steps(opcode));
    }

    /// Queues a payload: the select line goes to data, then the bytes are
    /// written, one transaction per byte on a byte-wise channel and one
    /// transaction for all of them otherwise.
    pub fn data(&mut self, bytes: &[u8])
        requires
            old(self).wf(),
        ensures
            final(self).queued(old(self), data_steps(old(self).byte_wise(), bytes@), 2),
    {
        self.push(Op::Select(Select::Data));
        if !self.single_byte_write {
            self.push(Op::Block(slice_to_vec(bytes)));
        } else if bytes.len() > 0 {
            self.push(Op::Each(slice_to_vec(bytes)));
        }
        assert(final(self)@.pending =~= old(self)@.pending + data_steps(old(self).byte_wise(), bytes@));
    }

    /// Queues a bulk fill: the select line goes to data once, then `value`
    /// is written `count` times, one byte per transaction. The channel
    /// stores two entries for it, whatever `count` is.
    pub fn data_x_times(&mut self, value: u8, count: u32)
        requires
            old(self).wf(),
        ensures
            final(self).queued(old(self), fill_steps(value, count as nat), 2),
    {
        self.push(Op::Select(Select::Data));
        if count > 0 {
            self.push(Op::Fill(value, count));
        }
        assert(final(self)@.pending =~= old(self)@.pending + fill_steps(value, count as nat));
    }

    /// Queues a strobe: `count` payloads of the single byte `value`, the
    /// select line going to data before each of them. This is what `count`
    /// calls of `data` with that byte queue, in one stored entry.
    pub fn strobe(&mut self, value: u8, count: u32)
        requires
            old(self).wf(),
        ensures
            final(self).queued(old(self), strobe_steps(value, count as nat), 1),
    {
        proof {
            lemma_strobe_steps(value, count as nat);
        }
        if count > 0 {
            self.push(Op::Strobe(value, count));
        } else {
            assert(final(self)@.pending =~= old(self)@.pending + strobe_steps(value, 0));
        }
    }

    /// Queues an opcode followed by its payload.
    pub fn cmd_with_data(&mut self, opcode: u8, bytes: &[u8])
        requires
            old(self).wf(),
        ensures
            final(self).queued(old(self), cmd_with_data_steps(old(self).byte_wise(), opcode, bytes@), 4),
    {
        self.cmd(opcode);
        self.data(bytes);
        assert(final(self)@.pending =~= old(self)@.pending + cmd_with_data_steps(
            old(self).byte_wise(),
            opcode,
            bytes@,
        ));
    }

    /// Queues a configuration table: each entry's opcode followed by its
    /// payload, in the order of the table.
    pub fn cmd_table(&mut self, table: &[Entry])
        requires
            old(self).wf(),
        ensures
            final(self).queued(
                old(self),
                table_steps(old(self).byte_wise(), table_view(table@)),
                4 * table@.len(),
            ),
    {
        let ghost entries = table_view(table@);
        let ghost byte_wise = self.byte_wise();
        let mut i: usize = 0;
        assert(self@.pending =~= old(self)@.pending + table_steps(byte_wise, entries.take(0)));
        while i < table.len()
            invariant
                i <= table.len(),
                entries == table_view(table@),
                byte_wise == old(self).byte_wise(),
                self.queued(old(self), table_steps(byte_wise, entries.take(i as int)), 4 * i as nat),
            decreases table.len() - i,
        {
            self.cmd_with_data(table[i].opcode, table[i].payload.as_slice());
            proof {
                let upto = entries.take(i + 1);
                assert(upto.drop_last() =~= entries.take(i as int));
                assert(upto.last() == entries[i as int]);
                assert(self@.pending =~= old(self)@.pending + table_steps(byte_wise, upto));
            }
            i = i + 1;
        }
        assert(entries.take(i as int) =~= entries);
    }

    /// Drops the stored script.
    fn halt(&mut self)
        ensures
            final(self).wf(),
            final(self)@ == Transport::idle(old(self)@.pause_us),
            final(self).byte_wise() == old(self).byte_wise(),
            final(self).stored() == 0,
    {
        self.ops.clear();
        self.pc = 0;
        self.done = 0;
        self.phase = Phase::Idle;
        assert(final(self)@.pending =~= Seq::<Step>::empty());
    }

    /// Begins the first pending step, or ends the script when none is left.
    fn issue(&mut self) -> (action: Action)
        requires
            old(self).wf(),
        ensures
            final(self).wf(),
            final(self)@ == old(self)@.issue().0,
            action@ == old(self)@.issue().1,
            final(self).byte_wise() == old(self).byte_wise(),
            final(self).stored() <= old(self).stored(),
    {
        if self.pc >= self.ops.len() {
            assert(self@.pending =~= Seq::<Step>::empty());
            self.halt();
            return Action::Done;
        }
        let ghost head = flat(self.ops@[self.pc as int]);
        let ghost later = flat_from(self.ops@, self.pc + 1);
        assert(flat_from(self.ops@, self.pc as int) == head + later);
        let (action, len): (Action, u64) = match &self.ops[self.pc] {
            Op::Reset(level) => (Action::SetReset(*level), 1),
            Op::Select(select) => (Action::SetSelect(*select), 1),
            Op::Delay(us) => (Action::Delay(*us), 1),
            Op::AwaitIdle(_) => (Action::SampleBusy, 1),
            Op::Block(bytes) => (Action::Write(slice_to_vec(bytes.as_slice())), 1),
            Op::Each(bytes) => (Action::Write(single(bytes[self.done as usize])), bytes.len() as u64),
            Op::Fill(value, count) => (Action::Write(single(*value)), *count as u64),
            Op::Strobe(value, count) => {
                proof {
                    lemma_strobe_steps(*value, *count as nat);
                    assert(self.done == 2 * (self.done / 2) || self.done == 2 * (self.done / 2) + 1);
                }
                if self.done % 2 == 0 {
                    (Action::SetSelect(Select::Data), 2 * (*count as u64))
                } else {
                    (Action::Write(single(*value)), 2 * (*count as u64))
                }
            },
        };
        let phase = match &self.ops[self.pc] {
            Op::AwaitIdle(busy) => Phase::Sampling(*busy),
            _ => match &action {
                Action::Write(_) => Phase::Writing,
                _ => Phase::Issuing,
            },
        };
        assert(len == head.len());
        assert(self@.pending[0] == head[self.done as int]);
        assert(action@ == action_of(head[self.done as int]));
        assert(phase == phase_after(head[self.done as int]));
        self.phase = phase;
        if self.done + 1 < len {
            self.done = self.done + 1;
            assert(final(self)@.pending =~= old(self)@.pending.drop_first());
        } else {
            self.pc = self.pc + 1;
            self.done = 0;
            assert(final(self)@.pending =~= old(self)@.pending.drop_first());
        }
        action
    }

    /// Takes the host's report on the last action and answers with the next
    /// one. The first call after a script was queued starts it, whatever the
    /// event.
    ///
    /// A fault reported for a write ends the script with `Failed`; a sample
    /// that finds the panel busy is answered with the pause and then with
    /// another sample; anything else begins the next step, and `Done` when
    /// none is left.
    pub fn step(&mut self, event: Event) -> (action: Action)
        requires
            old(self).wf(),
        ensures
            final(self).wf(),
            final(self)@ == old(self)@.step(event).0,
            action@ == old(self)@.step(event).1,
            final(self).byte_wise() == old(self).byte_wise(),
            final(self).stored() <= old(self).stored(),
    {
        match self.phase {
            Phase::Writing => {
                if let Event::Fault = event {
                    self.halt();
                    return Action::Failed;
                }
            },
            Phase::Sampling(busy) => {
                if let Event::Sampled(level) = event {
                    if level == busy {
                        self.phase = Phase::Pausing(busy);
                        return Action::Delay(self.pause_us);
                    }
                }
            },
            Phase::Pausing(busy) => {
                self.phase = Phase::Sampling(busy);
                return Action::SampleBusy;
            },
            _ => {},
        }
        self.issue()
    }
}

} // verus!
