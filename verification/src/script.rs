//! The scripts that the operations of a command channel stand for, and
//! what each of them shows on the lines.

use vstd::prelude::*;
use crate::protocol::{ActionView, Event, Level, Select, Step, Transport, lemma_smooth_trace};

verus! {

/// The script of a reset: the line goes low for `low_us`, high for
/// `high_us`, and the pair is repeated once.
pub open spec fn reset_steps(low_us: u32, high_us: u32) -> Seq<Step> {
    seq![
        Step::Reset(Level::Low),
        Step::Delay(low_us),
        Step::Reset(Level::High),
        Step::Delay(high_us),
        Step::Reset(Level::Low),
        Step::Delay(low_us),
        Step::Reset(Level::High),
        Step::Delay(high_us),
    ]
}

/// The script of a wait for the panel: one poll of the busy line.
pub open spec fn wait_steps(busy: Level) -> Seq<Step> {
    seq![Step::AwaitIdle(busy)]
}

/// The script of an opcode: the select line goes to command, then the
/// opcode is written.
pub open spec fn cmd_steps(opcode: u8) -> Seq<Step> {
    seq![Step::Select(Select::Command), Step::Write(seq![opcode])]
}

/// One write per byte, in order.
pub open spec fn each_byte(bytes: Seq<u8>) -> Seq<Step> {
    Seq::new(bytes.len(), |i: int| Step::Write(seq![bytes[i]]))
}

/// `count` writes of the single byte `value`.
pub open spec fn repeat_byte(value: u8, count: nat) -> Seq<Step> {
    Seq::new(count, |i: int| Step::Write(seq![value]))
}

/// The script of a payload: the select line goes to data, then the bytes
/// are written, byte by byte or as one transaction.
pub open spec fn data_steps(byte_wise: bool, bytes: Seq<u8>) -> Seq<Step> {
    seq![Step::Select(Select::Data)] + if byte_wise {
        each_byte(bytes)
    } else {
        seq![Step::Write(bytes)]
    }
}

/// The script of a bulk fill: the select line goes to data once, then
/// `value` is written `count` times.
pub open spec fn fill_steps(value: u8, count: nat) -> Seq<Step> {
    seq![Step::Select(Select::Data)] + repeat_byte(value, count)
}

/// The script of an opcode followed by its payload.
pub open spec fn cmd_with_data_steps(byte_wise: bool, opcode: u8, bytes: Seq<u8>) -> Seq<Step> {
    cmd_steps(opcode) + data_steps(byte_wise, bytes)
}

/// The script of a configuration table: each entry's opcode followed by its
/// payload, in the order of the table.
pub open spec fn table_steps(byte_wise: bool, table: Seq<(u8, Seq<u8>)>) -> Seq<Step>
    decreases table.len(),
{
    if table.len() == 0 {
        Seq::empty()
    } else {
        table_steps(byte_wise, table.drop_last()) + cmd_with_data_steps(
            byte_wise,
            table.last().0,
            table.last().1,
        )
    }
}

/// A script repeated a number of times.
pub open spec fn repeated(unit: Seq<Step>, times: nat) -> Seq<Step>
    decreases times,
{
    if times == 0 {
        Seq::empty()
    } else {
        repeated(unit, (times - 1) as nat) + unit
    }
}

/// The script of `count` payloads of the single byte `value`: for each of
/// them the select line goes to data and the byte is written.
pub open spec fn strobe_steps(value: u8, count: nat) -> Seq<Step> {
    repeated(seq![Step::Select(Select::Data), Step::Write(seq![value])], count)
}

/// Whether a script moves the select line before it writes: every write
/// follows a move of the select line or another write, so that no write
/// stands first or follows a reset, a delay or a wait.
pub open spec fn selects_before_writes(steps: Seq<Step>) -> bool {
    forall|i: int|
        0 <= i < steps.len() && (#[trigger] steps[i]) is Write ==> i > 0 && (steps[i - 1] is Select || steps[i
            - 1] is Write)
}

/// Two scripts that move the select line before they write still do so
/// when one is queued behind the other.
pub proof fn lemma_selects_before_writes_concat(first: Seq<Step>, second: Seq<Step>)
    requires
        selects_before_writes(first),
        selects_before_writes(second),
    ensures
        selects_before_writes(first + second),
{
    let both = first + second;
    assert forall|i: int| 0 <= i < both.len() && (#[trigger] both[i]) is Write implies i > 0 && (both[i - 1] is Select
        || both[i - 1] is Write) by {
        if i < first.len() {
            assert(both[i] == first[i]);
            assert(both[i - 1] == first[i - 1]);
        } else {
            assert(both[i] == second[i - first.len()]);
            assert(both[i - 1] == second[i - first.len() - 1]);
        }
    }
}

/// A script that moves the select line before it writes still does so
/// when it is repeated.
pub proof fn lemma_selects_before_writes_repeated(unit: Seq<Step>, times: nat)
    requires
        selects_before_writes(unit),
    ensures
        selects_before_writes(repeated(unit, times)),
    decreases times,
{
    if times > 0 {
        lemma_selects_before_writes_repeated(unit, (times - 1) as nat);
        lemma_selects_before_writes_concat(repeated(unit, (times - 1) as nat), unit);
    }
}

/// Every script of the command channel moves the select line before it
/// writes: an opcode goes out behind a move to command, a payload, a fill
/// and each byte of a strobe behind a move to data, and a reset and a wait
/// write nothing.
pub proof fn lemma_channel_selects_before_writes(
    low_us: u32,
    high_us: u32,
    busy: Level,
    byte_wise: bool,
    opcode: u8,
    bytes: Seq<u8>,
    value: u8,
    count: nat,
)
    ensures
        selects_before_writes(reset_steps(low_us, high_us)),
        selects_before_writes(wait_steps(busy)),
        selects_before_writes(cmd_steps(opcode)),
        selects_before_writes(data_steps(byte_wise, bytes)),
        selects_before_writes(cmd_with_data_steps(byte_wise, opcode, bytes)),
        selects_before_writes(fill_steps(value, count)),
        selects_before_writes(strobe_steps(value, count)),
{
    lemma_selects_before_writes_repeated(seq![Step::Select(Select::Data), Step::Write(seq![value])], count);
    lemma_selects_before_writes_concat(cmd_steps(opcode), data_steps(byte_wise, bytes));
}

/// A configuration table moves the select line before each of its writes.
pub proof fn lemma_table_selects_before_writes(byte_wise: bool, table: Seq<(u8, Seq<u8>)>)
    ensures
        selects_before_writes(table_steps(byte_wise, table)),
    decreases table.len(),
{
    if table.len() > 0 {
        lemma_table_selects_before_writes(byte_wise, table.drop_last());
        lemma_channel_selects_before_writes(0, 0, Level::Low, byte_wise, table.last().0, table.last().1, 0, 0);
        lemma_selects_before_writes_concat(
            table_steps(byte_wise, table.drop_last()),
            cmd_with_data_steps(byte_wise, table.last().0, table.last().1),
        );
    }
}

/// A reset shows on the lines as two full pulses, low then high, each level
/// held for its duration, whatever the host reports back.
pub proof fn lemma_reset_trace(start: Transport, low_us: u32, high_us: u32, events: Seq<Event>)
    requires
        start.phase is Idle || start.phase is Issuing,
        start.pending == reset_steps(low_us, high_us),
        events.len() == 8,
    ensures
        start.trace(events) == seq![
            ActionView::SetReset(Level::Low),
            ActionView::Delay(low_us),
            ActionView::SetReset(Level::High),
            ActionView::Delay(high_us),
            ActionView::SetReset(Level::Low),
            ActionView::Delay(low_us),
            ActionView::SetReset(Level::High),
            ActionView::Delay(high_us),
        ],
{
    lemma_smooth_trace(start, events);
    assert(start.trace(events) =~= seq![
        ActionView::SetReset(Level::Low),
        ActionView::Delay(low_us),
        ActionView::SetReset(Level::High),
        ActionView::Delay(high_us),
        ActionView::SetReset(Level::Low),
        ActionView::Delay(low_us),
        ActionView::SetReset(Level::High),
        ActionView::Delay(high_us),
    ]);
}

/// A payload that goes out byte by byte moves the select line to data
/// once and then writes each byte in a transaction of its own, in order.
pub proof fn lemma_byte_wise_data_steps(bytes: Seq<u8>)
    ensures
        data_steps(true, bytes).len() == bytes.len() + 1,
        data_steps(true, bytes)[0] == Step::Select(Select::Data),
        forall|i: int|
            0 <= i < bytes.len() ==> #[trigger] data_steps(true, bytes)[i + 1] == Step::Write(seq![bytes[i]]),
{
}

/// A bulk fill moves the select line to data once and then writes the
/// byte exactly `count` times, one byte per write.
pub proof fn lemma_fill_steps(value: u8, count: nat)
    ensures
        fill_steps(value, count).len() == count + 1,
        fill_steps(value, count)[0] == Step::Select(Select::Data),
        forall|i: int| 1 <= i <= count ==> #[trigger] fill_steps(value, count)[i] == Step::Write(seq![value]),
{
}

/// A payload of one byte is the same script on every channel, byte-wise
/// or not, and repeating it is a strobe of that byte.
pub proof fn lemma_strobe_is_repeated_data(byte_wise: bool, value: u8, count: nat)
    ensures
        strobe_steps(value, count) == repeated(data_steps(byte_wise, seq![value]), count),
{
    assert(data_steps(byte_wise, seq![value]) =~= seq![Step::Select(Select::Data), Step::Write(seq![value])]);
}

/// A strobe of `count` bytes moves the select line to data and writes
/// the byte, `count` times over.
pub proof fn lemma_strobe_steps(value: u8, count: nat)
    ensures
        strobe_steps(value, count).len() == 2 * count,
        forall|i: int|
            0 <= i < count ==> #[trigger] strobe_steps(value, count)[2 * i] == Step::Select(Select::Data),
        forall|i: int|
            0 <= i < count ==> #[trigger] strobe_steps(value, count)[2 * i + 1] == Step::Write(seq![value]),
    decreases count,
{
    if count > 0 {
        lemma_strobe_steps(value, (count - 1) as nat);
        let before = strobe_steps(value, (count - 1) as nat);
        let unit = seq![Step::Select(Select::Data), Step::Write(seq![value])];
        assert(strobe_steps(value, count) == before + unit);
        assert forall|i: int| 0 <= i < count implies #[trigger] strobe_steps(value, count)[2 * i]
            == Step::Select(Select::Data) by {
            if i == count - 1 {
                assert(strobe_steps(value, count)[2 * i] == unit[0]);
            } else {
                assert(strobe_steps(value, count)[2 * i] == before[2 * i]);
            }
        }
        assert forall|i: int| 0 <= i < count implies #[trigger] strobe_steps(value, count)[2 * i + 1]
            == Step::Write(seq![value]) by {
            if i == count - 1 {
                assert(strobe_steps(value, count)[2 * i + 1] == unit[1]);
            } else {
                assert(strobe_steps(value, count)[2 * i + 1] == before[2 * i + 1]);
            }
        }
    }
}

} // verus!
