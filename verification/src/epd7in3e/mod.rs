//! Driver for the 7.3 inch seven-color panel, 800 by 480 pixels.
//!
//! The driver queues the script of each operation on its command channel
//! and is then stepped by the host until the script has run. The lifecycle
//! state moves when the script ends: a script that fails leaves it where it
//! was.

use vstd::prelude::*;
use crate::buffer::{FrameBuffer, FrameView, spec_buffer_len};
use crate::color::{ColorModel, OctColor};
use crate::interface::{Action, DisplayInterface, Entry, table_view};
use crate::lifecycle::{DriverError, DriverState, PanelView, RefreshLut};
use crate::protocol::{Event, Level, Phase, Select, Step, Transport};
use crate::script::{
    cmd_steps, cmd_with_data_steps, fill_steps, lemma_channel_selects_before_writes, lemma_fill_steps,
    lemma_selects_before_writes_concat, lemma_selects_before_writes_repeated,
    lemma_table_selects_before_writes, repeated, reset_steps, selects_before_writes, strobe_steps,
    table_steps, wait_steps,
};
use self::command::Command;

pub mod command;

verus! {

/// Width of the display in pixels.
pub const WIDTH: u32 = 800;

/// Height of the display in pixels.
pub const HEIGHT: u32 = 480;

/// The background color of a new driver.
pub const DEFAULT_BACKGROUND_COLOR: OctColor = OctColor::White;

/// The panel takes its payloads one byte per transaction.
pub const SINGLE_BYTE_WRITE: bool = true;

/// The level of the busy line while the panel is busy.
pub const BUSY_LEVEL: Level = Level::Low;

/// How long the reset line is held low, in microseconds.
pub const RESET_LOW_US: u32 = 20_000;

/// How long the reset line is held high, in microseconds.
pub const RESET_HIGH_US: u32 = 2_000;

/// How long the panel is left alone after its reset, in microseconds.
pub const SETTLE_US: u32 = 30_000;

/// The panel's configuration: the registers in the order in which they are
/// written, each with its payload.
pub open spec fn spec_init_table() -> Seq<(u8, Seq<u8>)> {
    seq![
        (Command::CMDH.spec_address(), seq![0x49u8, 0x55, 0x20, 0x08, 0x09, 0x18]),
        (Command::Ox01.spec_address(), seq![0x3Fu8, 0x00, 0x32, 0x2A, 0x0E, 0x2A]),
        (Command::Ox00.spec_address(), seq![0x5Fu8, 0x69]),
        (Command::Ox03.spec_address(), seq![0x00u8, 0x54, 0x00, 0x44]),
        (Command::Ox05.spec_address(), seq![0x40u8, 0x1F, 0x1F, 0x2C]),
        (Command::Ox06.spec_address(), seq![0x6Fu8, 0x1F, 0x1F, 0x22]),
        (Command::Ox08.spec_address(), seq![0x6Fu8, 0x1F, 0x1F, 0x22]),
        (Command::IPC.spec_address(), seq![0x00u8, 0x04]),
        (Command::Ox30.spec_address(), seq![0x3Cu8]),
        (Command::TSE.spec_address(), seq![0x00u8]),
        (Command::Ox50.spec_address(), seq![0x3Fu8]),
        (Command::Ox60.spec_address(), seq![0x02u8, 0x00]),
        (Command::Ox61.spec_address(), seq![0x03u8, 0x20, 0x01, 0xE0]),
        (Command::Ox82.spec_address(), seq![0x1Eu8]),
        (Command::Ox84.spec_address(), seq![0x00u8]),
        (Command::AGID.spec_address(), seq![0x00u8]),
        (Command::OxE3.spec_address(), seq![0x2Fu8]),
        (Command::CCSET.spec_address(), seq![0x00u8]),
        (Command::TSSET.spec_address(), seq![0x00u8]),
    ]
}

/// The script that configures the panel: a reset, a wait for the panel, a
/// pause, and the configuration table.
pub open spec fn init_steps() -> Seq<Step> {
    reset_steps(RESET_LOW_US, RESET_HIGH_US) + wait_steps(BUSY_LEVEL) + seq![Step::Delay(SETTLE_US)]
        + table_steps(SINGLE_BYTE_WRITE, spec_init_table())
}

/// The script that puts the panel into deep sleep.
pub open spec fn sleep_steps() -> Seq<Step> {
    cmd_with_data_steps(SINGLE_BYTE_WRITE, Command::DeepSleep.spec_address(), seq![0xA5u8])
}

/// The script that transmits a frame: a wait for the panel, then the
/// buffer as the payload of the transmission opcode.
pub open spec fn update_frame_steps(buffer: Seq<u8>) -> Seq<Step> {
    wait_steps(BUSY_LEVEL) + cmd_with_data_steps(
        SINGLE_BYTE_WRITE,
        Command::DataStartTransmission.spec_address(),
        buffer,
    )
}

/// The script that shows the transmitted frame: power on, refresh, power
/// off, with a wait for the panel after each.
pub open spec fn display_frame_steps() -> Seq<Step> {
    cmd_steps(Command::PowerOn.spec_address()) + wait_steps(BUSY_LEVEL) + cmd_with_data_steps(
        SINGLE_BYTE_WRITE,
        Command::DataFresh.spec_address(),
        seq![0x00u8],
    ) + wait_steps(BUSY_LEVEL) + cmd_with_data_steps(
        SINGLE_BYTE_WRITE,
        Command::PowerOff.spec_address(),
        seq![0x00u8],
    ) + wait_steps(BUSY_LEVEL)
}

/// The script that clears the panel to one color: a wait for the panel,
/// the transmission opcode, one byte of two samples for every two pixels
/// as a bulk fill, and the script that shows the frame.
pub open spec fn clear_frame_steps(background: OctColor) -> Seq<Step> {
    wait_steps(BUSY_LEVEL) + cmd_steps(Command::DataStartTransmission.spec_address()) + fill_steps(
        OctColor::spec_colors_byte(background, background),
        (WIDTH * HEIGHT / 2) as nat,
    ) + display_frame_steps()
}

/// The colors of the test pattern, in the order of its bars.
pub open spec fn test_colors() -> Seq<OctColor> {
    seq![
        OctColor::Black,
        OctColor::White,
        OctColor::Green,
        OctColor::Blue,
        OctColor::Red,
        OctColor::Yellow,
        OctColor::Orange,
    ]
}

/// The script of one row of bars: for each color in turn, `width` payloads
/// of one byte each, every byte holding the color twice.
pub open spec fn bar_row_steps(colors: Seq<OctColor>, width: nat) -> Seq<Step>
    decreases colors.len(),
{
    if colors.len() == 0 {
        Seq::empty()
    } else {
        bar_row_steps(colors.drop_last(), width) + strobe_steps(
            OctColor::spec_colors_byte(colors.last(), colors.last()),
            width,
        )
    }
}

/// The script of the test pattern: the transmission opcode, 240 rows of
/// the first four colors in bars of 100 bytes, 240 rows of the last four
/// in bars of 114 bytes, and the script that shows the frame.
pub open spec fn show_colors_steps() -> Seq<Step> {
    cmd_steps(Command::DataStartTransmission.spec_address()) + repeated(
        bar_row_steps(test_colors().subrange(0, 4), 100),
        240,
    ) + repeated(bar_row_steps(test_colors().subrange(3, 7), 114), 240) + display_frame_steps()
}

/// Clearing the panel writes one byte for every two pixels, 192 000 in
/// all: each is the byte that holds the color twice, and each goes out in
/// a write of its own. The select line goes to data once before them; the
/// wait and the transmission opcode stand before that, the refresh behind.
pub proof fn lemma_clear_frame_fill(background: OctColor)
    ensures
        WIDTH * HEIGHT / 2 == 192_000,
        clear_frame_steps(background).len() == 192_017,
        clear_frame_steps(background).subrange(0, 3) == wait_steps(BUSY_LEVEL) + cmd_steps(
            Command::DataStartTransmission.spec_address(),
        ),
        clear_frame_steps(background)[3] == Step::Select(Select::Data),
        forall|i: int|
            4 <= i < 192_004 ==> #[trigger] clear_frame_steps(background)[i] == Step::Write(
                seq![OctColor::spec_colors_byte(background, background)],
            ),
        clear_frame_steps(background).subrange(192_004, 192_017) == display_frame_steps(),
{
    let byte = OctColor::spec_colors_byte(background, background);
    let head = wait_steps(BUSY_LEVEL) + cmd_steps(Command::DataStartTransmission.spec_address());
    let fill = fill_steps(byte, 192_000);
    let steps = clear_frame_steps(background);
    lemma_fill_steps(byte, 192_000);
    assert(steps =~= head + fill + display_frame_steps());
    assert(steps.subrange(0, 3) =~= head);
    assert forall|i: int| 4 <= i < 192_004 implies #[trigger] steps[i] == Step::Write(seq![byte]) by {
        assert(steps[i] == fill[i - 3]);
    }
    assert(steps[3] == fill[0]);
    assert(steps.subrange(192_004, 192_017) =~= display_frame_steps());
}

/// A row of bars moves the select line before each of its writes.
proof fn lemma_bar_row_selects_before_writes(colors: Seq<OctColor>, width: nat)
    ensures
        selects_before_writes(bar_row_steps(colors, width)),
    decreases colors.len(),
{
    if colors.len() > 0 {
        let byte = OctColor::spec_colors_byte(colors.last(), colors.last());
        lemma_bar_row_selects_before_writes(colors.drop_last(), width);
        lemma_channel_selects_before_writes(0, 0, BUSY_LEVEL, SINGLE_BYTE_WRITE, 0, Seq::empty(), byte, width);
        lemma_selects_before_writes_concat(bar_row_steps(colors.drop_last(), width), strobe_steps(byte, width));
    }
}

/// Every operation of the driver moves the select line before it writes,
/// whatever the frame and the background: no opcode and no payload goes
/// out with the select line where a reset, a delay or a wait left it.
pub proof fn lemma_operations_select_before_writes(buffer: Seq<u8>, background: OctColor)
    ensures
        selects_before_writes(init_steps()),
        selects_before_writes(sleep_steps()),
        selects_before_writes(update_frame_steps(buffer)),
        selects_before_writes(display_frame_steps()),
        selects_before_writes(update_frame_steps(buffer) + display_frame_steps()),
        selects_before_writes(clear_frame_steps(background)),
        selects_before_writes(show_colors_steps()),
{
    let wait = wait_steps(BUSY_LEVEL);
    let open = cmd_steps(Command::DataStartTransmission.spec_address());
    let zero = seq![0x00u8];
    let on = cmd_steps(Command::PowerOn.spec_address());
    let fresh = cmd_with_data_steps(SINGLE_BYTE_WRITE, Command::DataFresh.spec_address(), zero);
    let off = cmd_with_data_steps(SINGLE_BYTE_WRITE, Command::PowerOff.spec_address(), zero);
    let fill = fill_steps(OctColor::spec_colors_byte(background, background), (WIDTH * HEIGHT / 2) as nat);
    lemma_channel_selects_before_writes(
        RESET_LOW_US,
        RESET_HIGH_US,
        BUSY_LEVEL,
        SINGLE_BYTE_WRITE,
        Command::DataStartTransmission.spec_address(),
        buffer,
        OctColor::spec_colors_byte(background, background),
        (WIDTH * HEIGHT / 2) as nat,
    );
    lemma_channel_selects_before_writes(
        0,
        0,
        BUSY_LEVEL,
        SINGLE_BYTE_WRITE,
        Command::DeepSleep.spec_address(),
        seq![0xA5u8],
        0,
        0,
    );
    lemma_channel_selects_before_writes(
        0,
        0,
        BUSY_LEVEL,
        SINGLE_BYTE_WRITE,
        Command::PowerOn.spec_address(),
        zero,
        0,
        0,
    );
    lemma_channel_selects_before_writes(
        0,
        0,
        BUSY_LEVEL,
        SINGLE_BYTE_WRITE,
        Command::DataFresh.spec_address(),
        zero,
        0,
        0,
    );
    lemma_channel_selects_before_writes(
        0,
        0,
        BUSY_LEVEL,
        SINGLE_BYTE_WRITE,
        Command::PowerOff.spec_address(),
        zero,
        0,
        0,
    );

    // The refresh.
    lemma_selects_before_writes_concat(on, wait);
    lemma_selects_before_writes_concat(on + wait, fresh);
    lemma_selects_before_writes_concat(on + wait + fresh, wait);
    lemma_selects_before_writes_concat(on + wait + fresh + wait, off);
    lemma_selects_before_writes_concat(on + wait + fresh + wait + off, wait);

    // The configuration.
    let reset = reset_steps(RESET_LOW_US, RESET_HIGH_US);
    let settle = seq![Step::Delay(SETTLE_US)];
    lemma_table_selects_before_writes(SINGLE_BYTE_WRITE, spec_init_table());
    lemma_selects_before_writes_concat(reset, wait);
    lemma_selects_before_writes_concat(reset + wait, settle);
    lemma_selects_before_writes_concat(reset + wait + settle, table_steps(SINGLE_BYTE_WRITE, spec_init_table()));

    // The frame, from a buffer and as a fill.
    let frame = cmd_with_data_steps(SINGLE_BYTE_WRITE, Command::DataStartTransmission.spec_address(), buffer);
    lemma_selects_before_writes_concat(wait, frame);
    lemma_selects_before_writes_concat(update_frame_steps(buffer), display_frame_steps());
    lemma_selects_before_writes_concat(wait, open);
    lemma_selects_before_writes_concat(wait + open, fill);
    lemma_selects_before_writes_concat(wait + open + fill, display_frame_steps());

    // The test pattern.
    let upper = bar_row_steps(test_colors().subrange(0, 4), 100);
    let lower = bar_row_steps(test_colors().subrange(3, 7), 114);
    lemma_bar_row_selects_before_writes(test_colors().subrange(0, 4), 100);
    lemma_bar_row_selects_before_writes(test_colors().subrange(3, 7), 114);
    lemma_selects_before_writes_repeated(upper, 240);
    lemma_selects_before_writes_repeated(lower, 240);
    lemma_selects_before_writes_concat(open, repeated(upper, 240));
    lemma_selects_before_writes_concat(open + repeated(upper, 240), repeated(lower, 240));
    lemma_selects_before_writes_concat(
        open + repeated(upper, 240) + repeated(lower, 240),
        display_frame_steps(),
    );
}

/// The driver of one 7.3 inch panel.
pub struct Epd7in3e {
    /// The command channel.
    interface: DisplayInterface,
    /// The background color.
    color: OctColor,
    state: DriverState,
    goal: DriverState,
}

impl View for Epd7in3e {
    type V = PanelView<OctColor>;

    closed spec fn view(&self) -> PanelView<OctColor> {
        PanelView { state: self.state, goal: self.goal, background: self.color, transport: self.interface@ }
    }
}

/// One entry of the configuration table.
fn entry(command: Command, payload: &[u8]) -> (entry: Entry)
    ensures
        entry@ == (command.spec_address(), payload@),
{
    Entry { opcode: command.address(), payload: vstd::slice::slice_to_vec(payload) }
}

/// The panel's configuration table.
pub fn init_table() -> (table: Vec<Entry>)
    ensures
        table_view(table@) == spec_init_table(),
{
    let mut table: Vec<Entry> = Vec::new();
    table.push(entry(Command::CMDH, &[0x49, 0x55, 0x20, 0x08, 0x09, 0x18]));
    table.push(entry(Command::Ox01, &[0x3F, 0x00, 0x32, 0x2A, 0x0E, 0x2A]));
    table.push(entry(Command::Ox00, &[0x5F, 0x69]));
    table.push(entry(Command::Ox03, &[0x00, 0x54, 0x00, 0x44]));
    table.push(entry(Command::Ox05, &[0x40, 0x1F, 0x1F, 0x2C]));
    table.push(entry(Command::Ox06, &[0x6F, 0x1F, 0x1F, 0x22]));
    table.push(entry(Command::Ox08, &[0x6F, 0x1F, 0x1F, 0x22]));
    table.push(entry(Command::IPC, &[0x00, 0x04]));
    table.push(entry(Command::Ox30, &[0x3C]));
    table.push(entry(Command::TSE, &[0x00]));
    table.push(entry(Command::Ox50, &[0x3F]));
    table.push(entry(Command::Ox60, &[0x02, 0x00]));
    table.push(entry(Command::Ox61, &[0x03, 0x20, 0x01, 0xE0]));
    table.push(entry(Command::Ox82, &[0x1E]));
    table.push(entry(Command::Ox84, &[0x00]));
    table.push(entry(Command::AGID, &[0x00]));
    table.push(entry(Command::OxE3, &[0x2F]));
    table.push(entry(Command::CCSET, &[0x00]));
    table.push(entry(Command::TSSET, &[0x00]));
    assert(table_view(table@) =~~= spec_init_table());
    table
}

/// A frame for the whole panel in the eight-sample model, with every pixel
/// set to `background`: 192 000 bytes, two pixels in each.
pub fn full_frame(background: OctColor) -> (frame: FrameBuffer)
    ensures
        frame.wf(),
        frame@ == (FrameView {
            width: WIDTH as nat,
            height: HEIGHT as nat,
            model: ColorModel::Oct,
            bytes: Seq::new(192_000, |i: int| OctColor::spec_colors_byte(background, background)),
        }),
        frame@.bytes.len() == WIDTH * HEIGHT / 2,
{
    proof {
        OctColor::lemma_colors_byte_packs(background, background);
        assert(spec_buffer_len(WIDTH as nat, HEIGHT as nat, 4) == 192_000);
    }
    let frame = FrameBuffer::new(WIDTH, HEIGHT, background.sample()).unwrap();
    assert(frame@.bytes =~= Seq::new(192_000, |i: int| OctColor::spec_colors_byte(background, background)));
    frame
}

impl Epd7in3e {
    /// The invariant of the driver.
    pub closed spec fn wf(&self) -> bool {
        &&& self.interface.wf()
        &&& self.interface.byte_wise() == SINGLE_BYTE_WRITE
        &&& self.interface@.phase is Idle ==> self.goal == self.state
    }

    /// Number of entries that the driver stores for the operation in
    /// flight. A frame, a fill and a bar of the test pattern take one
    /// entry each, however long they are.
    pub closed spec fn stored(&self) -> nat {
        self.interface.stored()
    }

    /// Whether this driver is `before` with `steps` queued behind what was
    /// pending, in at most `entries` stored entries more, and nothing else
    /// changed.
    spec fn extends(&self, before: &Epd7in3e, steps: Seq<Step>, entries: nat) -> bool {
        &&& self.interface.queued(&before.interface, steps, entries)
        &&& self.color == before.color
        &&& self.state == before.state
        &&& self.goal == before.goal
    }

    /// The view of a driver that meets its invariant is well formed, and
    /// a driver with nothing in flight stores nothing.
    pub proof fn lemma_view_wf(&self)
        requires
            self.wf(),
        ensures
            self@.wf(),
            self@.transport.phase is Idle ==> self.stored() == 0,
    {
        if self.interface@.phase is Idle {
            self.interface.lemma_idle_is_empty();
        }
    }

    /// Queues the script that configures the panel.
    fn init(&mut self)
        requires
            old(self).interface.wf(),
            old(self).interface.byte_wise() == SINGLE_BYTE_WRITE,
        ensures
            final(self).extends(old(self), init_steps(), 86),
    {
        self.interface.reset(RESET_LOW_US, RESET_HIGH_US);
        self.wait_busy_low();
        self.interface.delay_us(SETTLE_US);
        let table = init_table();
        self.interface.cmd_table(table.as_slice());
        assert(final(self).interface@.pending =~= old(self).interface@.pending + init_steps());
    }

    /// A driver for a panel that has yet to be configured, with the script
    /// that configures it queued: once the host has stepped the driver
    /// through it, the driver is ready. `delay_us` is the pause between two
    /// samples of the busy line.
    pub fn new(delay_us: Option<u32>) -> (epd: Epd7in3e)
        ensures
            epd.wf(),
            epd@ == (PanelView {
                state: DriverState::Uninitialized,
                goal: DriverState::Ready,
                background: DEFAULT_BACKGROUND_COLOR,
                transport: Transport {
                    pending: init_steps(),
                    phase: Phase::Issuing,
                    pause_us: match delay_us {
                        Some(us) => us,
                        None => DisplayInterface::DEFAULT_PAUSE_US,
                    },
                },
            }),
    {
        let interface = DisplayInterface::new(delay_us, SINGLE_BYTE_WRITE);
        let color = DEFAULT_BACKGROUND_COLOR;
        let mut epd = Epd7in3e { interface, color, state: DriverState::Uninitialized, goal: DriverState::Ready };
        epd.init();
        assert(epd@.transport.pending =~= init_steps());
        epd
    }

    /// Whether an operation that is valid in `state` is accepted now.
    fn takes(&self, state: DriverState) -> (accepted: bool)
        ensures
            accepted == self@.accepts(state),
    {
        self.interface.is_idle() && self.state == state
    }

    /// Puts the panel into deep sleep.
    ///
    /// Accepted from `Ready` with nothing in flight: the driver is
    /// `Sleeping` once the script has run. Refused with a state error
    /// otherwise, and nothing is queued.
    pub fn sleep(&mut self) -> (result: Result<(), DriverError>)
        requires
            old(self).wf(),
        ensures
            final(self).wf(),
            old(self)@.accepts(DriverState::Ready) ==> result is Ok && final(self)@ == old(self)@.begin(
                DriverState::Ready,
                DriverState::Sleeping,
                sleep_steps(),
            ),
            !old(self)@.accepts(DriverState::Ready) ==> result == Err::<(), DriverError>(DriverError::State)
                && final(self)@ == old(self)@,
    {
        if !self.takes(DriverState::Ready) {
            return Err(DriverError::State);
        }
        proof {
            self.interface.lemma_idle_is_empty();
        }
        self.goal = DriverState::Sleeping;
        self.cmd_with_data(Command::DeepSleep, &[0xA5]);
        assert(final(self)@.transport.pending =~= sleep_steps());
        Ok(())
    }

    /// Wakes the panel from deep sleep by configuring it anew, since deep
    /// sleep loses the configuration.
    ///
    /// Accepted from `Sleeping` with nothing in flight: the driver counts
    /// as unconfigured while the script runs and is `Ready` once it has
    /// run. Refused with a state error otherwise, and nothing is queued.
    pub fn wake_up(&mut self) -> (result: Result<(), DriverError>)
        requires
            old(self).wf(),
        ensures
            final(self).wf(),
            old(self)@.accepts(DriverState::Sleeping) ==> result is Ok && final(self)@ == old(self)@.begin(
                DriverState::Uninitialized,
                DriverState::Ready,
                init_steps(),
            ),
            !old(self)@.accepts(DriverState::Sleeping) ==> result == Err::<(), DriverError>(
                DriverError::State,
            ) && final(self)@ == old(self)@,
    {
        if !self.takes(DriverState::Sleeping) {
            return Err(DriverError::State);
        }
        proof {
            self.interface.lemma_idle_is_empty();
        }
        self.state = DriverState::Uninitialized;
        self.goal = DriverState::Ready;
        self.init();
        assert(final(self)@.transport.pending =~= init_steps());
        Ok(())
    }

    /// Sets the color that `clear_frame` fills the panel with.
    pub fn set_background_color(&mut self, color: OctColor)
        ensures
            final(self)@ == (PanelView { background: color, ..old(self)@ }),
            final(self).stored() == old(self).stored(),
            old(self).wf() ==> final(self).wf(),
    {
        self.color = color;
    }

    /// The color that `clear_frame` fills the panel with.
    pub fn background_color(&self) -> (color: &OctColor)
        ensures
            *color == self@.background,
    {
        &self.color
    }

    /// Width of the display in pixels.
    pub fn width(&self) -> (width: u32)
        ensures
            width == WIDTH,
    {
        WIDTH
    }

    /// Height of the display in pixels.
    pub fn height(&self) -> (height: u32)
        ensures
            height == HEIGHT,
    {
        HEIGHT
    }

    /// The lifecycle state of the driver.
    pub fn state(&self) -> (state: DriverState)
        ensures
            state == self@.state,
    {
        self.state
    }

    /// Whether an operation is in flight.
    pub fn is_busy(&self) -> (busy: bool)
        ensures
            busy == !(self@.transport.phase is Idle),
    {
        !self.interface.is_idle()
    }

    /// Queues the transmission of a frame.
    fn transmit(&mut self, buffer: &[u8])
        requires
            old(self).interface.wf(),
            old(self).interface.byte_wise() == SINGLE_BYTE_WRITE,
        ensures
            final(self).extends(old(self), update_frame_steps(buffer@), 5),
    {
        self.wait_busy_low();
        self.cmd_with_data(Command::DataStartTransmission, buffer);
        assert(final(self).interface@.pending =~= old(self).interface@.pending + update_frame_steps(
            buffer@,
        ));
    }

    /// Queues the refresh of the panel.
    fn refresh(&mut self)
        requires
            old(self).interface.wf(),
            old(self).interface.byte_wise() == SINGLE_BYTE_WRITE,
        ensures
            final(self).extends(old(self), display_frame_steps(), 13),
    {
        self.command(Command::PowerOn);
        self.wait_busy_low();

        self.cmd_with_data(Command::DataFresh, &[0x00]);
        self.wait_busy_low();

        self.cmd_with_data(Command::PowerOff, &[0x00]);
        self.wait_busy_low();

        assert(final(self).interface@.pending =~= old(self).interface@.pending + display_frame_steps());
    }

    /// Transmits a frame to the panel, after a wait for the panel so that
    /// the transmission does not fall into a refresh.
    ///
    /// Accepted from `Ready` with nothing in flight. Refused with a state
    /// error otherwise, and nothing is queued.
    pub fn update_frame(&mut self, buffer: &[u8]) -> (result: Result<(), DriverError>)
        requires
            old(self).wf(),
        ensures
            final(self).wf(),
            old(self)@.accepts(DriverState::Ready) ==> result is Ok && final(self)@ == old(self)@.begin(
                DriverState::Ready,
                DriverState::Ready,
                update_frame_steps(buffer@),
            ),
            !old(self)@.accepts(DriverState::Ready) ==> result == Err::<(), DriverError>(DriverError::State)
                && final(self)@ == old(self)@,
    {
        if !self.takes(DriverState::Ready) {
            return Err(DriverError::State);
        }
        proof {
            self.interface.lemma_idle_is_empty();
        }
        self.goal = DriverState::Ready;
        self.transmit(buffer);
        assert(final(self)@.transport.pending =~= update_frame_steps(buffer@));
        Ok(())
    }

    /// Refreshing a part of the frame is not offered by this panel: the
    /// call is refused as unsupported and changes nothing.
    pub fn update_partial_frame(
        &mut self,
        _buffer: &[u8],
        _x: u32,
        _y: u32,
        _width: u32,
        _height: u32,
    ) -> (result: Result<(), DriverError>)
        ensures
            result == Err::<(), DriverError>(DriverError::Unsupported),
            final(self)@ == old(self)@,
            final(self).stored() == old(self).stored(),
            old(self).wf() ==> final(self).wf(),
    {
        Err(DriverError::Unsupported)
    }

    /// Shows the transmitted frame on the panel: power on, refresh, power
    /// off, with a wait for the panel after each.
    ///
    /// Accepted from `Ready` with nothing in flight. Refused with a state
    /// error otherwise, and nothing is queued.
    pub fn display_frame(&mut self) -> (result: Result<(), DriverError>)
        requires
            old(self).wf(),
        ensures
            final(self).wf(),
            old(self)@.accepts(DriverState::Ready) ==> result is Ok && final(self)@ == old(self)@.begin(
                DriverState::Ready,
                DriverState::Ready,
                display_frame_steps(),
            ),
            !old(self)@.accepts(DriverState::Ready) ==> result == Err::<(), DriverError>(DriverError::State)
                && final(self)@ == old(self)@,
    {
        if !self.takes(DriverState::Ready) {
            return Err(DriverError::State);
        }
        proof {
            self.interface.lemma_idle_is_empty();
        }
        self.goal = DriverState::Ready;
        self.refresh();
        assert(final(self)@.transport.pending =~= display_frame_steps());
        Ok(())
    }

    /// Transmits a frame and shows it: the script of `update_frame`
    /// followed by the script of `display_frame`, with nothing in between.
    ///
    /// Accepted from `Ready` with nothing in flight. Refused with a state
    /// error otherwise, and nothing is queued.
    pub fn update_and_display_frame(&mut self, buffer: &[u8]) -> (result: Result<(), DriverError>)
        requires
            old(self).wf(),
        ensures
            final(self).wf(),
            old(self)@.accepts(DriverState::Ready) ==> result is Ok && final(self)@ == old(self)@.begin(
                DriverState::Ready,
                DriverState::Ready,
                update_frame_steps(buffer@) + display_frame_steps(),
            ),
            !old(self)@.accepts(DriverState::Ready) ==> result == Err::<(), DriverError>(DriverError::State)
                && final(self)@ == old(self)@,
    {
        if !self.takes(DriverState::Ready) {
            return Err(DriverError::State);
        }
        proof {
            self.interface.lemma_idle_is_empty();
        }
        self.goal = DriverState::Ready;
        self.transmit(buffer);
        self.refresh();
        assert(final(self)@.transport.pending =~= update_frame_steps(buffer@) + display_frame_steps());
        Ok(())
    }

    /// Clears the panel to the background color and shows the result. The
    /// frame goes out as a bulk fill of the byte that holds the background
    /// color twice, one byte for every two pixels; no buffer is built, and
    /// the driver stores the whole operation in a few entries.
    ///
    /// Accepted from `Ready` with nothing in flight. Refused with a state
    /// error otherwise, and nothing is queued.
    pub fn clear_frame(&mut self) -> (result: Result<(), DriverError>)
        requires
            old(self).wf(),
        ensures
            final(self).wf(),
            old(self)@.accepts(DriverState::Ready) ==> result is Ok && final(self)@ == old(self)@.begin(
                DriverState::Ready,
                DriverState::Ready,
                clear_frame_steps(old(self)@.background),
            ) && final(self).stored() <= 18,
            !old(self)@.accepts(DriverState::Ready) ==> result == Err::<(), DriverError>(DriverError::State)
                && final(self)@ == old(self)@,
    {
        if !self.takes(DriverState::Ready) {
            return Err(DriverError::State);
        }
        proof {
            self.interface.lemma_idle_is_empty();
        }
        self.goal = DriverState::Ready;
        let bg = OctColor::colors_byte(self.color, self.color);

        self.wait_busy_low();
        self.command(Command::DataStartTransmission);
        self.interface.data_x_times(bg, WIDTH * HEIGHT / 2);

        self.refresh();
        assert(final(self)@.transport.pending =~= clear_frame_steps(old(self)@.background));
        Ok(())
    }

    /// Choosing a refresh waveform is not offered by this panel: the call
    /// is refused as unsupported and changes nothing.
    pub fn set_lut(&mut self, _refresh_rate: Option<RefreshLut>) -> (result: Result<(), DriverError>)
        ensures
            result == Err::<(), DriverError>(DriverError::Unsupported),
            final(self)@ == old(self)@,
            final(self).stored() == old(self).stored(),
            old(self).wf() ==> final(self).wf(),
    {
        Err(DriverError::Unsupported)
    }

    /// Waits until the panel is no longer busy.
    ///
    /// Accepted in every state with nothing in flight, and leaves the state
    /// as it is. Refused with a state error while an operation is in
    /// flight, and nothing is queued.
    pub fn wait_until_idle(&mut self) -> (result: Result<(), DriverError>)
        requires
            old(self).wf(),
        ensures
            final(self).wf(),
            old(self)@.transport.phase is Idle ==> result is Ok && final(self)@ == old(self)@.begin(
                old(self)@.state,
                old(self)@.state,
                wait_steps(BUSY_LEVEL),
            ),
            !(old(self)@.transport.phase is Idle) ==> result == Err::<(), DriverError>(DriverError::State)
                && final(self)@ == old(self)@,
    {
        if !self.interface.is_idle() {
            return Err(DriverError::State);
        }
        proof {
            self.interface.lemma_idle_is_empty();
        }
        self.wait_busy_low();
        assert(final(self)@.transport.pending =~= wait_steps(BUSY_LEVEL));
        Ok(())
    }

    /// Takes the host's report on the last action and answers with the next
    /// one. The first call after an operation was accepted starts its
    /// script, whatever the event.
    ///
    /// The driver enters the state that the operation leads to when it
    /// answers `Done`, and stays in its state when it answers `Failed`.
    pub fn step(&mut self, event: Event) -> (action: Action)
        requires
            old(self).wf(),
        ensures
            final(self).wf(),
            final(self)@ == old(self)@.step(event).0,
            action@ == old(self)@.step(event).1,
            final(self).stored() <= old(self).stored(),
    {
        let action = self.interface.step(event);
        match &action {
            Action::Done => {
                self.state = self.goal;
            },
            Action::Failed => {
                self.goal = self.state;
            },
            _ => {},
        }
        action
    }

    /// Queues an opcode.
    fn command(&mut self, command: Command)
        requires
            old(self).interface.wf(),
        ensures
            final(self).extends(old(self), cmd_steps(command.spec_address()), 2),
    {
        self.interface.cmd(command.address())
    }

    /// Queues an opcode followed by its payload.
    fn cmd_with_data(&mut self, command: Command, data: &[u8])
        requires
            old(self).interface.wf(),
        ensures
            final(self).extends(
                old(self),
                cmd_with_data_steps(old(self).interface.byte_wise(), command.spec_address(), data@),
                4,
            ),
    {
        self.interface.cmd_with_data(command.address(), data)
    }

    /// Queues a wait for the panel.
    fn wait_busy_low(&mut self)
        requires
            old(self).interface.wf(),
        ensures
            final(self).extends(old(self), wait_steps(BUSY_LEVEL), 1),
    {
        self.interface.wait_until_idle(BUSY_LEVEL);
    }

    /// Queues `rows` rows of bars, each `width` bytes wide, in the colors
    /// from position `from` up to `to`.
    fn bars(&mut self, colors: &[OctColor], from: usize, to: usize, width: u32, rows: u32)
        requires
            old(self).interface.wf(),
            from <= to <= colors@.len(),
            to - from <= 4,
        ensures
            final(self).extends(
                old(self),
                repeated(bar_row_steps(colors@.subrange(from as int, to as int), width as nat), rows as nat),
                4 * rows as nat,
            ),
    {
        let ghost shown = colors@.subrange(from as int, to as int);
        let ghost row = bar_row_steps(shown, width as nat);
        let mut r: u32 = 0;
        assert(self.interface@.pending =~= old(self).interface@.pending + repeated(row, 0));
        while r < rows
            invariant
                r <= rows,
                from <= to <= colors@.len(),
                to - from <= 4,
                shown == colors@.subrange(from as int, to as int),
                row == bar_row_steps(shown, width as nat),
                self.extends(old(self), repeated(row, r as nat), 4 * r as nat),
            decreases rows - r,
        {
            let mut c: usize = from;
            assert(shown.take(0) =~= Seq::<OctColor>::empty());
            assert(self.interface@.pending =~= old(self).interface@.pending + (repeated(row, r as nat)
                + bar_row_steps(shown.take(0), width as nat)));
            while c < to
                invariant
                    from <= c <= to <= colors@.len(),
                    shown == colors@.subrange(from as int, to as int),
                    self.extends(
                        old(self),
                        repeated(row, r as nat) + bar_row_steps(shown.take(c - from), width as nat),
                        (4 * r + (c - from)) as nat,
                    ),
                decreases to - c,
            {
                // Each byte holds the color twice.
                let byte = OctColor::colors_byte(colors[c], colors[c]);
                self.interface.strobe(byte, width);
                proof {
                    let upto = shown.take(c + 1 - from);
                    assert(upto.drop_last() =~= shown.take(c - from));
                    assert(upto.last() == colors@[c as int]);
                    assert(self.interface@.pending =~= old(self).interface@.pending + (repeated(
                        row,
                        r as nat,
                    ) + bar_row_steps(upto, width as nat)));
                }
                c = c + 1;
            }
            assert(shown.take(to - from) =~= shown);
            assert(self.interface@.pending =~= old(self).interface@.pending + repeated(row, (r + 1) as nat));
            r = r + 1;
        }
    }

    /// Shows the seven colors as a test pattern of bars, to check the
    /// wiring of a panel: 240 rows of the first four colors in bars of 100
    /// bytes, then 240 rows of the last four in bars of 114 bytes, every
    /// byte a payload of its own. The driver stores one entry for each bar.
    ///
    /// Accepted from `Ready` with nothing in flight. Refused with a state
    /// error otherwise, and nothing is queued.
    pub fn show_colors_test(&mut self) -> (result: Result<(), DriverError>)
        requires
            old(self).wf(),
        ensures
            final(self).wf(),
            old(self)@.accepts(DriverState::Ready) ==> result is Ok && final(self)@ == old(self)@.begin(
                DriverState::Ready,
                DriverState::Ready,
                show_colors_steps(),
            ) && final(self).stored() <= 1935,
            !old(self)@.accepts(DriverState::Ready) ==> result == Err::<(), DriverError>(DriverError::State)
                && final(self)@ == old(self)@,
    {
        if !self.takes(DriverState::Ready) {
            return Err(DriverError::State);
        }
        proof {
            self.interface.lemma_idle_is_empty();
        }
        self.goal = DriverState::Ready;
        let colors = [
            OctColor::Black,
            OctColor::White,
            OctColor::Green,
            OctColor::Blue,
            OctColor::Red,
            OctColor::Yellow,
            OctColor::Orange,
        ];
        assert(colors@ =~= test_colors());

        self.command(Command::DataStartTransmission);

        // The upper half of the screen: the first four colors.
        self.bars(&colors, 0, 4, 100, 240);

        // The lower half: the last four, in bars a little wider.
        self.bars(&colors, 3, 7, 114, 240);

        self.refresh();
        assert(final(self)@.transport.pending =~= show_colors_steps());
        Ok(())
    }
}

} // verus!
