//! The opcodes of the 7.3 inch panel's controller.

use vstd::prelude::*;

verus! {

/// The registers and operations of the controller that the driver uses.
/// Those that the data sheet leaves unnamed go by their opcode.
#[allow(non_camel_case_types)]
#[derive(Clone, Copy, Debug, PartialEq, Eq, Structural)]
pub enum Command {
    /// Panel setting.
    Ox00,
    /// Power setting.
    Ox01,
    /// Switches the panel's power off.
    PowerOff,
    /// Power-off sequence setting.
    Ox03,
    /// Switches the panel's power on.
    PowerOn,
    /// First booster soft start.
    Ox05,
    /// Second booster soft start.
    Ox06,
    /// Puts the controller into deep sleep.
    DeepSleep,
    /// Third booster soft start.
    Ox08,
    /// Opens the transmission of a frame.
    DataStartTransmission,
    /// Shows the transmitted frame on the panel.
    DataFresh,
    /// Image process command.
    IPC,
    /// Clock frequency setting.
    Ox30,
    /// Temperature sensor enable.
    TSE,
    /// Common voltage and data interval setting.
    Ox50,
    /// Gate and source timing setting.
    Ox60,
    /// Resolution setting.
    Ox61,
    /// Common voltage level setting.
    Ox82,
    /// Common voltage timing setting.
    Ox84,
    /// Automatic gate identification.
    AGID,
    /// Opens the controller's command set.
    CMDH,
    /// Cascade setting.
    CCSET,
    /// Power saving setting.
    OxE3,
    /// Forced temperature setting.
    TSSET,
}

impl Command {
    /// The opcode that goes out on the bus.
    pub open spec fn spec_address(self) -> u8 {
        match self {
            Command::Ox00 => 0x00,
            Command::Ox01 => 0x01,
            Command::PowerOff => 0x02,
            Command::Ox03 => 0x03,
            Command::PowerOn => 0x04,
            Command::Ox05 => 0x05,
            Command::Ox06 => 0x06,
            Command::DeepSleep => 0x07,
            Command::Ox08 => 0x08,
            Command::DataStartTransmission => 0x10,
            Command::DataFresh => 0x12,
            Command::IPC => 0x13,
            Command::Ox30 => 0x30,
            Command::TSE => 0x41,
            Command::Ox50 => 0x50,
            Command::Ox60 => 0x60,
            Command::Ox61 => 0x61,
            Command::Ox82 => 0x82,
            Command::Ox84 => 0x84,
            Command::AGID => 0x86,
            Command::CMDH => 0xAA,
            Command::CCSET => 0xE0,
            Command::OxE3 => 0xE3,
            Command::TSSET => 0xE6,
        }
    }

    /// The opcode that goes out on the bus.
    pub fn address(self) -> (opcode: u8)
        ensures
            opcode == self.spec_address(),
    {
        match self {
            Command::Ox00 => 0x00,
            Command::Ox01 => 0x01,
            Command::PowerOff => 0x02,
            Command::Ox03 => 0x03,
            Command::PowerOn => 0x04,
            Command::Ox05 => 0x05,
            Command::Ox06 => 0x06,
            Command::DeepSleep => 0x07,
            Command::Ox08 => 0x08,
            Command::DataStartTransmission => 0x10,
            Command::DataFresh => 0x12,
            Command::IPC => 0x13,
            Command::Ox30 => 0x30,
            Command::TSE => 0x41,
            Command::Ox50 => 0x50,
            Command::Ox60 => 0x60,
            Command::Ox61 => 0x61,
            Command::Ox82 => 0x82,
            Command::Ox84 => 0x84,
            Command::AGID => 0x86,
            Command::CMDH => 0xAA,
            Command::CCSET => 0xE0,
            Command::OxE3 => 0xE3,
            Command::TSSET => 0xE6,
        }
    }

    /// No two commands share an opcode.
    pub proof fn lemma_address_injective(first: Command, second: Command)
        ensures
            first.spec_address() == second.spec_address() ==> first == second,
    {
    }
}

} // verus!
