//! Protocol core for e-paper display panels driven over a serial bus and
//! three control lines.
//!
//! The library holds what a panel driver decides: how samples are packed
//! into the bytes of a frame ([`color`], [`packing`], [`buffer`]), what goes
//! out on the lines and in which order ([`protocol`], [`script`],
//! [`interface`]), and when an operation is valid ([`lifecycle`]). It never
//! touches a bus or a pin. A driver such as [`epd7in3e::Epd7in3e`] is
//! stepped by its host, which performs each action that the driver asks for
//! and reports how it went.

pub mod buffer;
pub mod color;
pub mod epd7in3e;
pub mod interface;
pub mod lifecycle;
pub mod packing;
pub mod protocol;
pub mod script;
