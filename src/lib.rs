//! Drivers for common-line 7-segment LED displays.
//!
//! The drivers decide which pins to drive and in what order; they hand the
//! caller a list of pin writes to carry out on its output lines.
use vstd::prelude::*;

pub mod lines;
pub mod multiplexed;
pub mod segment;
pub mod single;

pub use lines::{Line, PinWrite};
pub use multiplexed::{Display3461bs, Position, POSITIONS};
pub use segment::{encode, Digit, InvalidValue, Segment};
pub use single::{Display5161BS, COMMONS};
