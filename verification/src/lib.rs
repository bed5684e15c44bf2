//! Driver logic for a 64x16 LED matrix panel scanned over the HUB75
//! protocol, together with the bank selector that picks the active image
//! and the edge-triggered motor state machines that run beside it.
//!
//! The crate computes, as plain data, everything the hardware tasks decide:
//! which pixel bits to shift for each (row, column), the exact ordered
//! sequence of line writes and delays that refreshes the panel, how the
//! active image bank advances on button presses, and how a motor output
//! reacts to input edges. A thin shell performs the actual pin writes.

pub mod bank;
pub mod driver;
pub mod frame;
pub mod motor;
pub mod scan;
