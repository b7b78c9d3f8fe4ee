//! Driver core for the LS010B7DH01 memory-in-pixel LCD: a 128x128 monochrome
//! panel behind a serial bus, a chip-select line and a panel-enable line.
//!
//! The crate holds everything that can be decided without touching hardware:
//! the packed frame buffer, the drawing primitives and the exact sequence of
//! line changes and bus writes that each panel command consists of. A caller
//! owns the bus and the two lines and carries out the actions in order.

pub mod action;
pub mod buffer_position;
pub mod bus_mode;
pub mod circle;
pub mod display;
pub mod drawing;
pub mod rect;
pub mod reverse_bits;
pub mod transport;

pub use action::{Action, Level};
pub use display::Ls010b7dh01;
pub use reverse_bits::reverse_bits;
