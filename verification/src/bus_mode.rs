//! The bus configuration that the panel needs.

use vstd::prelude::*;

verus! {

/// Level of the clock line while the bus is idle.
#[derive(Clone, Copy, Debug, PartialEq, Eq, Structural)]
pub enum Polarity {
    IdleLow,
    IdleHigh,
}

/// Clock transition on which a data bit is captured.
#[derive(Clone, Copy, Debug, PartialEq, Eq, Structural)]
pub enum Phase {
    CaptureOnFirstTransition,
    CaptureOnSecondTransition,
}

/// Clock polarity and phase of a serial bus.
#[derive(Clone, Copy, Debug, PartialEq, Eq, Structural)]
pub struct Mode {
    pub polarity: Polarity,
    pub phase: Phase,
}

/// The mode that the bus must be in before any command is carried out: the
/// clock idles low and data is captured on the second clock transition.
pub fn mode() -> (m: Mode)
    ensures
        m == (Mode { polarity: Polarity::IdleLow, phase: Phase::CaptureOnSecondTransition }),
{
    Mode { polarity: Polarity::IdleLow, phase: Phase::CaptureOnSecondTransition }
}

} // verus!
