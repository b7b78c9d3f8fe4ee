//! The physical side effects of the driver, as values.
//!
//! The driver never touches hardware. Each command returns the list of
//! [`Action`]s it consists of, and whoever owns the bus and the two lines
//! carries them out in order, one after the other. A failed bus write is not
//! a reason to stop: the rest of the list is still carried out.

use vstd::prelude::*;

verus! {

/// Logic level of an output line.
#[derive(Clone, Copy, Debug, PartialEq, Eq, Structural)]
pub enum Level {
    Low,
    High,
}

/// One side effect on the hardware.
#[derive(Debug, PartialEq, Eq)]
pub enum Action {
    /// Drive the chip-select line to the given level. High selects the panel.
    ChipSelect(Level),
    /// Drive the panel-enable line to the given level. High enables the panel.
    PanelEnable(Level),
    /// Hand these bytes to the bus in one blocking write.
    Write(Vec<u8>),
}

/// What an [`Action`] is in specifications: the same side effect, with the
/// written bytes as a sequence.
pub enum Step {
    ChipSelect(Level),
    PanelEnable(Level),
    Write(Seq<u8>),
}

impl View for Action {
    type V = Step;

    open spec fn view(&self) -> Step {
        match self {
            Action::ChipSelect(level) => Step::ChipSelect(*level),
            Action::PanelEnable(level) => Step::PanelEnable(*level),
            Action::Write(bytes) => Step::Write(bytes@),
        }
    }
}

/// The steps that a list of actions stands for.
pub open spec fn steps(actions: Seq<Action>) -> Seq<Step> {
    actions.map_values(|a: Action| a@)
}

/// The bytes that a step puts on the bus.
pub open spec fn payload(step: Step) -> Seq<u8> {
    match step {
        Step::Write(bytes) => bytes,
        _ => Seq::empty(),
    }
}

/// All bytes that a sequence of steps puts on the bus, in order.
pub open spec fn wire_bytes(steps: Seq<Step>) -> Seq<u8>
    decreases steps.len(),
{
    if steps.len() == 0 {
        Seq::empty()
    } else {
        wire_bytes(steps.drop_last()) + payload(steps.last())
    }
}

/// A transaction on the bus: the chip-select line goes high, the writes
/// follow in order, and the line goes low again.
pub open spec fn bracketed(writes: Seq<Seq<u8>>) -> Seq<Step> {
    seq![Step::ChipSelect(Level::High)] + writes.map_values(|w: Seq<u8>| Step::Write(w))
        + seq![Step::ChipSelect(Level::Low)]
}

/// One more step adds its bytes behind those of the steps before it.
pub proof fn lemma_wire_bytes_push(s: Seq<Step>, step: Step)
    ensures
        wire_bytes(s.push(step)) == wire_bytes(s) + payload(step),
{
    assert(s.push(step).drop_last() =~= s);
}

/// One more action adds its step behind those of the actions before it.
pub proof fn lemma_steps_push(actions: Seq<Action>, action: Action)
    ensures
        steps(actions.push(action)) == steps(actions).push(action@),
{
    assert(steps(actions.push(action)) =~= steps(actions).push(action@));
}

} // verus!
