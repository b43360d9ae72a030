use vstd::prelude::*;

verus! {

/// A parameter of the signal-processing engine that control messages address.
#[derive(Clone, Copy, Debug, PartialEq, Eq, Structural)]
pub enum ParameterTarget {
    Millisecond,
    Feedback,
}

/// Phase of a continuous control gesture.
#[derive(Clone, Copy, Debug, PartialEq, Eq, Structural)]
pub enum GestureKind {
    Press,
    Move,
    Unpress,
}

/// Factor from the received position (nominally in `[0, 1]`) to engine units.
pub open spec fn scale_of(t: ParameterTarget) -> u32 {
    match t {
        ParameterTarget::Millisecond => 500,
        ParameterTarget::Feedback => 100,
    }
}

/// The engine's parameter name for a target, as bytes.
pub open spec fn engine_name_of(t: ParameterTarget) -> Seq<u8> {
    match t {
        ParameterTarget::Millisecond => seq![109u8, 105, 108, 108, 105, 115, 101, 99, 111, 110, 100],
        ParameterTarget::Feedback => seq![102u8, 101, 101, 100, 98, 97, 99, 107],
    }
}

impl ParameterTarget {
    /// Factor by which the received position is multiplied for this target.
    pub fn scale(&self) -> (r: u32)
        ensures
            r == scale_of(*self),
    {
        match self {
            ParameterTarget::Millisecond => 500,
            ParameterTarget::Feedback => 100,
        }
    }

    /// Name under which the engine exposes this parameter.
    pub fn engine_name(&self) -> (r: Vec<u8>)
        ensures
            r@ == engine_name_of(*self),
    {
        match self {
            ParameterTarget::Millisecond => vec![109u8, 105, 108, 108, 105, 115, 101, 99, 111, 110, 100],
            ParameterTarget::Feedback => vec![102u8, 101, 101, 100, 98, 97, 99, 107],
        }
    }
}

/// One parameter change crossing from the control thread to the render thread.
///
/// `position_bits` holds the IEEE-754 single-precision bits of the received
/// position; the value the engine receives is that position times
/// `target.scale()`, fixed by the target chosen at decode time.
#[derive(Clone, Copy, Debug, PartialEq, Eq, Structural)]
pub struct ParameterUpdateEvent {
    pub target: ParameterTarget,
    pub gesture: GestureKind,
    pub position_bits: u32,
}

/// The event under the name control surfaces give it: a slider change.
pub type SliderEvt = ParameterUpdateEvent;

impl ParameterUpdateEvent {
    /// Factor that turns the carried position into engine units.
    pub fn scale(&self) -> (r: u32)
        ensures
            r == scale_of(self.target),
    {
        self.target.scale()
    }
}

} // verus!
