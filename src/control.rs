use vstd::prelude::*;
use crate::event::{scale_of, ParameterTarget, ParameterUpdateEvent};
use crate::extract::{
    datagram_event, extract_event, lemma_scan_finds_first_float, scan_args, target_of_path,
};
use crate::ring::{after_send, EventRing};
use crate::wire::{decode, parse_message, ArgValue};

verus! {

/// State of the control receiver loop.
#[derive(Clone, Copy, Debug, PartialEq, Eq, Structural)]
pub enum LoopState {
    Listening,
    Terminated,
}

/// What one step of the control receiver loop did.
#[derive(Clone, Copy, Debug, PartialEq, Eq, Structural)]
pub enum StepOutcome {
    /// An event was decoded and sent to the ring.
    Forwarded(ParameterUpdateEvent),
    /// The datagram was well formed but yields no event.
    Ignored,
    /// The datagram could not be decoded; it is skipped.
    Malformed,
    /// The receive timed out while the ring is still open.
    Idle,
    /// The ring is closed: the loop ends.
    ChannelClosed,
    /// Reading the socket failed: the loop ends with an error.
    SocketFailed,
}

/// The loop state that follows an outcome.
pub open spec fn state_after(o: StepOutcome) -> LoopState {
    match o {
        StepOutcome::ChannelClosed | StepOutcome::SocketFailed => LoopState::Terminated,
        _ => LoopState::Listening,
    }
}

/// The outcome of handling `b` on a ring whose closure flag is `closed`.
pub open spec fn datagram_outcome(b: Seq<u8>, closed: bool) -> StepOutcome {
    if closed {
        StepOutcome::ChannelClosed
    } else {
        match parse_message(b) {
            None => StepOutcome::Malformed,
            Some(_) => match datagram_event(b) {
                None => StepOutcome::Ignored,
                Some(e) => StepOutcome::Forwarded(e),
            },
        }
    }
}

impl StepOutcome {
    /// The loop state that follows this outcome.
    pub fn next_state(&self) -> (r: LoopState)
        ensures
            r == state_after(*self),
    {
        match self {
            StepOutcome::ChannelClosed | StepOutcome::SocketFailed => LoopState::Terminated,
            _ => LoopState::Listening,
        }
    }
}

/// Handles one inbound datagram: decode, extract, send.
///
/// On a closed ring the loop ends whatever the datagram holds. Otherwise a
/// malformed datagram, or one that yields no event, leaves the ring as it was
/// and keeps the loop listening.
pub fn handle_datagram(ring: &mut EventRing, datagram: &[u8]) -> (r: StepOutcome)
    requires
        old(ring).wf(),
    ensures
        final(ring).wf(),
        final(ring).cap() == old(ring).cap(),
        final(ring).is_closed_spec() == old(ring).is_closed_spec(),
        r == datagram_outcome(datagram@, old(ring).is_closed_spec()),
        match r {
            StepOutcome::Forwarded(e) => final(ring)@ == after_send(old(ring)@, old(ring).cap(), e),
            _ => final(ring)@ == old(ring)@,
        },
{
    if ring.is_closed() {
        return StepOutcome::ChannelClosed;
    }
    let m = match decode(datagram) {
        Err(_) => return StepOutcome::Malformed,
        Ok(m) => m,
    };
    let e = match extract_event(&m) {
        None => return StepOutcome::Ignored,
        Some(e) => e,
    };
    match ring.send(e) {
        Ok(()) => StepOutcome::Forwarded(e),
        Err(_) => StepOutcome::ChannelClosed,
    }
}

/// Handles a receive that timed out: the loop ends once the ring is closed.
pub fn handle_timeout(ring: &EventRing) -> (r: StepOutcome)
    ensures
        r == (if ring.is_closed_spec() {
            StepOutcome::ChannelClosed
        } else {
            StepOutcome::Idle
        }),
{
    if ring.is_closed() {
        StepOutcome::ChannelClosed
    } else {
        StepOutcome::Idle
    }
}

/// A well-formed datagram whose path names a parameter and whose arguments
/// hold a float yields exactly one event: for that parameter, carrying the
/// first float argument, to be scaled by 500 for `millisecond` and 100 for
/// `feedback`. An open ring forwards it.
pub proof fn lemma_recognized_datagram_yields_event(b: Seq<u8>)
    requires
        parse_message(b) is Some,
        target_of_path(parse_message(b)->Some_0.path) is Some,
        exists|i: int|
            0 <= i < parse_message(b)->Some_0.args.len() && parse_message(b)->Some_0.args[i] is Float,
    ensures
        datagram_event(b) is Some,
        ({
            let m = parse_message(b)->Some_0;
            let e = datagram_event(b)->Some_0;
            &&& e.target == target_of_path(m.path)->Some_0
            &&& exists|i: int|
                0 <= i < m.args.len() && m.args[i] == ArgValue::Float(e.position_bits) && (
                forall|j: int| 0 <= j < i ==> !(m.args[j] is Float))
            &&& scale_of(e.target) == (if e.target == ParameterTarget::Millisecond {
                500u32
            } else {
                100u32
            })
        }),
        datagram_outcome(b, false) == StepOutcome::Forwarded(datagram_event(b)->Some_0),
{
    lemma_scan_finds_first_float(parse_message(b)->Some_0.args);
}

/// A well-formed datagram whose path names no parameter yields no event,
/// raises no error, and leaves the loop listening.
pub proof fn lemma_unrecognized_path_ignored(b: Seq<u8>)
    requires
        parse_message(b) is Some,
        target_of_path(parse_message(b)->Some_0.path) is None,
    ensures
        datagram_event(b) is None,
        datagram_outcome(b, false) == StepOutcome::Ignored,
        state_after(datagram_outcome(b, false)) == LoopState::Listening,
{
}

/// A datagram that does not decode is skipped and the loop keeps listening.
pub proof fn lemma_malformed_keeps_listening(b: Seq<u8>)
    requires
        parse_message(b) is None,
    ensures
        datagram_event(b) is None,
        datagram_outcome(b, false) == StepOutcome::Malformed,
        state_after(datagram_outcome(b, false)) == LoopState::Listening,
{
}

/// Once the ring is closed, the next step ends the loop: whatever datagram
/// arrives, and when the receive times out.
pub proof fn lemma_closed_ring_ends_loop(b: Seq<u8>)
    ensures
        datagram_outcome(b, true) == StepOutcome::ChannelClosed,
        state_after(datagram_outcome(b, true)) == LoopState::Terminated,
        state_after(StepOutcome::ChannelClosed) == LoopState::Terminated,
{
}

} // verus!
