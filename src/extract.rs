use vstd::prelude::*;
use crate::event::{engine_name_of, GestureKind, ParameterTarget, ParameterUpdateEvent};
use crate::wire::{ArgValue, ControlArgument, ControlMessage, MessageValue, parse_message};

verus! {

/// The gesture tag `pressed`.
pub open spec fn pressed_text() -> Seq<u8> {
    seq![112u8, 114, 101, 115, 115, 101, 100]
}

/// The gesture tag `unpressed`.
pub open spec fn unpressed_text() -> Seq<u8> {
    seq![117u8, 110] + pressed_text()
}

/// The `s_` prefix some control surfaces put before a gesture tag.
pub open spec fn surface_prefix() -> Seq<u8> {
    seq![115u8, 95]
}

/// The gesture a string argument names, if it is a gesture tag.
pub open spec fn gesture_of_tag(s: Seq<u8>) -> Option<GestureKind> {
    if s == pressed_text() || s == surface_prefix() + pressed_text() {
        Some(GestureKind::Press)
    } else if s == unpressed_text() || s == surface_prefix() + unpressed_text() {
        Some(GestureKind::Unpress)
    } else {
        None
    }
}

/// The parameter a message path addresses.
pub open spec fn target_of_path(p: Seq<u8>) -> Option<ParameterTarget> {
    if p == engine_name_of(ParameterTarget::Millisecond) {
        Some(ParameterTarget::Millisecond)
    } else if p == engine_name_of(ParameterTarget::Feedback) {
        Some(ParameterTarget::Feedback)
    } else {
        None
    }
}

/// Scans the arguments from the left: the position is the first float; the
/// gesture is named by the first gesture tag before it, `Move` if none is.
pub open spec fn scan_args(args: Seq<ArgValue>) -> Option<(GestureKind, u32)>
    decreases args.len(),
{
    if args.len() == 0 {
        None
    } else {
        match args[0] {
            ArgValue::Float(bits) => Some((GestureKind::Move, bits)),
            ArgValue::Str(s) => match scan_args(args.drop_first()) {
                None => None,
                Some((g, bits)) => match gesture_of_tag(s) {
                    Some(tagged) => Some((tagged, bits)),
                    None => Some((g, bits)),
                },
            },
            _ => scan_args(args.drop_first()),
        }
    }
}

/// The event a decoded message yields, if any.
pub open spec fn event_of(m: MessageValue) -> Option<ParameterUpdateEvent> {
    match (target_of_path(m.path), scan_args(m.args)) {
        (Some(target), Some((gesture, position_bits))) => Some(
            ParameterUpdateEvent { target, gesture, position_bits },
        ),
        _ => None,
    }
}

/// The event a datagram yields: none when it is malformed, and otherwise the
/// event of the message it encodes.
pub open spec fn datagram_event(b: Seq<u8>) -> Option<ParameterUpdateEvent> {
    match parse_message(b) {
        None => None,
        Some(m) => event_of(m),
    }
}

/// A scan result with an earlier gesture finding taking precedence.
spec fn with_found(
    found: Option<GestureKind>,
    r: Option<(GestureKind, u32)>,
) -> Option<(GestureKind, u32)> {
    match r {
        None => None,
        Some((g, bits)) => match found {
            Some(f) => Some((f, bits)),
            None => Some((g, bits)),
        },
    }
}

fn same_bytes(a: &[u8], b: &[u8]) -> (r: bool)
    ensures
        r == (a@ == b@),
{
    if a.len() != b.len() {
        return false;
    }
    let mut i: usize = 0;
    while i < a.len()
        invariant
            a@.len() == b@.len(),
            i <= a@.len(),
            forall|j: int| 0 <= j < i ==> a@[j] == b@[j],
        decreases a@.len() - i,
    {
        if a[i] != b[i] {
            return false;
        }
        i = i + 1;
    }
    assert(a@ =~= b@);
    true
}

fn tag_gesture(s: &Vec<u8>) -> (r: Option<GestureKind>)
    ensures
        r == gesture_of_tag(s@),
{
    let pressed: Vec<u8> = vec![112u8, 114, 101, 115, 115, 101, 100];
    let s_pressed: Vec<u8> = vec![115u8, 95, 112, 114, 101, 115, 115, 101, 100];
    let unpressed: Vec<u8> = vec![117u8, 110, 112, 114, 101, 115, 115, 101, 100];
    let s_unpressed: Vec<u8> = vec![115u8, 95, 117, 110, 112, 114, 101, 115, 115, 101, 100];
    assert(s_pressed@ =~= surface_prefix() + pressed_text());
    assert(unpressed@ =~= unpressed_text());
    assert(s_unpressed@ =~= surface_prefix() + unpressed_text());
    assert(pressed@ =~= pressed_text());
    if same_bytes(s.as_slice(), pressed.as_slice()) || same_bytes(s.as_slice(), s_pressed.as_slice()) {
        Some(GestureKind::Press)
    } else if same_bytes(s.as_slice(), unpressed.as_slice()) || same_bytes(
        s.as_slice(),
        s_unpressed.as_slice(),
    ) {
        Some(GestureKind::Unpress)
    } else {
        None
    }
}

/// The parameter a path addresses: exact byte match on its name.
pub fn target_for_path(path: &Vec<u8>) -> (r: Option<ParameterTarget>)
    ensures
        r == target_of_path(path@),
{
    let ms = ParameterTarget::Millisecond.engine_name();
    let fb = ParameterTarget::Feedback.engine_name();
    if same_bytes(path.as_slice(), ms.as_slice()) {
        Some(ParameterTarget::Millisecond)
    } else if same_bytes(path.as_slice(), fb.as_slice()) {
        Some(ParameterTarget::Feedback)
    } else {
        None
    }
}

/// The gesture and the position bits an argument list carries, if it holds
/// a float.
pub fn scan_arguments(args: &Vec<ControlArgument>) -> (r: Option<(GestureKind, u32)>)
    ensures
        r == scan_args(crate::wire::args_view(args@)),
{
    let ghost all = crate::wire::args_view(args@);
    let mut found: Option<GestureKind> = None;
    let mut i: usize = 0;
    assert(all.skip(0) =~= all);
    while i < args.len()
        invariant
            i <= args@.len(),
            all == crate::wire::args_view(args@),
            scan_args(all) == with_found(found, scan_args(all.skip(i as int))),
        decreases args@.len() - i,
    {
        let ghost rest = all.skip(i as int);
        assert(rest.drop_first() =~= all.skip(i + 1));
        assert(rest[0] == args@[i as int]@);
        match &args[i] {
            ControlArgument::Float(bits) => {
                return Some((
                    match found {
                        Some(g) => g,
                        None => GestureKind::Move,
                    },
                    *bits,
                ));
            },
            ControlArgument::Str(s) => {
                let t = tag_gesture(s);
                if found.is_none() {
                    found = t;
                }
            },
            _ => {},
        }
        i = i + 1;
    }
    assert(all.skip(i as int) =~= Seq::<ArgValue>::empty());
    None
}

/// Maps a decoded message to at most one parameter update.
///
/// A path that names no parameter, or arguments without a float, yield none;
/// neither is an error.
pub fn extract_event(m: &ControlMessage) -> (r: Option<ParameterUpdateEvent>)
    ensures
        r == event_of(m@),
{
    let target = match target_for_path(&m.path) {
        None => return None,
        Some(t) => t,
    };
    match scan_arguments(&m.arguments) {
        None => None,
        Some((gesture, position_bits)) => Some(ParameterUpdateEvent { target, gesture, position_bits }),
    }
}

/// Scanning an argument list that holds a float finds one: the first float
/// of the list, in position order.
pub proof fn lemma_scan_finds_first_float(args: Seq<ArgValue>)
    requires
        exists|i: int| 0 <= i < args.len() && args[i] is Float,
    ensures
        scan_args(args) is Some,
        exists|i: int|
            0 <= i < args.len() && args[i] == ArgValue::Float(scan_args(args)->Some_0.1) && (
            forall|j: int| 0 <= j < i ==> !(args[j] is Float)),
    decreases args.len(),
{
    let i0 = choose|i: int| 0 <= i < args.len() && args[i] is Float;
    match args[0] {
        ArgValue::Float(bits) => {
            assert(args[0] == ArgValue::Float(scan_args(args)->Some_0.1));
        },
        _ => {
            let rest = args.drop_first();
            assert(i0 > 0);
            assert(rest[i0 - 1] is Float);
            lemma_scan_finds_first_float(rest);
            let k = choose|k: int|
                0 <= k < rest.len() && rest[k] == ArgValue::Float(scan_args(rest)->Some_0.1) && (
                forall|j: int| 0 <= j < k ==> !(rest[j] is Float));
            assert(scan_args(args)->Some_0.1 == scan_args(rest)->Some_0.1);
            assert(args[k + 1] == rest[k]);
            assert forall|j: int| 0 <= j < k + 1 implies !(args[j] is Float) by {
                if j > 0 {
                    assert(args[j] == rest[j - 1]);
                }
            }
        },
    }
}

/// A message without a float argument yields no event.
pub proof fn lemma_no_float_no_event(args: Seq<ArgValue>)
    requires
        forall|i: int| 0 <= i < args.len() ==> !(args[i] is Float),
    ensures
        scan_args(args) is None,
    decreases args.len(),
{
    if args.len() > 0 {
        let rest = args.drop_first();
        assert forall|i: int| 0 <= i < rest.len() implies !(rest[i] is Float) by {
            assert(rest[i] == args[i + 1]);
        }
        lemma_no_float_no_event(rest);
    }
}

} // verus!
