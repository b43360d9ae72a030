use fraust_echo::control::{handle_datagram, handle_timeout, LoopState, StepOutcome};
use fraust_echo::device::as_millis;
use fraust_echo::event::{GestureKind, ParameterTarget, ParameterUpdateEvent, SliderEvt};
use fraust_echo::extract::{extract_event, scan_arguments, target_for_path};
use fraust_echo::render::{render_step, Continuation, RenderConfig, SetupError, ENGINE_BUFFER_CAPACITY};
use fraust_echo::ring::{ChannelClosed, EventRing};
use fraust_echo::wire::{decode, ControlArgument, ControlMessage, DecodeError};
use std::time::{Duration, Instant};

enum Arg<'a> {
    S(&'a str),
    F(f32),
    I(i32),
    T,
    F0,
    N,
}

fn push_string(out: &mut Vec<u8>, s: &[u8]) {
    out.extend_from_slice(s);
    out.push(0);
    while out.len() % 4 != 0 {
        out.push(0);
    }
}

fn datagram(path: &str, args: &[Arg]) -> Vec<u8> {
    let mut out = Vec::new();
    push_string(&mut out, path.as_bytes());
    let mut tags = vec![b','];
    for a in args {
        tags.push(match a {
            Arg::S(_) => b's',
            Arg::F(_) => b'f',
            Arg::I(_) => b'i',
            Arg::T => b'T',
            Arg::F0 => b'F',
            Arg::N => b'N',
        });
    }
    push_string(&mut out, &tags);
    for a in args {
        match a {
            Arg::S(s) => push_string(&mut out, s.as_bytes()),
            Arg::F(f) => out.extend_from_slice(&f.to_bits().to_be_bytes()),
            Arg::I(i) => out.extend_from_slice(&i.to_be_bytes()),
            _ => {}
        }
    }
    out
}

fn engine_value(e: &ParameterUpdateEvent) -> f32 {
    f32::from_bits(e.position_bits) * e.scale() as f32
}

fn ev(target: ParameterTarget, gesture: GestureKind, position: f32) -> ParameterUpdateEvent {
    ParameterUpdateEvent { target, gesture, position_bits: position.to_bits() }
}

fn event_of_bytes(b: &[u8]) -> Option<ParameterUpdateEvent> {
    extract_event(&decode(b).expect("well-formed datagram"))
}

#[test]
fn millisecond_pressed_scales_by_500() {
    let b = datagram("millisecond", &[Arg::S("pressed"), Arg::F(0.2)]);
    let e = event_of_bytes(&b).expect("one event");
    assert_eq!(e.target, ParameterTarget::Millisecond);
    assert_eq!(e.gesture, GestureKind::Press);
    assert_eq!(e.position_bits, 0.2f32.to_bits());
    assert_eq!(e.scale(), 500);
    assert_eq!(engine_value(&e), 100.0);
}

#[test]
fn feedback_other_tag_is_move_scaled_by_100() {
    let b = datagram("feedback", &[Arg::S("s_moved"), Arg::F(0.5)]);
    let e = event_of_bytes(&b).expect("one event");
    assert_eq!(e.target, ParameterTarget::Feedback);
    assert_eq!(e.gesture, GestureKind::Move);
    assert_eq!(engine_value(&e), 50.0);
}

#[test]
fn surface_prefixed_and_unpressed_tags() {
    let e = event_of_bytes(&datagram("feedback", &[Arg::S("s_pressed"), Arg::F(1.0)])).unwrap();
    assert_eq!(e.gesture, GestureKind::Press);
    let e = event_of_bytes(&datagram("feedback", &[Arg::S("unpressed"), Arg::F(1.0)])).unwrap();
    assert_eq!(e.gesture, GestureKind::Unpress);
    let e = event_of_bytes(&datagram("millisecond", &[Arg::S("s_unpressed"), Arg::F(0.0)])).unwrap();
    assert_eq!(e.gesture, GestureKind::Unpress);
    assert_eq!(engine_value(&e), 0.0);
}

#[test]
fn position_is_first_float_after_leading_tags() {
    let b = datagram(
        "millisecond",
        &[Arg::S("location"), Arg::I(7), Arg::S("pressed"), Arg::F(0.25), Arg::F(0.75), Arg::S("unpressed")],
    );
    let e = event_of_bytes(&b).unwrap();
    assert_eq!(e.gesture, GestureKind::Press);
    assert_eq!(e.position_bits, 0.25f32.to_bits());
    assert_eq!(engine_value(&e), 125.0);
}

#[test]
fn gesture_tag_after_the_float_is_ignored() {
    let e = event_of_bytes(&datagram("feedback", &[Arg::F(0.5), Arg::S("pressed")])).unwrap();
    assert_eq!(e.gesture, GestureKind::Move);
}

#[test]
fn out_of_range_position_is_not_clamped() {
    let e = event_of_bytes(&datagram("feedback", &[Arg::F(2.0)])).unwrap();
    assert_eq!(engine_value(&e), 200.0);
    let e = event_of_bytes(&datagram("millisecond", &[Arg::F(-1.0)])).unwrap();
    assert_eq!(engine_value(&e), -500.0);
}

#[test]
fn no_float_yields_no_event() {
    assert_eq!(event_of_bytes(&datagram("feedback", &[Arg::S("pressed")])), None);
    assert_eq!(event_of_bytes(&datagram("feedback", &[])), None);
    assert_eq!(event_of_bytes(&datagram("feedback", &[Arg::I(1)])), None);
}

#[test]
fn unrecognized_path_yields_nothing_and_keeps_listening() {
    let mut ring = EventRing::new(4);
    let b = datagram("volume", &[Arg::S("pressed"), Arg::F(0.5)]);
    assert_eq!(event_of_bytes(&b), None);
    let out = handle_datagram(&mut ring, &b);
    assert_eq!(out, StepOutcome::Ignored);
    assert_eq!(out.next_state(), LoopState::Listening);
    assert!(ring.is_empty());
    assert_eq!(target_for_path(&b"Millisecond".to_vec()), None);
    assert_eq!(target_for_path(&b"/millisecond".to_vec()), None);
    assert_eq!(target_for_path(&b"millisecond".to_vec()), Some(ParameterTarget::Millisecond));
    assert_eq!(target_for_path(&b"feedback".to_vec()), Some(ParameterTarget::Feedback));
}

#[test]
fn decode_reads_every_argument_type() {
    let b = datagram("a/b", &[Arg::I(-2), Arg::F(1.5), Arg::S("xyz"), Arg::T, Arg::F0, Arg::N]);
    let m = decode(&b).unwrap();
    assert_eq!(
        m,
        ControlMessage {
            path: b"a/b".to_vec(),
            arguments: vec![
                ControlArgument::Int(-2),
                ControlArgument::Float(1.5f32.to_bits()),
                ControlArgument::Str(b"xyz".to_vec()),
                ControlArgument::True,
                ControlArgument::False,
                ControlArgument::Nil,
            ],
        }
    );
}

#[test]
fn decode_ignores_trailing_bytes() {
    let mut b = datagram("feedback", &[Arg::F(0.5)]);
    b.extend_from_slice(&[1, 2, 3]);
    assert_eq!(event_of_bytes(&b), Some(ev(ParameterTarget::Feedback, GestureKind::Move, 0.5)));
}

#[test]
fn every_truncation_is_malformed() {
    let b = datagram("millisecond", &[Arg::S("pressed"), Arg::F(0.2), Arg::I(3), Arg::T]);
    assert!(decode(&b).is_ok());
    for n in 0..b.len() {
        assert_eq!(decode(&b[..n]), Err(DecodeError::MalformedPayload), "prefix of {} bytes", n);
    }
}

#[test]
fn bad_tag_bytes_are_malformed() {
    let mut b = datagram("feedback", &[Arg::F(0.5)]);
    // type tag string ",f" starts at byte 12; replace 'f' with 'x'.
    assert_eq!(b[13], b'f');
    b[13] = b'x';
    assert_eq!(decode(&b), Err(DecodeError::MalformedPayload));
    let mut b = datagram("feedback", &[Arg::F(0.5)]);
    b[12] = b'f';
    assert_eq!(decode(&b), Err(DecodeError::MalformedPayload));
    assert_eq!(decode(&[]), Err(DecodeError::MalformedPayload));
    // empty type tag string
    let mut b = Vec::new();
    push_string(&mut b, b"feedback");
    push_string(&mut b, b"");
    assert_eq!(decode(&b), Err(DecodeError::MalformedPayload));
}

#[test]
fn invalid_utf8_is_malformed() {
    let mut b = Vec::new();
    push_string(&mut b, &[0xff, 0xfe]);
    push_string(&mut b, b",");
    assert_eq!(decode(&b), Err(DecodeError::MalformedPayload));
    let mut b = Vec::new();
    push_string(&mut b, "é".as_bytes());
    push_string(&mut b, b",");
    assert_eq!(decode(&b).unwrap().path, "é".as_bytes().to_vec());
}

#[test]
fn malformed_datagram_keeps_loop_listening() {
    let mut ring = EventRing::new(4);
    let good = datagram("feedback", &[Arg::F(0.5)]);
    let out = handle_datagram(&mut ring, &good[..good.len() - 1]);
    assert_eq!(out, StepOutcome::Malformed);
    assert_eq!(out.next_state(), LoopState::Listening);
    assert!(ring.is_empty());
    let out = handle_datagram(&mut ring, &good);
    assert_eq!(out, StepOutcome::Forwarded(ev(ParameterTarget::Feedback, GestureKind::Move, 0.5)));
    assert_eq!(ring.len(), 1);
}

#[test]
fn fifo_order_each_once() {
    let mut ring = EventRing::new(8);
    let events: Vec<ParameterUpdateEvent> = (0..8)
        .map(|i| ev(if i % 2 == 0 { ParameterTarget::Feedback } else { ParameterTarget::Millisecond }, GestureKind::Move, i as f32 / 8.0))
        .collect();
    for e in &events {
        assert_eq!(ring.send(*e), Ok(()));
    }
    for e in &events {
        assert_eq!(ring.try_receive(), Some(*e));
    }
    assert_eq!(ring.try_receive(), None);
}

#[test]
fn full_ring_drops_oldest() {
    let mut ring = EventRing::new(3);
    assert_eq!(ring.capacity(), 3);
    for i in 0..5 {
        ring.send(ev(ParameterTarget::Feedback, GestureKind::Move, i as f32)).unwrap();
        assert!(ring.len() <= 3);
    }
    for i in 2..5 {
        assert_eq!(ring.try_receive(), Some(ev(ParameterTarget::Feedback, GestureKind::Move, i as f32)));
    }
    assert_eq!(ring.try_receive(), None);
}

#[test]
fn empty_receive_returns_at_once() {
    let mut ring = EventRing::new(16);
    let start = Instant::now();
    for _ in 0..10_000 {
        assert_eq!(ring.try_receive(), None);
    }
    assert!(start.elapsed() < Duration::from_secs(1));
    assert!(ring.is_empty());
}

#[test]
fn closed_ring_refuses_send_and_ends_loop() {
    let mut ring = EventRing::new(2);
    let e = ev(ParameterTarget::Millisecond, GestureKind::Press, 0.1);
    ring.send(e).unwrap();
    ring.close();
    assert!(ring.is_closed());
    assert_eq!(ring.send(e), Err(ChannelClosed));
    assert_eq!(ring.len(), 1);
    let out = handle_datagram(&mut ring, &datagram("millisecond", &[Arg::F(0.3)]));
    assert_eq!(out, StepOutcome::ChannelClosed);
    assert_eq!(out.next_state(), LoopState::Terminated);
    let out = handle_datagram(&mut ring, &[1, 2, 3]);
    assert_eq!(out.next_state(), LoopState::Terminated);
    assert_eq!(handle_timeout(&ring), StepOutcome::ChannelClosed);
    assert_eq!(StepOutcome::SocketFailed.next_state(), LoopState::Terminated);
    // pending events can still be drained
    assert_eq!(ring.try_receive(), Some(e));
}

#[test]
fn open_ring_times_out_idle() {
    let ring = EventRing::new(2);
    let out = handle_timeout(&ring);
    assert_eq!(out, StepOutcome::Idle);
    assert_eq!(out.next_state(), LoopState::Listening);
}

#[test]
fn setup_rejects_period_over_capacity() {
    assert_eq!(RenderConfig::negotiate(4096, 3, ENGINE_BUFFER_CAPACITY).err(), Some(SetupError::BufferBoundsViolation));
    assert_eq!(RenderConfig::negotiate(5001, 2, 10000).err(), Some(SetupError::BufferBoundsViolation));
    assert_eq!(RenderConfig::negotiate(usize::MAX, 2, 10000).err(), Some(SetupError::BufferBoundsViolation));
    let c = RenderConfig::negotiate(5000, 2, 10000).unwrap();
    assert_eq!(c.period_samples(), 10000);
    assert_eq!(c.capacity(), 10000);
    assert!(RenderConfig::negotiate(4096, 2, ENGINE_BUFFER_CAPACITY).is_ok());
}

#[test]
fn render_applies_at_most_one_event() {
    let c = RenderConfig::negotiate(4096, 2, ENGINE_BUFFER_CAPACITY).unwrap();
    let mut ring = EventRing::new(4);
    let a = ev(ParameterTarget::Millisecond, GestureKind::Press, 0.2);
    let b = ev(ParameterTarget::Feedback, GestureKind::Move, 0.4);
    ring.send(a).unwrap();
    ring.send(b).unwrap();
    let p = render_step(&mut ring, &c, 4096, 8192);
    assert_eq!(p.update, Some(a));
    assert_eq!(p.compute_len, Some(8192));
    assert_eq!(p.input_len, 4096);
    assert_eq!(p.signal, Continuation::Continue);
    assert_eq!(ring.len(), 1);
    let p = render_step(&mut ring, &c, 8192, 8192);
    assert_eq!(p.update, Some(b));
    assert_eq!(p.input_len, 8192);
    let p = render_step(&mut ring, &c, 100, 64);
    assert_eq!(p.update, None);
    assert_eq!(p.compute_len, Some(64));
    assert_eq!(p.input_len, 64);
    let p = render_step(&mut ring, &c, 0, 64);
    assert_eq!(p.input_len, 0);
}

#[test]
fn render_aborts_on_oversized_buffer() {
    let c = RenderConfig::negotiate(4096, 2, ENGINE_BUFFER_CAPACITY).unwrap();
    let mut ring = EventRing::new(4);
    let a = ev(ParameterTarget::Millisecond, GestureKind::Press, 0.2);
    ring.send(a).unwrap();
    let p = render_step(&mut ring, &c, 4, ENGINE_BUFFER_CAPACITY + 1);
    assert_eq!(p.signal, Continuation::Abort);
    assert_eq!(p.compute_len, None);
    assert_eq!(p.input_len, 0);
    assert_eq!(p.update, None);
    assert_eq!(ring.len(), 1);
    let p = render_step(&mut ring, &c, ENGINE_BUFFER_CAPACITY, ENGINE_BUFFER_CAPACITY);
    assert_eq!(p.signal, Continuation::Continue);
    assert_eq!(p.compute_len, Some(ENGINE_BUFFER_CAPACITY));
    assert_eq!(p.update, Some(a));
}

#[test]
fn engine_names_and_scales() {
    assert_eq!(ParameterTarget::Millisecond.engine_name(), b"millisecond".to_vec());
    assert_eq!(ParameterTarget::Feedback.engine_name(), b"feedback".to_vec());
    assert_eq!(ParameterTarget::Millisecond.scale(), 500);
    assert_eq!(ParameterTarget::Feedback.scale(), 100);
    let s: SliderEvt = ev(ParameterTarget::Feedback, GestureKind::Unpress, 0.5);
    assert_eq!(s.scale(), 100);
}

#[test]
fn scan_without_arguments_is_none() {
    assert_eq!(scan_arguments(&vec![]), None);
    assert_eq!(
        scan_arguments(&vec![ControlArgument::Str(b"pressed".to_vec()), ControlArgument::Float(7)]),
        Some((GestureKind::Press, 7))
    );
}

#[test]
fn latency_in_whole_milliseconds() {
    assert_eq!(as_millis(2, 345_678_901), 2345);
    assert_eq!(as_millis(0, 999_999), 0);
    assert_eq!(as_millis(0, 0), 0);
}

#[test]
fn datagram_from_tinyosc_decodes() {
    let msg = tinyosc::Message {
        path: "millisecond",
        arguments: vec![tinyosc::Argument::s("pressed"), tinyosc::Argument::f(0.2)],
    };
    let b = msg.serialize().unwrap();
    let e = event_of_bytes(&b).unwrap();
    assert_eq!(e, ev(ParameterTarget::Millisecond, GestureKind::Press, 0.2));
    assert_eq!(engine_value(&e), 100.0);
}

#[test]
fn every_tinyosc_argument_type_decodes() {
    let msg = tinyosc::Message {
        path: "/mixer/1",
        arguments: vec![
            tinyosc::Argument::i(-7),
            tinyosc::Argument::f(0.75),
            tinyosc::Argument::s("abcd"),
            tinyosc::Argument::T,
            tinyosc::Argument::F,
            tinyosc::Argument::None,
        ],
    };
    let b = msg.serialize().unwrap();
    let m = decode(&b).unwrap();
    assert_eq!(m.path, b"/mixer/1".to_vec());
    assert_eq!(
        m.arguments,
        vec![
            ControlArgument::Int(-7),
            ControlArgument::Float(0.75f32.to_bits()),
            ControlArgument::Str(b"abcd".to_vec()),
            ControlArgument::True,
            ControlArgument::False,
            ControlArgument::Nil,
        ]
    );
    for n in 0..b.len() {
        assert_eq!(decode(&b[..n]), Err(DecodeError::MalformedPayload));
    }
}
