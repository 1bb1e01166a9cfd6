//! A phone as a touchpad.
#![allow(dead_code)]

use acrylius::body::{to_bytes};
use acrylius::ids::DeviceId;
use acrylius::plugin::{BulkRequest, Cx, PendingSend, Plugin, PluginError};
use acrylius::plugins::touchpad::{Begin, Frame, Point, TouchpadPlugin, CAP, MAX_POINTS};
use acrylius::vocab::{Effect, EffectResult, EffectSet, EffectToken, TouchpadOp, UiEvent};
use acrylius::wire::Envelope;

struct Ran {
    sends: Vec<PendingSend>,
    effects: Vec<(EffectToken, Effect)>,
    ui: Vec<UiEvent>,
    bulk: Vec<BulkRequest>,
    /// Carried into the next `run` so a test can mint distinct transfers.
    next_transfer: u64,
    next_token: u64,
}

impl Ran {
    fn one_effect(&self) -> &Effect {
        assert_eq!(self.effects.len(), 1, "expected exactly one effect");
        &self.effects[0].1
    }

    fn token(&self) -> EffectToken {
        self.effects.first().expect("expected an effect").0
    }

    fn sent(&self, ty: &str) -> Option<&PendingSend> {
        self.sends.iter().find(|s| s.ty == ty)
    }
}

/// Run one plugin interaction on a host that serves everything; use
/// [`run_on`] when behaviour depends on what the machine can do.
fn run(next_token: u64, f: impl FnOnce(&mut Cx)) -> Ran {
    run_on(next_token, EffectSet::all(), f)
}

/// The same, on a host that can carry out only the effects named.
fn run_on(next_token: u64, serves: EffectSet, f: impl FnOnce(&mut Cx)) -> Ran {
    let mut cx = Cx::new(1_000, next_token, next_token, serves);
    f(&mut cx);
    Ran {
        sends: cx.sends,
        effects: cx.effects,
        ui: cx.ui,
        bulk: cx.bulk,
        next_token: cx.next_token,
        next_transfer: cx.next_transfer,
    }
}

/// A request as it would arrive over a session.
fn envelope(id: u32, cap: &str, ty: &str, body: &[u8]) -> Envelope {
    Envelope::new(id, cap, ty, body)
}

fn device(byte: u8) -> DeviceId {
    DeviceId::new(format!("device-{byte}"))
}

fn peer(byte: u8) -> DeviceId {
    device(byte)
}

#[test]
fn begin_decodes_dimensions_into_the_effect() {
    let mut p = TouchpadPlugin::default();
    let body = to_bytes(&Begin {
        w_mm: 70,
        h_mm: 150,
    });
    let env = envelope(1, CAP, "begin", &body);
    let r = run(0, |cx| p.on_message(cx, &peer(1), &env).unwrap());
    assert_eq!(
        r.one_effect(),
        &Effect::Touchpad {
            order: 1,
            op: TouchpadOp::Begin {
                w_mm: 70,
                h_mm: 150
            },
        }
    );
}

#[test]
fn a_frame_needs_no_reply_whatever_the_effect_answers() {
    let mut p = TouchpadPlugin::default();
    let body = to_bytes(&Frame {
        seq: 1,
        points: vec![],
    });
    let env = envelope(1, CAP, "frame", &body);
    let r = run(0, |cx| p.on_message(cx, &peer(1), &env).unwrap());
    assert!(r.sends.is_empty());
    for result in [
        EffectResult::Done(Vec::new()),
        EffectResult::Failed("no".to_string()),
        EffectResult::Unsupported,
    ] {
        let r2 = run(r.next_token, |cx| {
            p.on_effect_result(cx, r.token(), &result);
        });
        assert!(r2.sends.is_empty());
    }
}

#[test]
fn an_empty_points_array_is_still_one_effect_not_zero() {
    let mut p = TouchpadPlugin::default();
    let body = to_bytes(&Frame {
        seq: 1,
        points: vec![],
    });
    let env = envelope(1, CAP, "frame", &body);
    let r = run(0, |cx| p.on_message(cx, &peer(1), &env).unwrap());
    assert_eq!(r.effects.len(), 1);
}

#[test]
fn a_frame_naming_more_points_than_slots_is_too_large() {
    let mut p = TouchpadPlugin::default();
    let points = (0..=MAX_POINTS as u8)
        .map(|id| Point { id, x: 0, y: 0 })
        .collect();
    let body = to_bytes(&Frame { seq: 1, points });
    let env = envelope(1, CAP, "frame", &body);
    let r = run(0, |cx| {
        let e = p.on_message(cx, &peer(1), &env).unwrap_err();
        assert_eq!(e, PluginError::TooLarge);
    });
    assert!(r.effects.is_empty());
}

#[test]
fn a_malformed_body_is_bad_body() {
    let mut p = TouchpadPlugin::default();
    let env = envelope(1, CAP, "begin", b"\x00not cbor");
    run(0, |cx| {
        let e = p.on_message(cx, &peer(1), &env).unwrap_err();
        assert_eq!(e, PluginError::BadBody);
    });
}

#[test]
fn touchpad_an_unknown_verb_is_named_in_the_error() {
    let mut p = TouchpadPlugin::default();
    let env = envelope(1, CAP, "wiggle", b"");
    run(0, |cx| {
        let e = p.on_message(cx, &peer(1), &env).unwrap_err();
        assert_eq!(e, PluginError::UnknownType("wiggle".to_string()));
    });
}

#[test]
fn a_host_that_cannot_serve_refuses_before_decoding() {
    let mut p = TouchpadPlugin::default();
    let env = envelope(1, CAP, "begin", b"garbage");
    let r = run_on(0, EffectSet::new(&vec![]), |cx| {
        let e = p.on_message(cx, &peer(1), &env).unwrap_err();
        assert_eq!(e, PluginError::NotAllowed);
    });
    assert!(r.effects.is_empty());
}

#[test]
fn avail_is_announced_on_connect_only_when_served() {
    let mut p = TouchpadPlugin::default();
    let r = run(0, |cx| p.on_peer_connected(cx, &peer(1)));
    assert!(r.sent("avail").is_some());

    let mut p2 = TouchpadPlugin::default();
    let r2 = run_on(0, EffectSet::new(&vec![]), |cx| {
        p2.on_peer_connected(cx, &peer(1))
    });
    assert!(r2.sent("avail").is_none());
}

#[test]
fn order_is_strictly_increasing_across_begin_frame_and_end() {
    let mut p = TouchpadPlugin::default();
    let begin = to_bytes(&Begin { w_mm: 1, h_mm: 1 });
    let frame = to_bytes(&Frame {
        seq: 1,
        points: vec![],
    });

    let e1 = envelope(1, CAP, "begin", &begin);
    let r1 = run(0, |cx| p.on_message(cx, &peer(1), &e1).unwrap());
    let Effect::Touchpad { order: o1, .. } = r1.one_effect() else {
        panic!("expected a touchpad effect")
    };

    let e2 = envelope(2, CAP, "frame", &frame);
    let r2 = run(r1.next_token, |cx| p.on_message(cx, &peer(1), &e2).unwrap());
    let Effect::Touchpad { order: o2, .. } = r2.one_effect() else {
        panic!("expected a touchpad effect")
    };

    let e3 = envelope(3, CAP, "end", b"");
    let r3 = run(r2.next_token, |cx| p.on_message(cx, &peer(1), &e3).unwrap());
    let Effect::Touchpad { order: o3, .. } = r3.one_effect() else {
        panic!("expected a touchpad effect")
    };

    assert!(o1 < o2 && o2 < o3);
}

#[test]
fn a_disconnect_from_a_stranger_does_not_touch_the_open_stream() {
    let mut p = TouchpadPlugin::default();
    let begin = to_bytes(&Begin { w_mm: 1, h_mm: 1 });
    let e1 = envelope(1, CAP, "begin", &begin);
    run(0, |cx| p.on_message(cx, &peer(1), &e1).unwrap());

    let r = run(0, |cx| p.on_peer_disconnected(cx, &peer(2)));
    assert!(r.effects.is_empty());
}

#[test]
fn a_disconnect_from_the_stream_owner_lifts_every_finger() {
    let mut p = TouchpadPlugin::default();
    let begin = to_bytes(&Begin { w_mm: 1, h_mm: 1 });
    let e1 = envelope(1, CAP, "begin", &begin);
    run(0, |cx| p.on_message(cx, &peer(1), &e1).unwrap());

    let r = run(0, |cx| p.on_peer_disconnected(cx, &peer(1)));
    assert_eq!(
        r.one_effect(),
        &Effect::Touchpad {
            order: 2,
            op: TouchpadOp::End,
        }
    );

    // Disconnecting the same peer twice must not lift an already-closed
    // stream a second time.
    let r2 = run(r.next_token, |cx| p.on_peer_disconnected(cx, &peer(1)));
    assert!(r2.effects.is_empty());
}

#[test]
fn only_one_dimension_being_zero_is_still_a_bad_body() {
    let mut p = TouchpadPlugin::default();
    for body in [
        to_bytes(&Begin { w_mm: 0, h_mm: 5 }),
        to_bytes(&Begin { w_mm: 5, h_mm: 0 }),
    ] {
        let env = envelope(1, CAP, "begin", &body);
        run(0, |cx| {
            let e = p.on_message(cx, &peer(1), &env).unwrap_err();
            assert_eq!(e, PluginError::BadBody);
        });
    }
}

#[test]
fn exactly_max_points_is_accepted_one_more_is_too_large() {
    let mut p = TouchpadPlugin::default();
    let at_max: Vec<_> = (0..MAX_POINTS as u8)
        .map(|id| Point { id, x: 0, y: 0 })
        .collect();
    let body = to_bytes(&Frame {
        seq: 1,
        points: at_max,
    });
    let env = envelope(1, CAP, "frame", &body);
    let r = run(0, |cx| p.on_message(cx, &peer(1), &env).unwrap());
    assert_eq!(r.effects.len(), 1);

    let over: Vec<_> = (0..=MAX_POINTS as u8)
        .map(|id| Point { id, x: 0, y: 0 })
        .collect();
    let body2 = to_bytes(&Frame {
        seq: 2,
        points: over,
    });
    let env2 = envelope(2, CAP, "frame", &body2);
    run(r.next_token, |cx| {
        let e = p.on_message(cx, &peer(1), &env2).unwrap_err();
        assert_eq!(e, PluginError::TooLarge);
    });
}

#[test]
fn on_local_passes_the_body_straight_through_to_the_peer() {
    let mut p = TouchpadPlugin::default();
    for ty in ["begin", "frame", "end"] {
        let r = run(0, |cx| {
            p.on_local(cx, &peer(1), ty, b"payload").unwrap();
        });
        let sent = r.sent(ty).expect("expected a send");
        assert_eq!(sent.body, b"payload");
    }
}

#[test]
fn on_local_refuses_an_unknown_verb() {
    let mut p = TouchpadPlugin::default();
    run(0, |cx| {
        let e = p.on_local(cx, &peer(1), "wiggle", b"").unwrap_err();
        assert_eq!(e, PluginError::UnknownType("wiggle".to_string()));
    });
}
