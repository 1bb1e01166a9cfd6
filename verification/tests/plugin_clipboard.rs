//! Sharing a clipboard without echoing it.
#![allow(dead_code)]

use acrylius::body::{from_bytes, to_bytes};
use acrylius::ids::DeviceId;
use acrylius::plugin::{BulkRequest, Cx, PendingSend, Plugin, PluginError};
use acrylius::plugins::clipboard::{hash, ClipboardPlugin, ClipboardSet, Directions, CAP, MAX_INLINE, TEXT_PLAIN};
use acrylius::vocab::{Effect, EffectResult, EffectSet, EffectToken, UiEvent};
use acrylius::wire::Envelope;

struct Ran {
    sends: Vec<PendingSend>,
    effects: Vec<(EffectToken, Effect)>,
    ui: Vec<UiEvent>,
    bulk: Vec<BulkRequest>,
    /// Carried into the next `run` so a test can mint distinct transfers.
    next_transfer: u64,
    next_token: u64,
}

impl Ran {
    fn one_effect(&self) -> &Effect {
        assert_eq!(self.effects.len(), 1, "expected exactly one effect");
        &self.effects[0].1
    }

    fn token(&self) -> EffectToken {
        self.effects.first().expect("expected an effect").0
    }

    fn sent(&self, ty: &str) -> Option<&PendingSend> {
        self.sends.iter().find(|s| s.ty == ty)
    }
}

/// Run one plugin interaction on a host that serves everything; use
/// [`run_on`] when behaviour depends on what the machine can do.
fn run(next_token: u64, f: impl FnOnce(&mut Cx)) -> Ran {
    run_on(next_token, EffectSet::all(), f)
}

/// The same, on a host that can carry out only the effects named.
fn run_on(next_token: u64, serves: EffectSet, f: impl FnOnce(&mut Cx)) -> Ran {
    let mut cx = Cx::new(1_000, next_token, next_token, serves);
    f(&mut cx);
    Ran {
        sends: cx.sends,
        effects: cx.effects,
        ui: cx.ui,
        bulk: cx.bulk,
        next_token: cx.next_token,
        next_transfer: cx.next_transfer,
    }
}

/// A request as it would arrive over a session.
fn envelope(id: u32, cap: &str, ty: &str, body: &[u8]) -> Envelope {
    Envelope::new(id, cap, ty, body)
}

fn device(byte: u8) -> DeviceId {
    DeviceId::new(format!("device-{byte}"))
}

fn peer() -> DeviceId {
    device(2)
}

fn set_message(text: &str) -> Vec<u8> {
    to_bytes(&ClipboardSet {
        mime: TEXT_PLAIN.to_string(),
        data: text.as_bytes().to_vec(),
        hash: hash(text.as_bytes()),
    })
}

#[test]
fn a_local_change_is_offered_to_every_peer() {
    let mut p = ClipboardPlugin::default();
    run(0, |cx| p.on_peer_connected(cx, &peer()));
    let r = run(0, |cx| {
        p.on_local(cx, &peer(), "changed", b"hello").unwrap()
    });
    let sent = r.sent("set").expect("it should be offered");
    let msg: ClipboardSet = from_bytes(&sent.body).unwrap();
    assert_eq!(msg.data, b"hello");
    assert_eq!(msg.hash, hash(b"hello"));
}

#[test]
fn clipboard_flapping_does_not_loop() {
    // The failure this prevents needs two live devices to show up, so it is
    // pinned here instead: A tells B, B applies it, B's host then observes
    // the very same value on its own clipboard. B must say nothing.
    let mut a = ClipboardPlugin::default();
    let mut b = ClipboardPlugin::default();
    run(0, |cx| a.on_peer_connected(cx, &peer()));
    run(0, |cx| b.on_peer_connected(cx, &peer()));

    let mut messages = 0;
    let mut value = "first".to_string();

    for round in 0..50 {
        // A's clipboard changed; it offers the value.
        let ra = run(0, |cx| {
            a.on_local(cx, &peer(), "changed", value.as_bytes())
                .unwrap()
        });
        let Some(sent) = ra.sent("set") else { continue };
        messages += 1;

        // B receives it and writes it to its own clipboard.
        let env = envelope(round, CAP, "set", &sent.body);
        let rb = run(0, |cx| b.on_message(cx, &peer(), &env).unwrap());
        assert!(matches!(rb.one_effect(), Effect::ClipboardWrite { .. }));

        // B's host now observes that value locally. This is the echo.
        let echo = run(0, |cx| {
            b.on_local(cx, &peer(), "changed", value.as_bytes())
                .unwrap()
        });
        assert!(
            echo.sent("set").is_none(),
            "B echoed back a value it had just been given (round {round})"
        );

        // And A observing its own value must not resend it either.
        let self_echo = run(0, |cx| {
            a.on_local(cx, &peer(), "changed", value.as_bytes())
                .unwrap()
        });
        assert!(self_echo.sent("set").is_none(), "A resent its own value");

        value = format!("value-{round}");
    }

    // One message per genuinely new value, and nothing else.
    assert_eq!(
        messages, 50,
        "expected exactly one message per distinct value"
    );
}

#[test]
fn oversized_content_is_refused_not_truncated() {
    let mut p = ClipboardPlugin::default();
    let big = vec![b'x'; MAX_INLINE + 1];
    let body = to_bytes(&ClipboardSet {
        mime: TEXT_PLAIN.to_string(),
        data: big.clone(),
        hash: hash(&big),
    });
    let env = envelope(1, CAP, "set", &body);
    let r = run(0, |cx| {
        assert_eq!(
            p.on_message(cx, &peer(), &env).unwrap_err(),
            PluginError::TooLarge
        );
    });
    assert!(r.effects.is_empty(), "nothing should reach the clipboard");
}

#[test]
fn a_hash_that_does_not_match_the_data_is_refused() {
    // Cheap, and it catches a peer whose own loop prevention is broken
    // before its bad state becomes ours.
    let mut p = ClipboardPlugin::default();
    let body = to_bytes(&ClipboardSet {
        mime: TEXT_PLAIN.to_string(),
        data: b"hello".to_vec(),
        hash: hash(b"goodbye"),
    });
    let env = envelope(1, CAP, "set", &body);
    run(0, |cx| {
        assert_eq!(
            p.on_message(cx, &peer(), &env).unwrap_err(),
            PluginError::BadBody
        );
    });
}

#[test]
fn an_unknown_mime_is_refused() {
    let mut p = ClipboardPlugin::default();
    let body = to_bytes(&ClipboardSet {
        mime: "image/png".to_string(),
        data: b"..".to_vec(),
        hash: hash(b".."),
    });
    let env = envelope(1, CAP, "set", &body);
    run(0, |cx| {
        assert_eq!(
            p.on_message(cx, &peer(), &env).unwrap_err(),
            PluginError::NotAllowed
        );
    });
}

#[test]
fn each_direction_can_be_switched_off_independently() {
    let mut receive_only = ClipboardPlugin::new(Directions {
        send: false,
        receive: true,
    });
    run(0, |cx| receive_only.on_peer_connected(cx, &peer()));
    let r = run(0, |cx| {
        receive_only.on_local(cx, &peer(), "changed", b"x").unwrap()
    });
    assert!(r.sent("set").is_none(), "send is off");

    let mut send_only = ClipboardPlugin::new(Directions {
        send: true,
        receive: false,
    });
    let body = set_message("y");
    let env = envelope(1, CAP, "set", &body);
    run(0, |cx| {
        assert_eq!(
            send_only.on_message(cx, &peer(), &env).unwrap_err(),
            PluginError::NotAllowed
        );
    });
}

#[test]
fn get_answers_with_the_current_contents() {
    let mut p = ClipboardPlugin::default();
    let env = envelope(77, CAP, "get", b"");
    let r = run(0, |cx| p.on_message(cx, &peer(), &env).unwrap());
    assert_eq!(r.one_effect(), &Effect::ClipboardRead);
    let r2 = run(r.next_token, |cx| {
        p.on_effect_result(cx, r.token(), &EffectResult::Done(b"current".to_vec()));
    });
    let sent = r2.sent("set").expect("an answer");
    assert_eq!(sent.re, Some(77));
    let msg: ClipboardSet = from_bytes(&sent.body).unwrap();
    assert_eq!(msg.data, b"current");
}
