//! Locking, unlocking and watching a session.
#![allow(dead_code)]

use acrylius::body::{from_bytes, to_bytes};
use acrylius::ids::DeviceId;
use acrylius::plugin::{BulkRequest, Cx, PendingSend, Plugin, PluginError};
use acrylius::plugins::session::{SessionOutcome, SessionPlugin, SessionState, CAP};
use acrylius::vocab::{Effect, EffectResult, EffectSet, EffectToken, UiEvent};
use acrylius::wire::Envelope;

struct Ran {
    sends: Vec<PendingSend>,
    effects: Vec<(EffectToken, Effect)>,
    ui: Vec<UiEvent>,
    bulk: Vec<BulkRequest>,
    /// Carried into the next `run` so a test can mint distinct transfers.
    next_transfer: u64,
    next_token: u64,
}

impl Ran {
    fn one_effect(&self) -> &Effect {
        assert_eq!(self.effects.len(), 1, "expected exactly one effect");
        &self.effects[0].1
    }

    fn token(&self) -> EffectToken {
        self.effects.first().expect("expected an effect").0
    }

    fn sent(&self, ty: &str) -> Option<&PendingSend> {
        self.sends.iter().find(|s| s.ty == ty)
    }
}

/// Run one plugin interaction on a host that serves everything; use
/// [`run_on`] when behaviour depends on what the machine can do.
fn run(next_token: u64, f: impl FnOnce(&mut Cx)) -> Ran {
    run_on(next_token, EffectSet::all(), f)
}

/// The same, on a host that can carry out only the effects named.
fn run_on(next_token: u64, serves: EffectSet, f: impl FnOnce(&mut Cx)) -> Ran {
    let mut cx = Cx::new(1_000, next_token, next_token, serves);
    f(&mut cx);
    Ran {
        sends: cx.sends,
        effects: cx.effects,
        ui: cx.ui,
        bulk: cx.bulk,
        next_token: cx.next_token,
        next_transfer: cx.next_transfer,
    }
}

/// A request as it would arrive over a session.
fn envelope(id: u32, cap: &str, ty: &str, body: &[u8]) -> Envelope {
    Envelope::new(id, cap, ty, body)
}

fn device(byte: u8) -> DeviceId {
    DeviceId::new(format!("device-{byte}"))
}

fn peer() -> DeviceId {
    device(1)
}

#[test]
fn lock_asks_the_host_and_answers_the_request() {
    let mut p = SessionPlugin::default();
    let body = Vec::new();
    let env = envelope(42, CAP, "lock", &body);
    let r = run(0, |cx| p.on_message(cx, &peer(), &env).unwrap());
    assert_eq!(r.one_effect(), &Effect::LockSession);

    let outcome = SessionOutcome {
        was_locked: false,
        locked: true,
        session_id: "1".to_string(),
    };
    let bytes = to_bytes(&outcome);
    let r2 = run(r.next_token, |cx| {
        p.on_effect_result(cx, r.token(), &EffectResult::Done(bytes));
    });
    let sent = r2.sent("result").expect("a result should go back");
    // Correlated to the request, or the caller cannot tell which answer it is.
    assert_eq!(sent.re, Some(42));
    assert_eq!(
        from_bytes::<SessionOutcome>(&sent.body).unwrap(),
        outcome
    );
}

#[test]
fn locking_an_already_locked_session_is_a_success() {
    // Idempotence is a protocol promise: `was_locked` passes back as a
    // result, never an error.
    let mut p = SessionPlugin::default();
    let env = envelope(1, CAP, "lock", b"");
    let r = run(0, |cx| p.on_message(cx, &peer(), &env).unwrap());
    let outcome = SessionOutcome {
        was_locked: true,
        locked: true,
        session_id: "1".to_string(),
    };
    let r2 = run(r.next_token, |cx| {
        p.on_effect_result(
            cx,
            r.token(),
            &EffectResult::Done(to_bytes(&outcome)),
        );
    });
    assert!(r2.sent("result").is_some());
    assert!(r2.sent("err").is_none());
}

#[test]
fn a_host_without_a_session_answers_not_allowed() {
    let mut p = SessionPlugin::default();
    let env = envelope(9, CAP, "unlock", b"");
    let r = run(0, |cx| p.on_message(cx, &peer(), &env).unwrap());
    let r2 = run(r.next_token, |cx| {
        p.on_effect_result(cx, r.token(), &EffectResult::Unsupported);
    });
    let err = r2.sent("err").expect("an error should go back");
    assert_eq!(err.re, Some(9));
}

#[test]
fn session_an_unknown_verb_is_named_in_the_error() {
    let mut p = SessionPlugin::default();
    let env = envelope(1, CAP, "reboot", b"");
    let r = run(0, |cx| {
        let e = p.on_message(cx, &peer(), &env).unwrap_err();
        assert_eq!(e, PluginError::UnknownType("reboot".to_string()));
    });
    assert!(
        r.effects.is_empty(),
        "an unknown verb must not reach the host"
    );
}

#[test]
fn one_device_asking_does_not_make_every_other_view_stale() {
    // A query that quietly updates the dedupe cache leaves every other
    // device's view stale.
    let mut p = SessionPlugin::default();
    let asker = peer();
    let other = device(4);
    run(0, |cx| p.on_peer_connected(cx, &asker));
    run(0, |cx| p.on_peer_connected(cx, &other));

    let state = SessionState {
        locked: true,
        session_id: "1".to_string(),
        kind: "wayland".to_string(),
        active: true,
    };
    let env = envelope(3, CAP, "query", b"");
    let r = run(0, |cx| p.on_message(cx, &asker, &env).unwrap());
    let r2 = run(r.next_token, |cx| {
        p.on_effect_result(
            cx,
            r.token(),
            &EffectResult::Done(to_bytes(&state)),
        );
    });

    let told: Vec<&DeviceId> = r2
        .sends
        .iter()
        .filter(|s| s.ty == "state")
        .map(|s| &s.peer)
        .collect();
    assert!(
        told.contains(&&other),
        "the device that did not ask still has to be told"
    );
    assert_eq!(
        told.iter().filter(|d| ***d == asker).count(),
        1,
        "and the one that asked hears it once, as its reply"
    );
}

#[test]
fn a_background_poll_that_fails_answers_nobody() {
    // The poll's peer is a placeholder for "everyone" and its request id
    // is zero; a failed poll must answer nobody.
    let mut p = SessionPlugin::default();
    run(0, |cx| p.on_peer_connected(cx, &peer()));

    let r = run(0, |cx| p.on_local(cx, &peer(), "notify", b"").unwrap());
    let r2 = run(r.next_token, |cx| {
        p.on_effect_result(
            cx,
            r.token(),
            &EffectResult::Failed("no graphical session".to_string()),
        );
    });
    assert!(r2.sends.is_empty(), "nothing was asked, so nothing answers");

    // An unsupported host is the same question with a different answer.
    let r3 = run(0, |cx| p.on_local(cx, &peer(), "notify", b"").unwrap());
    let r4 = run(r3.next_token, |cx| {
        p.on_effect_result(cx, r3.token(), &EffectResult::Unsupported);
    });
    assert!(r4.sends.is_empty());

    // A request from a real peer is still answered.
    let env = envelope(5, CAP, "lock", b"");
    let r5 = run(0, |cx| p.on_message(cx, &peer(), &env).unwrap());
    let r6 = run(r5.next_token, |cx| {
        p.on_effect_result(cx, r5.token(), &EffectResult::Unsupported);
    });
    assert_eq!(
        r6.sent("err").map(|s| s.re),
        Some(Some(5)),
        "somebody did ask, so they hear about it"
    );

    // The Failed arm is separate and needs its own assertion.
    let env = envelope(6, CAP, "lock", b"");
    let r7 = run(0, |cx| p.on_message(cx, &peer(), &env).unwrap());
    let r8 = run(r7.next_token, |cx| {
        p.on_effect_result(
            cx,
            r7.token(),
            &EffectResult::Failed("logind said no".to_string()),
        );
    });
    assert_eq!(r8.sent("err").map(|s| s.re), Some(Some(6)));
}

#[test]
fn session_a_broadcast_skips_the_peer_that_left_and_reaches_the_one_that_stayed() {
    // Mutation testing: `retain`'s `!=` could flip to `==` with no test
    // objecting. Both halves asserted, or an emptied list also passes.
    let mut p = SessionPlugin::default();
    let gone = peer();
    let stayed = device(2);
    run(0, |cx| p.on_peer_connected(cx, &gone));
    run(0, |cx| p.on_peer_connected(cx, &stayed));
    run(0, |cx| p.on_peer_disconnected(cx, &gone));

    let state = SessionState {
        locked: true,
        session_id: "1".to_string(),
        kind: "wayland".to_string(),
        active: true,
    };
    let r = run(0, |cx| p.on_local(cx, &gone, "notify", b"").unwrap());
    let r2 = run(r.next_token, |cx| {
        p.on_effect_result(
            cx,
            r.token(),
            &EffectResult::Done(to_bytes(&state)),
        );
    });

    let told: Vec<&DeviceId> = r2
        .sends
        .iter()
        .filter(|s| s.ty == "state")
        .map(|s| &s.peer)
        .collect();
    assert_eq!(
        told,
        vec![&stayed],
        "exactly the peer still connected, and only it"
    );
}

#[test]
fn a_state_change_is_broadcast_only_when_it_changed() {
    let mut p = SessionPlugin::default();
    run(0, |cx| p.on_peer_connected(cx, &peer()));

    let state = SessionState {
        locked: true,
        session_id: "1".to_string(),
        kind: "wayland".to_string(),
        active: true,
    };
    let bytes = to_bytes(&state);

    let r = run(0, |cx| p.on_local(cx, &peer(), "notify", b"").unwrap());
    let r2 = run(r.next_token, |cx| {
        p.on_effect_result(cx, r.token(), &EffectResult::Done(bytes.clone()));
    });
    assert!(r2.sent("state").is_some(), "the first observation is news");

    let r3 = run(0, |cx| p.on_local(cx, &peer(), "notify", b"").unwrap());
    let r4 = run(r3.next_token, |cx| {
        p.on_effect_result(cx, r3.token(), &EffectResult::Done(bytes));
    });
    assert!(
        r4.sent("state").is_none(),
        "an unchanged poll must stay quiet"
    );
}
