//! Running what a machine has offered, and nothing else.
#![allow(dead_code)]

use acrylius::body::{from_bytes, to_bytes};
use acrylius::ids::DeviceId;
use acrylius::plugin::{BulkRequest, Cx, PendingSend, Plugin, PluginError};
use acrylius::plugins::command::{CommandEntry, CommandList, CommandPlugin, Exited, RunRequest, CAP};
use acrylius::vocab::{Effect, EffectResult, EffectSet, EffectToken, UiEvent};
use acrylius::wire::Envelope;

struct Ran {
    sends: Vec<PendingSend>,
    effects: Vec<(EffectToken, Effect)>,
    ui: Vec<UiEvent>,
    bulk: Vec<BulkRequest>,
    /// Carried into the next `run` so a test can mint distinct transfers.
    next_transfer: u64,
    next_token: u64,
}

impl Ran {
    fn one_effect(&self) -> &Effect {
        assert_eq!(self.effects.len(), 1, "expected exactly one effect");
        &self.effects[0].1
    }

    fn token(&self) -> EffectToken {
        self.effects.first().expect("expected an effect").0
    }

    fn sent(&self, ty: &str) -> Option<&PendingSend> {
        self.sends.iter().find(|s| s.ty == ty)
    }
}

/// Run one plugin interaction on a host that serves everything; use
/// [`run_on`] when behaviour depends on what the machine can do.
fn run(next_token: u64, f: impl FnOnce(&mut Cx)) -> Ran {
    run_on(next_token, EffectSet::all(), f)
}

/// The same, on a host that can carry out only the effects named.
fn run_on(next_token: u64, serves: EffectSet, f: impl FnOnce(&mut Cx)) -> Ran {
    let mut cx = Cx::new(1_000, next_token, next_token, serves);
    f(&mut cx);
    Ran {
        sends: cx.sends,
        effects: cx.effects,
        ui: cx.ui,
        bulk: cx.bulk,
        next_token: cx.next_token,
        next_transfer: cx.next_transfer,
    }
}

/// A request as it would arrive over a session.
fn envelope(id: u32, cap: &str, ty: &str, body: &[u8]) -> Envelope {
    Envelope::new(id, cap, ty, body)
}

fn device(byte: u8) -> DeviceId {
    DeviceId::new(format!("device-{byte}"))
}

fn peer() -> DeviceId {
    device(4)
}

fn plugin() -> CommandPlugin {
    CommandPlugin::new(vec![CommandEntry {
        id: "screenshot".to_string(),
        name: "Take a screenshot".to_string(),
        needs_confirm: false,
    }])
}

#[test]
fn the_catalog_is_offered_on_connect() {
    let mut p = plugin();
    let r = run(0, |cx| p.on_peer_connected(cx, &peer()));
    let sent = r.sent("list").expect("a catalog");
    let list: CommandList = from_bytes(&sent.body).unwrap();
    assert_eq!(list.commands.len(), 1);
    assert_eq!(list.commands[0].id, "screenshot");
}

#[test]
fn a_machine_with_no_commands_offers_nothing() {
    let mut p = CommandPlugin::default();
    let r = run(0, |cx| p.on_peer_connected(cx, &peer()));
    assert!(r.sends.is_empty());
}

#[test]
fn running_a_listed_command_reaches_the_host() {
    let mut p = plugin();
    let body = to_bytes(&RunRequest {
        id: "screenshot".to_string(),
    });
    let env = envelope(11, CAP, "run", &body);
    let r = run(0, |cx| p.on_message(cx, &peer(), &env).unwrap());
    assert_eq!(
        r.one_effect(),
        &Effect::RunCommand {
            id: "screenshot".to_string()
        }
    );

    let exited = Exited {
        run_id: 1,
        code: 0,
        truncated: false,
    };
    let r2 = run(r.next_token, |cx| {
        p.on_effect_result(
            cx,
            r.token(),
            &EffectResult::Done(to_bytes(&exited)),
        );
    });
    let sent = r2.sent("exited").expect("an outcome");
    assert_eq!(sent.re, Some(11));
    assert_eq!(from_bytes::<Exited>(&sent.body).unwrap(), exited);
}

#[test]
fn an_id_that_is_not_in_the_catalog_never_reaches_the_host() {
    // This is the whole difference between a command runner and a remote
    // shell, so it is checked before anything else can happen.
    let mut p = plugin();
    for id in [
        "rm",
        "screenshot ; rm -rf /",
        "",
        "SCREENSHOT",
        "../screenshot",
    ] {
        let body = to_bytes(&RunRequest { id: id.to_string() });
        let env = envelope(1, CAP, "run", &body);
        let r = run(0, |cx| {
            assert_eq!(
                p.on_message(cx, &peer(), &env).unwrap_err(),
                PluginError::NotAllowed,
                "{id:?} should be refused"
            );
        });
        assert!(r.effects.is_empty(), "{id:?} must not reach the host");
    }
}

#[test]
fn a_machine_offering_no_commands_refuses_everything() {
    let mut p = CommandPlugin::default();
    let body = to_bytes(&RunRequest {
        id: "anything".to_string(),
    });
    let env = envelope(1, CAP, "run", &body);
    run(0, |cx| {
        assert_eq!(
            p.on_message(cx, &peer(), &env).unwrap_err(),
            PluginError::NotAllowed
        );
    });
}

#[test]
fn a_body_that_is_not_a_run_request_is_refused() {
    let mut p = plugin();
    let env = envelope(1, CAP, "run", b"\xff\xff not cbor");
    run(0, |cx| {
        assert_eq!(
            p.on_message(cx, &peer(), &env).unwrap_err(),
            PluginError::BadBody
        );
    });
}
