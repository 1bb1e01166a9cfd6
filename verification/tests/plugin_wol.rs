//! Offering and relaying wake packets.
#![allow(dead_code)]

use acrylius::body::{from_bytes, to_bytes};
use acrylius::ids::DeviceId;
use acrylius::plugin::{BulkRequest, Cx, PendingSend, Plugin, PluginError};
use acrylius::plugins::wol::{RelayRequest, WolConfig, WolPlugin, CAP};
use acrylius::vocab::{Effect, EffectSet, EffectToken, UiEvent};
use acrylius::wire::Envelope;

struct Ran {
    sends: Vec<PendingSend>,
    effects: Vec<(EffectToken, Effect)>,
    ui: Vec<UiEvent>,
    bulk: Vec<BulkRequest>,
    /// Carried into the next `run` so a test can mint distinct transfers.
    next_transfer: u64,
    next_token: u64,
}

impl Ran {
    fn one_effect(&self) -> &Effect {
        assert_eq!(self.effects.len(), 1, "expected exactly one effect");
        &self.effects[0].1
    }

    fn token(&self) -> EffectToken {
        self.effects.first().expect("expected an effect").0
    }

    fn sent(&self, ty: &str) -> Option<&PendingSend> {
        self.sends.iter().find(|s| s.ty == ty)
    }
}

/// Run one plugin interaction on a host that serves everything; use
/// [`run_on`] when behaviour depends on what the machine can do.
fn run(next_token: u64, f: impl FnOnce(&mut Cx)) -> Ran {
    run_on(next_token, EffectSet::all(), f)
}

/// The same, on a host that can carry out only the effects named.
fn run_on(next_token: u64, serves: EffectSet, f: impl FnOnce(&mut Cx)) -> Ran {
    let mut cx = Cx::new(1_000, next_token, next_token, serves);
    f(&mut cx);
    Ran {
        sends: cx.sends,
        effects: cx.effects,
        ui: cx.ui,
        bulk: cx.bulk,
        next_token: cx.next_token,
        next_transfer: cx.next_transfer,
    }
}

/// A request as it would arrive over a session.
fn envelope(id: u32, cap: &str, ty: &str, body: &[u8]) -> Envelope {
    Envelope::new(id, cap, ty, body)
}

fn device(byte: u8) -> DeviceId {
    DeviceId::new(format!("device-{byte}"))
}

fn peer() -> DeviceId {
    device(3)
}

fn plugin() -> WolPlugin {
    WolPlugin::new(
        WolConfig {
            macs: vec!["00:11:22:33:44:55".to_string()],
            broadcast: "192.168.1.255".to_string(),
            port: 9,
            last_ipv4: "192.168.1.50".to_string(),
        },
        vec!["aa-bb-cc-dd-ee-ff".to_string()],
    )
}

#[test]
fn config_is_offered_without_being_asked_for() {
    // By the time the phone wants this, the machine is asleep and cannot
    // answer a question. It has to arrive while there is still a session.
    let mut p = plugin();
    let r = run(0, |cx| p.on_peer_connected(cx, &peer()));
    let sent = r
        .sent("config")
        .expect("config should be offered on connect");
    let cfg: WolConfig = from_bytes(&sent.body).unwrap();
    assert_eq!(cfg.last_ipv4, "192.168.1.50");
    assert_eq!(cfg.port, 9);
}

#[test]
fn a_machine_with_nothing_to_offer_stays_quiet() {
    let mut p = WolPlugin::default();
    let r = run(0, |cx| p.on_peer_connected(cx, &peer()));
    assert!(r.sends.is_empty());
}

#[test]
fn relaying_to_an_allowlisted_mac_sends_a_packet() {
    let mut p = plugin();
    let body = to_bytes(&RelayRequest {
        mac: "aa-bb-cc-dd-ee-ff".to_string(),
    });
    let env = envelope(5, CAP, "relay", &body);
    let r = run(0, |cx| p.on_message(cx, &peer(), &env).unwrap());
    assert!(matches!(
        r.one_effect(),
        Effect::SendMagicPacket { port: 9, .. }
    ));
}

#[test]
fn the_allowlist_ignores_how_a_mac_is_punctuated() {
    // Colons, dashes and bare hex all name the same interface, and a user
    // who typed one form should not be refused for it.
    let mut p = plugin();
    for spelling in ["AA:BB:CC:DD:EE:FF", "aabbccddeeff", "aa-bb-cc-dd-ee-ff"] {
        let body = to_bytes(&RelayRequest {
            mac: spelling.to_string(),
        });
        let env = envelope(1, CAP, "relay", &body);
        let r = run(0, |cx| {
            p.on_message(cx, &peer(), &env)
                .unwrap_or_else(|e| panic!("{spelling} should be allowed, got {e:?}"));
        });
        assert_eq!(r.effects.len(), 1);
    }
}

#[test]
fn relaying_to_anything_else_is_refused() {
    // Without this the endpoint sprays UDP wherever a peer points it.
    let mut p = plugin();
    let body = to_bytes(&RelayRequest {
        mac: "11:22:33:44:55:66".to_string(),
    });
    let env = envelope(1, CAP, "relay", &body);
    let r = run(0, |cx| {
        assert_eq!(
            p.on_message(cx, &peer(), &env).unwrap_err(),
            PluginError::NotAllowed
        );
    });
    assert!(r.effects.is_empty(), "no packet should be sent");
}

#[test]
fn a_mac_that_is_not_a_mac_is_refused() {
    let mut p = plugin();
    for junk in ["", "zz:zz:zz:zz:zz:zz", "aabbcc"] {
        let body = to_bytes(&RelayRequest {
            mac: junk.to_string(),
        });
        let env = envelope(1, CAP, "relay", &body);
        run(0, |cx| {
            assert!(
                p.on_message(cx, &peer(), &env).is_err(),
                "{junk:?} should not be accepted"
            );
        });
    }
}
