//! Offering and accepting files.
#![allow(dead_code)]

use acrylius::body::{from_bytes, to_bytes};
use acrylius::ids::DeviceId;
use acrylius::plugin::{BulkRequest, Cx, PendingSend, Plugin, PluginError};
use acrylius::plugins::share::{Accept, Finished, Offer, SharePlugin, CAP, MAX_BYTES};
use acrylius::vocab::{Effect, EffectSet, EffectToken, TransferId, UiEvent};
use acrylius::wire::Envelope;

struct Ran {
    sends: Vec<PendingSend>,
    effects: Vec<(EffectToken, Effect)>,
    ui: Vec<UiEvent>,
    bulk: Vec<BulkRequest>,
    /// Carried into the next `run` so a test can mint distinct transfers.
    next_transfer: u64,
    next_token: u64,
}

impl Ran {
    fn one_effect(&self) -> &Effect {
        assert_eq!(self.effects.len(), 1, "expected exactly one effect");
        &self.effects[0].1
    }

    fn token(&self) -> EffectToken {
        self.effects.first().expect("expected an effect").0
    }

    fn sent(&self, ty: &str) -> Option<&PendingSend> {
        self.sends.iter().find(|s| s.ty == ty)
    }
}

/// Run one plugin interaction on a host that serves everything; use
/// [`run_on`] when behaviour depends on what the machine can do.
fn run(next_token: u64, f: impl FnOnce(&mut Cx)) -> Ran {
    run_on(next_token, EffectSet::all(), f)
}

/// The same, on a host that can carry out only the effects named.
fn run_on(next_token: u64, serves: EffectSet, f: impl FnOnce(&mut Cx)) -> Ran {
    let mut cx = Cx::new(1_000, next_token, next_token, serves);
    f(&mut cx);
    Ran {
        sends: cx.sends,
        effects: cx.effects,
        ui: cx.ui,
        bulk: cx.bulk,
        next_token: cx.next_token,
        next_transfer: cx.next_transfer,
    }
}

/// A request as it would arrive over a session.
fn envelope(id: u32, cap: &str, ty: &str, body: &[u8]) -> Envelope {
    Envelope::new(id, cap, ty, body)
}

fn device(byte: u8) -> DeviceId {
    DeviceId::new(format!("device-{byte}"))
}

fn peer() -> DeviceId {
    device(4)
}

fn offer(size: u64) -> Vec<u8> {
    to_bytes(&Offer {
        transfer: 1,
        name: "notes.txt".to_string(),
        size,
        mime: "text/plain".to_string(),
    })
}

/// The number this device gave an offer that arrived; never the number in
/// the offer itself, which is the sender's.
fn ours(r: &Ran) -> u64 {
    r.ui.iter()
        .find_map(|e| match e {
            UiEvent::Plugin { ty, body, .. } if ty == "offer" => {
                from_bytes::<Offer>(body).map(|o| o.transfer)
            }
            _ => None,
        })
        .expect("an arriving offer is announced")
}

fn finished(transfer: u64) -> Vec<u8> {
    to_bytes(&Finished {
        transfer,
        ok: true,
        detail: String::new(),
    })
}

#[test]
fn an_offer_is_not_accepted_by_itself() {
    // A device that wrote whatever a peer sent it would be a file drop for
    // anything ever paired with it.
    let mut p = SharePlugin::default();
    let body = offer(1024);
    let r = run(0, |cx| {
        p.on_message(cx, &peer(), &envelope(9, CAP, "offer", &body))
            .unwrap();
    });
    assert!(
        r.bulk.is_empty(),
        "nothing is listened for until a person says so"
    );
    assert!(r.sent("accept").is_none(), "and nothing is accepted");
    assert!(
        r.ui.iter()
            .any(|e| matches!(e, UiEvent::Plugin { ty, .. } if ty == "offer")),
        "the host is asked"
    );
}

#[test]
fn accepting_asks_for_somewhere_to_listen_before_answering() {
    // The endpoint reaches the peer only once the host has one. A peer told
    // to connect to nothing cannot tell that from a refusal.
    let mut p = SharePlugin::default();
    let body = offer(1024);
    let arrived = run(0, |cx| {
        p.on_message(cx, &peer(), &envelope(9, CAP, "offer", &body))
            .unwrap();
    });
    let yes = finished(ours(&arrived));
    let r = run(0, |cx| p.on_local(cx, &peer(), "accept", &yes).unwrap());
    assert!(r.sent("accept").is_none(), "not yet");
    assert!(matches!(
        r.bulk.first(),
        Some(BulkRequest::Listen {
            expect_bytes: 1024,
            ..
        })
    ));

    let r = run(0, |cx| {
        p.on_bulk_listening(cx, TransferId(ours(&arrived)), "127.0.0.1:5000")
    });
    let sent = r.sent("accept").expect("now the peer is told where");
    let a: Accept = from_bytes(&sent.body).unwrap();
    assert_eq!(a.endpoint, "127.0.0.1:5000");
    assert_eq!(sent.re, Some(9), "answering the offer");
    // Under the sender's number, not the one this device answered with.
    assert_eq!(
        a.transfer, 1,
        "the endpoint named a transfer the sender never offered"
    );
}

#[test]
fn an_endpoint_for_a_transfer_we_never_offered_is_refused() {
    // Otherwise a peer names somewhere and this device connects to it.
    let mut p = SharePlugin::default();
    let body = to_bytes(&Accept {
        transfer: 77,
        endpoint: "10.0.0.1:1234".to_string(),
    });
    run(0, |cx| {
        assert_eq!(
            p.on_message(cx, &peer(), &envelope(1, CAP, "accept", &body))
                .unwrap_err(),
            PluginError::NotAllowed
        );
    });
}

#[test]
fn two_devices_offering_the_same_id_each_get_one_of_their_own() {
    // Every device numbers transfers from one, so two offers landing at
    // once would collide on "transfer 1" without renumbering on arrival.
    let mut p = SharePlugin::default();
    let first = peer();
    let second = device(6);

    let body = offer(10);
    let r = run(0, |cx| {
        p.on_message(cx, &first, &envelope(1, CAP, "offer", &body))
            .unwrap();
    });
    // Carried on, the way the core carries it between dispatches.
    run(r.next_transfer, |cx| {
        p.on_message(cx, &second, &envelope(2, CAP, "offer", &body))
            .unwrap();
    });

    let pending: Vec<(TransferId, DeviceId)> =
        p.pending().into_iter().map(|(t, who, _)| (t, who)).collect();
    assert_eq!(pending.len(), 2, "both offers stand");
    assert_ne!(
        pending[0].0, pending[1].0,
        "under numbers that are not each other's"
    );
    assert!(
        pending.iter().any(|(_, who)| who == &first)
            && pending.iter().any(|(_, who)| who == &second),
        "and each is still attributed to the device that made it"
    );
    assert!(
        pending.iter().all(|(t, _)| t.0 != 10),
        "and neither is filed under the number the senders chose, \
         which is the number they collided on"
    );
}

#[test]
fn another_paired_device_cannot_accept_a_file_offered_to_someone_else() {
    // Pairing a second phone must not make it able to read what you send
    // to the first, even though both number their transfers from one.
    let mut p = SharePlugin::default();
    let intended = peer();
    let eavesdropper = device(8);
    let body = offer(10);
    run(0, |cx| p.on_local(cx, &intended, "offer", &body).unwrap());

    let accept = to_bytes(&Accept {
        transfer: 1,
        endpoint: "10.6.6.6:4444".to_string(),
    });
    let r = run(0, |cx| {
        assert_eq!(
            p.on_message(cx, &eavesdropper, &envelope(2, CAP, "accept", &accept))
                .unwrap_err(),
            PluginError::NotAllowed,
            "an accept from a device the offer was not made to"
        );
    });
    assert!(
        r.bulk.is_empty(),
        "and above all, nothing is dialled: the address came from the wrong device"
    );

    // The offer is untouched, so the device it was actually made to can
    // still accept it.
    let r2 = run(0, |cx| {
        p.on_message(cx, &intended, &envelope(3, CAP, "accept", &accept))
            .unwrap();
    });
    assert!(matches!(r2.bulk.first(), Some(BulkRequest::Send { .. })));
}

#[test]
fn another_paired_device_cannot_cancel_a_transfer_it_has_nothing_to_do_with() {
    let mut p = SharePlugin::default();
    let intended = peer();
    let meddler = device(8);
    run(0, |cx| {
        p.on_local(cx, &intended, "offer", &offer(10)).unwrap()
    });

    let f = to_bytes(&Finished {
        transfer: 1,
        ok: false,
        detail: "no thanks".to_string(),
    });
    run(0, |cx| {
        assert_eq!(
            p.on_message(cx, &meddler, &envelope(4, CAP, "reject", &f))
                .unwrap_err(),
            PluginError::NotAllowed
        );
    });
    assert_eq!(p.unfinished(), 1, "the transfer survives a stranger's no");
}

#[test]
fn only_the_device_a_transfer_is_with_may_finish_it() {
    // Both directions of `finished`, and a stranger refused in each: a
    // transfer id alone names nothing without the peer check.
    let mut p = SharePlugin::default();
    let mine = peer();
    let stranger = device(7);
    let f = to_bytes(&Finished {
        transfer: 1,
        ok: true,
        detail: String::new(),
    });

    // Outgoing.
    run(0, |cx| p.on_local(cx, &mine, "offer", &offer(10)).unwrap());
    run(0, |cx| {
        assert_eq!(
            p.on_message(cx, &stranger, &envelope(9, CAP, "finished", &f))
                .unwrap_err(),
            PluginError::NotAllowed
        );
    });
    run(0, |cx| {
        p.on_message(cx, &mine, &envelope(10, CAP, "finished", &f))
            .unwrap();
    });
    assert!(p.unfinished() == 0, "the right device closed it out");

    // Incoming. `offer(n)` sets the *size*; the id it carries is always 1,
    // which is why ids collide across devices.
    let body = offer(11);
    run(0, |cx| {
        p.on_message(cx, &mine, &envelope(11, CAP, "offer", &body))
            .unwrap();
    });
    assert_eq!(p.pending().len(), 1);
    run(0, |cx| {
        assert_eq!(
            p.on_message(cx, &stranger, &envelope(12, CAP, "finished", &f))
                .unwrap_err(),
            PluginError::NotAllowed,
            "a stranger naming the id of an offer made to us"
        );
    });
    assert_eq!(p.pending().len(), 1, "the offer survives a stranger");
    run(0, |cx| {
        p.on_message(cx, &mine, &envelope(13, CAP, "finished", &f))
            .unwrap();
    });
    assert_eq!(p.pending().len(), 0, "and the right device closes it");
}

#[test]
fn an_offer_of_exactly_the_largest_size_is_taken() {
    // A bound, not the first value outside it: guards against the check
    // quietly becoming `>=`.
    let mut p = SharePlugin::default();
    let body = to_bytes(&Offer {
        transfer: 5,
        name: "big.bin".to_string(),
        size: MAX_BYTES,
        mime: String::new(),
    });
    run(0, |cx| {
        p.on_message(cx, &peer(), &envelope(1, CAP, "offer", &body))
            .unwrap();
    });
    assert_eq!(p.pending().len(), 1);

    let too_big = to_bytes(&Offer {
        transfer: 6,
        name: "bigger.bin".to_string(),
        size: MAX_BYTES + 1,
        mime: String::new(),
    });
    run(0, |cx| {
        assert_eq!(
            p.on_message(cx, &peer(), &envelope(2, CAP, "offer", &too_big))
                .unwrap_err(),
            PluginError::TooLarge
        );
    });

    // The same bound on the way out, a separate check in a separate
    // function: refused here, before anything is sent.
    let mut q = SharePlugin::default();
    run(0, |cx| {
        q.on_local(cx, &peer(), "offer", &body).unwrap();
    });
    run(0, |cx| {
        assert_eq!(
            q.on_local(cx, &peer(), "offer", &too_big).unwrap_err(),
            PluginError::TooLarge
        );
    });
}

#[test]
fn a_sender_dials_the_endpoint_it_was_given() {
    let mut p = SharePlugin::default();
    let body = offer(10);
    run(0, |cx| p.on_local(cx, &peer(), "offer", &body).unwrap());

    let accept = to_bytes(&Accept {
        transfer: 1,
        endpoint: "192.168.1.5:4444".to_string(),
    });
    let r = run(0, |cx| {
        p.on_message(cx, &peer(), &envelope(2, CAP, "accept", &accept))
            .unwrap();
    });
    assert!(matches!(
        r.bulk.first(),
        Some(BulkRequest::Send { endpoint, .. }) if endpoint == "192.168.1.5:4444"
    ));
}

#[test]
fn something_absurdly_large_is_refused_at_the_offer() {
    // Finding out four gigabytes in is worse than being told at the start.
    let mut p = SharePlugin::default();
    let body = offer(MAX_BYTES + 1);
    run(0, |cx| {
        assert_eq!(
            p.on_message(cx, &peer(), &envelope(1, CAP, "offer", &body))
                .unwrap_err(),
            PluginError::TooLarge
        );
    });
}

#[test]
fn an_offer_with_no_name_is_refused() {
    let mut p = SharePlugin::default();
    let body = to_bytes(&Offer {
        transfer: 1,
        name: String::new(),
        size: 1,
        mime: String::new(),
    });
    run(0, |cx| {
        assert_eq!(
            p.on_message(cx, &peer(), &envelope(1, CAP, "offer", &body))
                .unwrap_err(),
            PluginError::BadBody
        );
    });
}

#[test]
fn a_finished_transfer_is_forgotten_on_both_sides() {
    let mut p = SharePlugin::default();
    let body = offer(10);
    run(0, |cx| p.on_local(cx, &peer(), "offer", &body).unwrap());
    assert_eq!(p.unfinished(), 1);

    let r = run(0, |cx| p.on_bulk_finished(cx, TransferId(1), true, ""));
    assert!(
        p.unfinished() == 0,
        "nothing should still hold a key for it"
    );
    assert!(r.sent("finished").is_some(), "and the peer is told");
}

#[test]
fn a_peer_going_away_takes_its_transfers_with_it() {
    // A transfer cannot outlive the session its key came from.
    let mut p = SharePlugin::default();
    let body = offer(10);
    run(0, |cx| p.on_local(cx, &peer(), "offer", &body).unwrap());
    run(0, |cx| {
        p.on_message(cx, &peer(), &envelope(9, CAP, "offer", &body))
            .unwrap();
    });
    run(0, |cx| p.on_peer_disconnected(cx, &peer()));
    assert!(p.unfinished() == 0 && p.pending().is_empty());
}

#[test]
fn rejecting_answers_the_offer_and_forgets_it() {
    let mut p = SharePlugin::default();
    let body = offer(10);
    let arrived = run(0, |cx| {
        p.on_message(cx, &peer(), &envelope(9, CAP, "offer", &body))
            .unwrap();
    });
    let no = finished(ours(&arrived));
    let r = run(0, |cx| p.on_local(cx, &peer(), "reject", &no).unwrap());
    assert_eq!(r.sent("reject").and_then(|s| s.re), Some(9));
    assert!(p.pending().is_empty());
}
