//! The two handshakes and the sessions they give.
use acrylius::ids::{DeviceId, Fingerprint, PublicKey};
use acrylius::link::{LinkAttrs, TransportId};
use acrylius::noise::{
    session_refused, Handshake, Identity, Mode, NoiseError, Session, MAX_NOISE_MESSAGE,
    PAIR_PSK_INDEX, REKEY_AFTER_MESSAGES, SESSION_PSK_INDEX, TAG_LEN,
};
use acrylius::wire::{Envelope, FrameKind, Hello, Wire, WIRE_VERSION};
use sha2::{Digest, Sha256};

fn hash(parts: &[&[u8]]) -> [u8; 32] {
    let mut h = Sha256::new();
    for p in parts {
        h.update(p);
    }
    h.finalize().into()
}

fn psk_of(code: &str) -> [u8; 32] {
    hash(&[b"pairing code", code.as_bytes()])
}

fn sas_of(hash: &[u8]) -> String {
    format!("{:06}", u32::from_be_bytes([hash[0], hash[1], hash[2], hash[3]]) % 1_000_000)
}

/// A wire format that knows what keys are called, and nothing else.
struct Line;

impl Wire for Line {
    fn device_id(&self, key: &PublicKey) -> DeviceId {
        DeviceId::new(format!("{:?}", &key[..8]))
    }

    fn fingerprint(&self, key: &PublicKey) -> Fingerprint {
        Fingerprint::new(format!("{key:?}"))
    }

    fn parse_device_id(&self, _text: &str) -> Result<DeviceId, String> {
        Err(String::new())
    }

    fn parse_fingerprint(&self, _text: &str) -> Option<Fingerprint> {
        None
    }

    fn split(&self, _msg: &[u8]) -> Option<(FrameKind, Vec<u8>)> {
        None
    }

    fn join(&self, _kind: FrameKind, body: &[u8]) -> Vec<u8> {
        body.to_vec()
    }

    fn encode_hello(&self, _hello: &Hello) -> Vec<u8> {
        Vec::new()
    }

    fn decode_hello(&self, _payload: &[u8]) -> Option<Hello> {
        None
    }

    fn check_freshness(&self, _hello: &Hello, _wall_ms: u64, _greatest_seen: u64) -> Result<u64, String> {
        Err(String::new())
    }

    fn encode_envelope(&self, _env: &Envelope) -> Option<Vec<u8>> {
        None
    }

    fn decode_envelope(&self, _plaintext: &[u8]) -> Option<Envelope> {
        None
    }

    fn sas(&self, handshake_hash: &[u8]) -> String {
        sas_of(handshake_hash)
    }

    fn session_psk(&self, handshake_hash: &[u8]) -> Vec<u8> {
        handshake_hash.to_vec()
    }

    fn bulk_key(&self, handshake_hash: &[u8], _offerer: &str, _number: u64) -> Vec<u8> {
        handshake_hash.to_vec()
    }
}

fn loopback() -> LinkAttrs {
    LinkAttrs::loopback(TransportId(0))
}

/// Drive a full XXpsk3 pairing to completion, returning both halves.
fn pair(
    a: &Identity,
    b: &Identity,
    psk_a: &[u8; 32],
    psk_b: &[u8; 32],
) -> Result<(Handshake, Handshake), NoiseError> {
    let mut i = Handshake::pair_initiator(a, psk_a)?;
    let mut r = Handshake::pair_responder(b, psk_b)?;
    let m1 = i.write(b"")?;
    r.read(&m1)?;
    let m2 = r.write(b"responder hello")?;
    i.read(&m2)?;
    let m3 = i.write(b"initiator hello")?;
    r.read(&m3)?;
    Ok((i, r))
}

fn session(
    init: &Identity,
    resp: &Identity,
    psk: &[u8; 32],
) -> Result<(Handshake, Handshake), NoiseError> {
    let mut i = Handshake::session_initiator(init, psk, resp.public())?;
    let mut r = Handshake::session_responder(resp, psk)?;
    let m1 = i.write(b"hello")?;
    r.read(&m1)?;
    let m2 = r.write(b"hello back")?;
    i.read(&m2)?;
    Ok((i, r))
}

#[test]
fn identity_derives_a_stable_public_half() {
    let id = Identity::generate().unwrap();
    let reloaded = Identity::from_private(*id.private());
    assert_eq!(id.public(), reloaded.public());
    assert_eq!(id.fingerprint(&Line), reloaded.fingerprint(&Line));
}

#[test]
fn pairing_completes_and_both_sides_agree_on_the_hash() {
    let (a, b) = (Identity::generate().unwrap(), Identity::generate().unwrap());
    let psk = psk_of("ABCD1234");
    let (i, r) = pair(&a, &b, &psk, &psk).unwrap();

    assert!(i.is_complete() && r.is_complete());
    assert_eq!(i.handshake_hash().unwrap(), r.handshake_hash().unwrap());
    // Each side learned the other's real static key.
    assert_eq!(i.peer_static().unwrap(), *b.public());
    assert_eq!(r.peer_static().unwrap(), *a.public());
}

#[test]
fn both_ends_display_the_same_sas() {
    let (a, b) = (Identity::generate().unwrap(), Identity::generate().unwrap());
    let psk = psk_of("ABCD1234");
    let (i, r) = pair(&a, &b, &psk, &psk).unwrap();
    // The property the whole pairing screen rests on.
    assert_eq!(
        sas_of(&i.handshake_hash().unwrap()),
        sas_of(&r.handshake_hash().unwrap())
    );
}

#[test]
fn a_wrong_pairing_code_fails_at_the_very_first_message() {
    let (a, b) = (Identity::generate().unwrap(), Identity::generate().unwrap());
    let right = psk_of("ABCD1234");
    let wrong = psk_of("ABCD1235");
    // Not "a check returns false": the handshake cannot start.
    assert!(pair(&a, &b, &right, &wrong).is_err());

    // Specifically: the responder cannot even read message 1, so it never
    // replies and the initiator never reaches a state where it would show a
    // code. With psk3 this would have failed three messages later, after the
    // initiator had already completed and displayed a SAS.
    let mut i = Handshake::pair_initiator(&a, &right).unwrap();
    let mut r = Handshake::pair_responder(&b, &wrong).unwrap();
    let m1 = i.write(b"").unwrap();
    assert!(
        r.read(&m1).is_err(),
        "message 1 must already depend on the code"
    );
    assert!(!i.is_complete());
}

#[test]
fn a_pairing_peer_is_unknown_until_the_pattern_transmits_it() {
    // This is why a pairing decision cannot be made early: for most of XX
    // there is simply nobody identified to decide about.
    let (a, b) = (Identity::generate().unwrap(), Identity::generate().unwrap());
    let psk = psk_of("ABCD1234");
    let mut i = Handshake::pair_initiator(&a, &psk).unwrap();
    let mut r = Handshake::pair_responder(&b, &psk).unwrap();

    let m1 = i.write(b"").unwrap();
    r.read(&m1).unwrap();
    assert_eq!(
        r.peer_static(),
        None,
        "responder must not know the initiator yet"
    );
    assert_eq!(
        i.peer_static(),
        None,
        "initiator must not know the responder yet"
    );

    let m2 = r.write(b"").unwrap();
    i.read(&m2).unwrap();
    assert_eq!(i.peer_static().unwrap(), *b.public());
    assert_eq!(r.peer_static(), None, "still nothing for the responder");

    let m3 = i.write(b"").unwrap();
    r.read(&m3).unwrap();
    assert_eq!(r.peer_static().unwrap(), *a.public());
}

#[test]
fn the_handshake_hash_is_refused_before_completion() {
    let a = Identity::generate().unwrap();
    let psk = [0u8; 32];
    let hs = Handshake::pair_initiator(&a, &psk).unwrap();
    assert!(matches!(hs.handshake_hash(), Err(NoiseError::NotComplete)));
}

#[test]
fn session_completes_in_one_round_trip() {
    let (a, b) = (Identity::generate().unwrap(), Identity::generate().unwrap());
    let psk = [7u8; 32];
    let (i, r) = session(&a, &b, &psk).unwrap();
    assert!(i.is_complete() && r.is_complete());
    assert_eq!(i.handshake_hash().unwrap(), r.handshake_hash().unwrap());
    assert_eq!(i.peer_static().unwrap(), *b.public());
    assert_eq!(r.peer_static().unwrap(), *a.public());
}

#[test]
fn a_session_needs_the_right_peer_static_key() {
    // Dialling the right address but the wrong machine must not connect.
    let (a, b, impostor) = (
        Identity::generate().unwrap(),
        Identity::generate().unwrap(),
        Identity::generate().unwrap(),
    );
    let psk = [7u8; 32];
    let mut i = Handshake::session_initiator(&a, &psk, impostor.public()).unwrap();
    let mut r = Handshake::session_responder(&b, &psk).unwrap();
    let m1 = i.write(b"hello").unwrap();
    assert!(
        r.read(&m1).is_err(),
        "b must not accept a handshake aimed at another key"
    );
}

#[test]
fn a_session_needs_the_right_psk() {
    let (a, b) = (Identity::generate().unwrap(), Identity::generate().unwrap());
    let mut i = Handshake::session_initiator(&a, &[1u8; 32], b.public()).unwrap();
    let mut r = Handshake::session_responder(&b, &[2u8; 32]).unwrap();
    let m1 = i.write(b"hello").unwrap();
    // IKpsk2 mixes the PSK at message 2, so msg1 reads fine and msg2 is
    // where an impostor is caught.
    r.read(&m1).unwrap();
    let m2 = r.write(b"hello back").unwrap();
    assert!(
        i.read(&m2).is_err(),
        "a wrong session PSK must not complete"
    );
}

#[test]
fn the_prologue_separates_the_two_modes() {
    let p = Mode::Pair.prologue();
    let s = Mode::Session.prologue();
    assert_ne!(p, s);
    assert!(p.starts_with(b"ACR"));
    assert_eq!(p[3], WIRE_VERSION, "version is authenticated");
    assert_ne!(p[4], s[4], "the mode byte is what a downgrade would flip");
}

#[test]
fn a_pairing_handshake_cannot_be_answered_as_a_session() {
    // The downgrade a MITM would attempt: push a paired device back into
    // pairing. Different patterns AND a different prologue both refuse it.
    let (a, b) = (Identity::generate().unwrap(), Identity::generate().unwrap());
    let psk = [3u8; 32];
    let mut i = Handshake::pair_initiator(&a, &psk).unwrap();
    let mut r = Handshake::session_responder(&b, &psk).unwrap();
    let m1 = i.write(b"").unwrap();
    assert!(r.read(&m1).is_err());
}

#[test]
fn a_session_carries_messages_both_ways() {
    let (a, b) = (Identity::generate().unwrap(), Identity::generate().unwrap());
    let psk = [7u8; 32];
    let (i, r) = session(&a, &b, &psk).unwrap();
    let mut si = i.into_session(&loopback()).unwrap();
    let mut sr = r.into_session(&loopback()).unwrap();

    let ct = si.encrypt(b"lock the session").unwrap();
    assert_eq!(sr.decrypt(&ct).unwrap(), b"lock the session");

    let ct = sr.encrypt(b"locked").unwrap();
    assert_eq!(si.decrypt(&ct).unwrap(), b"locked");
}

#[test]
fn a_tampered_ciphertext_is_refused() {
    let (a, b) = (Identity::generate().unwrap(), Identity::generate().unwrap());
    let (i, r) = session(&a, &b, &[7u8; 32]).unwrap();
    let mut si = i.into_session(&loopback()).unwrap();
    let mut sr = r.into_session(&loopback()).unwrap();

    let mut ct = si.encrypt(b"unlock").unwrap();
    let last = ct.len() - 1;
    ct[last] ^= 0x01;
    assert!(sr.decrypt(&ct).is_err());
}

#[test]
fn a_replayed_session_message_is_refused() {
    // This is the property that deletes the old project's SQLite nonce
    // table: the cipher's own counter refuses a replay, for free.
    let (a, b) = (Identity::generate().unwrap(), Identity::generate().unwrap());
    let (i, r) = session(&a, &b, &[7u8; 32]).unwrap();
    let mut si = i.into_session(&loopback()).unwrap();
    let mut sr = r.into_session(&loopback()).unwrap();

    let ct = si.encrypt(b"unlock").unwrap();
    assert_eq!(sr.decrypt(&ct).unwrap(), b"unlock");
    assert!(
        sr.decrypt(&ct).is_err(),
        "the same ciphertext must not decrypt twice"
    );
}

#[test]
fn messages_are_not_interchangeable_between_sessions() {
    // Two independent pairs of peers. A message from one must be worthless
    // against the other, which is the cross-server replay the old protocol
    // needed a SERVER_FP term in every signature to prevent.
    let (a, b) = (Identity::generate().unwrap(), Identity::generate().unwrap());
    let (c, d) = (Identity::generate().unwrap(), Identity::generate().unwrap());
    let (i1, _r1) = session(&a, &b, &[7u8; 32]).unwrap();
    let (_i2, r2) = session(&c, &d, &[7u8; 32]).unwrap();
    let mut s1 = i1.into_session(&loopback()).unwrap();
    let mut s2 = r2.into_session(&loopback()).unwrap();

    let ct = s1.encrypt(b"unlock").unwrap();
    assert!(s2.decrypt(&ct).is_err());
}

#[test]
fn an_incomplete_handshake_cannot_become_a_session() {
    let a = Identity::generate().unwrap();
    let hs = Handshake::pair_initiator(&a, &[0u8; 32]).unwrap();
    assert!(matches!(
        hs.into_session(&loopback()),
        Err(NoiseError::NotComplete)
    ));
}

#[test]
fn a_lossy_link_is_refused_a_stateful_session() {
    let (a, b) = (Identity::generate().unwrap(), Identity::generate().unwrap());
    let (i, _r) = session(&a, &b, &[7u8; 32]).unwrap();
    let mut attrs = loopback();
    attrs.ordered = false;
    assert!(matches!(
        i.into_session(&attrs),
        Err(NoiseError::UnsupportedLink)
    ));
}

#[test]
fn oversized_input_is_rejected_before_snow_sees_it() {
    let (a, b) = (Identity::generate().unwrap(), Identity::generate().unwrap());
    let (i, _r) = session(&a, &b, &[7u8; 32]).unwrap();
    let mut s = i.into_session(&loopback()).unwrap();
    let huge = vec![0u8; MAX_NOISE_MESSAGE + 1];
    assert!(matches!(s.decrypt(&huge), Err(NoiseError::TooLarge { .. })));
}

#[test]
fn identify_learns_the_caller_and_the_real_handshake_still_completes() {
    let (a, b) = (Identity::generate().unwrap(), Identity::generate().unwrap());
    let psk = [9u8; 32];

    let mut i = Handshake::session_initiator(&a, &psk, b.public()).unwrap();
    let m1 = i.write(b"hello").unwrap();

    // The responder has no idea who this is yet.
    let who = Handshake::session_identify(&b, &m1).unwrap();
    assert_eq!(who, *a.public());

    // Having chosen a PSK from that, replay the very same message 1.
    let mut r = Handshake::session_responder(&b, &psk).unwrap();
    assert_eq!(r.read(&m1).unwrap(), b"hello");
    let m2 = r.write(b"hi").unwrap();
    i.read(&m2).unwrap();
    assert!(i.is_complete() && r.is_complete());
    assert_eq!(i.handshake_hash().unwrap(), r.handshake_hash().unwrap());
}

#[test]
fn identifying_does_not_let_a_wrong_psk_slip_through() {
    // The identity learned by probing chooses a PSK; it must not also
    // *authorise* anything. Choosing the wrong one still has to fail.
    let (a, b) = (Identity::generate().unwrap(), Identity::generate().unwrap());
    let mut i = Handshake::session_initiator(&a, &[9u8; 32], b.public()).unwrap();
    let m1 = i.write(b"hello").unwrap();

    assert_eq!(Handshake::session_identify(&b, &m1).unwrap(), *a.public());

    let mut r = Handshake::session_responder(&b, &[8u8; 32]).unwrap();
    r.read(&m1).unwrap();
    let m2 = r.write(b"hi").unwrap();
    assert!(
        i.read(&m2).is_err(),
        "a mischosen PSK must still fail at message 2"
    );
}

fn sessions() -> (Session, Session) {
    let (a, b) = (Identity::generate().unwrap(), Identity::generate().unwrap());
    let (i, r) = session(&a, &b, &[7u8; 32]).unwrap();
    (i.into_session(&loopback()).unwrap(), r.into_session(&loopback()).unwrap())
}

#[test]
fn the_public_half_is_the_one_the_curve_gives() {
    // RFC 7748, section 6.1: the first party's key pair.
    let private = [
        0x77, 0x07, 0x6d, 0x0a, 0x73, 0x18, 0xa5, 0x7d, 0x3c, 0x16, 0xc1, 0x72, 0x51, 0xb2, 0x66,
        0x45, 0xdf, 0x4c, 0x2f, 0x87, 0xeb, 0xc0, 0x99, 0x2a, 0xb1, 0x77, 0xfb, 0xa5, 0x1d, 0xb9,
        0x2c, 0x2a,
    ];
    let public = [
        0x85, 0x20, 0xf0, 0x09, 0x89, 0x30, 0xa7, 0x54, 0x74, 0x8b, 0x7d, 0xdc, 0xb4, 0x3e, 0xf7,
        0x5a, 0x0d, 0xbf, 0x3a, 0x0d, 0x26, 0x38, 0x1a, 0xf4, 0xeb, 0xa4, 0xa9, 0x8e, 0xaa, 0x9b,
        0x4e, 0x6a,
    ];
    assert_eq!(Identity::from_private(private).public(), &public);
}

#[test]
fn the_patterns_and_their_psk_positions_belong_together() {
    assert_eq!(Mode::Pair.params(), "Noise_XXpsk0_25519_ChaChaPoly_SHA256");
    assert_eq!(Mode::Session.params(), "Noise_IKpsk2_25519_ChaChaPoly_SHA256");
    assert_eq!((Mode::Pair.psk_index(), Mode::Session.psk_index()), (PAIR_PSK_INDEX, SESSION_PSK_INDEX));
    assert_eq!((PAIR_PSK_INDEX, SESSION_PSK_INDEX), (0, 2));
}

#[test]
fn a_complete_handshake_takes_no_further_message() {
    let (a, b) = (Identity::generate().unwrap(), Identity::generate().unwrap());
    let (mut i, mut r) = session(&a, &b, &[7u8; 32]).unwrap();
    assert!(matches!(i.write(b"more"), Err(NoiseError::AlreadyComplete)));
    assert!(matches!(r.read(b"more"), Err(NoiseError::AlreadyComplete)));
    assert_eq!((i.mode(), i.is_my_turn()), (Mode::Session, false));
}

#[test]
fn turns_alternate() {
    let a = Identity::generate().unwrap();
    let mut i = Handshake::pair_initiator(&a, &[0u8; 32]).unwrap();
    assert!(i.is_my_turn());
    i.write(b"").unwrap();
    assert!(!i.is_my_turn());
    assert!(matches!(i.write(b""), Err(NoiseError::Snow(_))), "not our turn");
}

#[test]
fn a_handshake_message_longer_than_noise_allows_is_refused() {
    let a = Identity::generate().unwrap();
    let mut r = Handshake::pair_responder(&a, &[0u8; 32]).unwrap();
    let huge = vec![0u8; MAX_NOISE_MESSAGE + 1];
    assert!(matches!(r.read(&huge), Err(NoiseError::TooLarge { got: 65536 })));
    assert!(Handshake::session_identify(&a, &huge).is_err());
}

#[test]
fn sealing_adds_a_tag_and_refuses_what_would_not_fit() {
    let (mut a, _) = sessions();
    assert_eq!(a.encrypt(b"abc").unwrap().len(), 3 + TAG_LEN);
    let most = vec![0u8; MAX_NOISE_MESSAGE - TAG_LEN];
    assert_eq!(a.encrypt(&most).unwrap().len(), MAX_NOISE_MESSAGE);
    let more = vec![0u8; MAX_NOISE_MESSAGE - TAG_LEN + 1];
    assert!(matches!(a.encrypt(&more), Err(NoiseError::Snow(_))));
}

#[test]
fn messages_open_only_in_the_order_they_were_sealed() {
    let (mut a, mut b) = sessions();
    let first = a.encrypt(b"first").unwrap();
    let second = a.encrypt(b"second").unwrap();
    assert!(b.decrypt(&second).is_err());
    assert_eq!(b.decrypt(&first).unwrap(), b"first");
    assert_eq!(b.decrypt(&second).unwrap(), b"second");
}

#[test]
fn a_new_key_is_one_the_far_end_has_not_moved_to() {
    let (mut a, mut b) = sessions();
    assert!(!a.should_rekey());
    assert_eq!(REKEY_AFTER_MESSAGES, 1 << 20);
    a.rekey_outgoing();
    let ct = a.encrypt(b"under the new key").unwrap();
    assert!(b.decrypt(&ct).is_err());
}

#[test]
fn a_refusal_says_what_it_is() {
    assert_eq!(
        NoiseError::TooLarge { got: 70000 }.message(),
        "message of 70000 bytes exceeds the Noise limit of 65535"
    );
    assert_eq!(NoiseError::AlreadyComplete.message(), "the handshake is already complete");
    assert_eq!(NoiseError::NotComplete.message(), "the handshake is not complete yet");
    assert_eq!(
        NoiseError::UnsupportedLink.message(),
        "this link is lossy or unordered, which needs a stateless cipher"
    );
    let (mut a, _) = sessions();
    let e = a.decrypt(b"far too short").unwrap_err();
    assert!(e.message().starts_with("noise: "));
}

#[test]
fn a_session_is_refused_for_the_first_reason_there_is() {
    let mut attrs = loopback();
    assert!(session_refused(true, &attrs).is_none());
    attrs.reliable = false;
    assert!(matches!(session_refused(true, &attrs), Some(NoiseError::UnsupportedLink)));
    assert!(matches!(session_refused(false, &attrs), Some(NoiseError::NotComplete)));
}

#[test]
fn an_opener_nobody_sent_names_nobody() {
    let a = Identity::generate().unwrap();
    assert!(matches!(Handshake::session_identify(&a, &[]), Err(NoiseError::Snow(_))));
    assert!(matches!(Handshake::session_identify(&a, &[7u8; 200]), Err(NoiseError::Snow(_))));
    let huge = vec![0u8; MAX_NOISE_MESSAGE + 1];
    assert!(matches!(
        Handshake::session_identify(&a, &huge),
        Err(NoiseError::TooLarge { got }) if got == MAX_NOISE_MESSAGE + 1
    ));
}

#[test]
fn every_handshake_can_be_built() {
    let a = Identity::from_private([9; 32]);
    let psk = [3; 32];
    assert!(Handshake::pair_initiator(&a, &psk).unwrap().is_my_turn());
    assert!(!Handshake::pair_responder(&a, &psk).unwrap().is_my_turn());
    assert!(Handshake::session_initiator(&a, &psk, &[0; 32]).unwrap().is_my_turn());
    assert!(!Handshake::session_responder(&a, &psk).unwrap().is_my_turn());
}

#[test]
fn both_ends_learn_who_the_other_is() {
    let (a, b) = (Identity::generate().unwrap(), Identity::generate().unwrap());
    let psk = psk_of("one code");
    let mut i = Handshake::pair_initiator(&a, &psk).unwrap();
    let mut r = Handshake::pair_responder(&b, &psk).unwrap();
    let m1 = i.write(b"").unwrap();
    assert_eq!(r.read(&m1).unwrap(), b"");
    let m2 = r.write(b"from b").unwrap();
    assert_eq!(i.read(&m2).unwrap(), b"from b");
    let m3 = i.write(b"from a").unwrap();
    assert_eq!(r.read(&m3).unwrap(), b"from a");
    assert_eq!(i.peer_static().unwrap(), *b.public());
    assert_eq!(r.peer_static().unwrap(), *a.public());
    assert_eq!(i.handshake_hash().unwrap(), r.handshake_hash().unwrap());
}

/// A pairing that stands before its last message, the initiator first.
fn before_the_last(a: &Identity, b: &Identity) -> (Handshake, Handshake) {
    let psk = psk_of("one code");
    let mut i = Handshake::pair_initiator(a, &psk).unwrap();
    let mut r = Handshake::pair_responder(b, &psk).unwrap();
    let m1 = i.write(b"").unwrap();
    r.read(&m1).unwrap();
    let m2 = r.write(b"hello").unwrap();
    i.read(&m2).unwrap();
    (i, r)
}

#[test]
fn a_handshake_message_is_its_payload_and_the_keys_around_it() {
    let (a, b) = (Identity::from_private([1; 32]), Identity::from_private([2; 32]));
    let psk = psk_of("one code");
    let mut i = Handshake::pair_initiator(&a, &psk).unwrap();
    let mut r = Handshake::pair_responder(&b, &psk).unwrap();
    let m1 = i.write(b"abc").unwrap();
    assert_eq!(m1.len(), 3 + 48);
    r.read(&m1).unwrap();
    let m2 = r.write(b"abcd").unwrap();
    assert_eq!(m2.len(), 4 + 96);
    i.read(&m2).unwrap();
    assert_eq!(i.write(b"abcde").unwrap().len(), 5 + 64);

    let mut i = Handshake::session_initiator(&a, &psk, b.public()).unwrap();
    let mut r = Handshake::session_responder(&b, &psk).unwrap();
    let m1 = i.write(b"abc").unwrap();
    assert_eq!(m1.len(), 3 + 96);
    r.read(&m1).unwrap();
    assert_eq!(r.write(b"abcd").unwrap().len(), 4 + 48);
}

#[test]
fn an_end_writes_only_in_its_turn() {
    let (a, b) = (Identity::from_private([1; 32]), Identity::from_private([2; 32]));
    let psk = psk_of("one code");
    let mut r = Handshake::pair_responder(&b, &psk).unwrap();
    assert!(matches!(r.write(b""), Err(NoiseError::Snow(_))));
    let mut i = Handshake::pair_initiator(&a, &psk).unwrap();
    i.write(b"").unwrap();
    assert!(matches!(i.write(b""), Err(NoiseError::Snow(_))));
}

#[test]
fn the_last_message_of_a_pairing_only_has_to_fit() {
    let (a, b) = (Identity::from_private([1; 32]), Identity::from_private([2; 32]));
    let (mut i, mut r) = before_the_last(&a, &b);
    let most = vec![7; MAX_NOISE_MESSAGE - 64];
    let m3 = i.write(&most).unwrap();
    assert_eq!(m3.len(), MAX_NOISE_MESSAGE);
    assert_eq!(r.read(&m3).unwrap(), most);

    let (mut i, _) = before_the_last(&a, &b);
    let more = vec![7; MAX_NOISE_MESSAGE - 63];
    assert!(matches!(i.write(&more), Err(NoiseError::Snow(_))));
}
