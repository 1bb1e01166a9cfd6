//! The Noise layer: two patterns, one prologue, no IO.
//!
//! `snow` is itself sans-IO: writing and reading a message are pure buffer
//! transforms, so this module composes with the core's state machine without a
//! shim.
//!
//! ## Two patterns, and why each
//!
//! Pairing is `XXpsk0`: neither side needs to know the other's static key in
//! advance, and the code is mixed in before the first message, so every
//! encrypted payload in either direction depends on it.
//!
//! Sessions are `IKpsk2`. The initiator already knows the responder's static
//! key from pairing, so the session is up in one round trip. The PSK is derived
//! at pairing time and never transmitted.
//!
//! ## The prologue
//!
//! Both patterns are run with a prologue naming the wire version and the mode.
//! Noise mixes the prologue into the handshake hash, so it is authenticated
//! without being secret.
use crate::ids::{DeviceId, Fingerprint};
use crate::link::LinkAttrs;
use crate::text::{join2, join3, number};
use crate::wire::{called, recognised, Wire, WIRE_VERSION};
use vstd::prelude::*;

verus! {

/// Noise's own hard limit on a single message.
pub const MAX_NOISE_MESSAGE: usize = 65535;

/// The bytes that sealing adds to a message.
pub const TAG_LEN: usize = 16;

/// PSK positions, from the pattern names. Getting these wrong is a silent
/// interop failure rather than a compile error, so they are named once here.
pub const PAIR_PSK_INDEX: u8 = 0;

pub const SESSION_PSK_INDEX: u8 = 2;

#[derive(Clone, Copy, PartialEq, Eq, Debug, Structural)]
pub enum Mode {
    /// First contact. Neither side knows the other's static key yet.
    Pair,
    /// A known peer. The initiator knows the responder's static key.
    Session,
}

/// The pattern name of a mode.
pub open spec fn pattern(mode: Mode) -> Seq<char> {
    match mode {
        Mode::Pair => "Noise_XXpsk0_25519_ChaChaPoly_SHA256"@,
        Mode::Session => "Noise_IKpsk2_25519_ChaChaPoly_SHA256"@,
    }
}

/// How many messages a mode's handshake takes.
pub open spec fn messages(mode: Mode) -> u8 {
    match mode {
        Mode::Pair => 3,
        Mode::Session => 2,
    }
}

/// The prologue of a mode: the magic, the wire version, the mode, and the
/// pattern name behind its length.
pub open spec fn prologue_of(mode: Mode) -> Seq<u8> {
    seq![0x41u8, 0x43u8, 0x52u8, WIRE_VERSION, if mode == Mode::Pair { 1u8 } else { 2u8 }, 36u8]
        + vstd::utf8::encode_utf8(pattern(mode))
}

impl Mode {
    pub fn params(self) -> (t: &'static str)
        ensures
            t@ == pattern(self),
    {
        match self {
            Mode::Pair => "Noise_XXpsk0_25519_ChaChaPoly_SHA256",
            Mode::Session => "Noise_IKpsk2_25519_ChaChaPoly_SHA256",
        }
    }

    pub fn psk_index(self) -> (i: u8)
        ensures
            i == if self == Mode::Pair {
                PAIR_PSK_INDEX
            } else {
                SESSION_PSK_INDEX
            },
    {
        match self {
            Mode::Pair => PAIR_PSK_INDEX,
            Mode::Session => SESSION_PSK_INDEX,
        }
    }

    /// The prologue, mixed into the handshake hash by both sides.
    ///
    /// Not secret, since an observer sees it, but authenticated, so it cannot
    /// be altered in flight without both sides noticing.
    pub fn prologue(self) -> (p: Vec<u8>)
        ensures
            p@ == prologue_of(self),
    {
        let mut p: Vec<u8> = Vec::new();
        p.push(0x41);
        p.push(0x43);
        p.push(0x52);
        p.push(WIRE_VERSION);
        p.push(
            match self {
                Mode::Pair => 1,
                Mode::Session => 2,
            },
        );
        let params = self.params();
        proof {
            reveal_strlit("Noise_XXpsk0_25519_ChaChaPoly_SHA256");
            reveal_strlit("Noise_IKpsk2_25519_ChaChaPoly_SHA256");
            vstd::utf8::is_ascii_chars_encode_utf8(params@);
        }
        let raw = params.as_bytes();
        p.push(raw.len() as u8);
        p.extend_from_slice(raw);
        assert(p@ =~= prologue_of(self));
        p
    }
}

/// The two modes cannot be taken for each other: their prologues differ in the
/// mode byte, whatever follows.
pub proof fn prologues_differ()
    ensures
        prologue_of(Mode::Pair) != prologue_of(Mode::Session),
        prologue_of(Mode::Pair)[3] == WIRE_VERSION,
        prologue_of(Mode::Session)[3] == WIRE_VERSION,
        prologue_of(Mode::Pair)[4] != prologue_of(Mode::Session)[4],
{
    let p = prologue_of(Mode::Pair);
    let s = prologue_of(Mode::Session);
    assert(p[4] == 1 && s[4] == 2);
}

// --------------------------------------------------------------- outside calls

/// `snow`'s handshake in progress.
#[verifier::external_type_specification]
#[verifier::external_body]
pub struct ExHandshakeState(snow::HandshakeState);

/// `snow`'s established session.
#[verifier::external_type_specification]
#[verifier::external_body]
pub struct ExTransportState(snow::TransportState);

/// `snow`'s error.
#[verifier::external_type_specification]
#[verifier::external_body]
pub struct ExSnowError(snow::Error);

/// The public half of an X25519 key, as `x25519-dalek` derives it.
pub uninterp spec fn x25519_public(private: Seq<u8>) -> Seq<u8>;

/// `x25519_dalek::PublicKey::from` of a `StaticSecret` holding the key, under
/// the name [`x25519_public`].
#[verifier::external_body]
fn public_half(private: &[u8; 32]) -> (public: [u8; 32])
    ensures
        public@ == x25519_public(private@),
{
    let secret = x25519_dalek::StaticSecret::from(*private);
    x25519_dalek::PublicKey::from(&secret).to_bytes()
}

/// `snow::Builder::generate_keypair`: a fresh private key and its public half,
/// 32 bytes each. Which key comes is chance; the public half is the base point
/// multiplied by the clamped private key, the same product that
/// [`x25519_public`] names.
#[verifier::external_body]
fn generate_keys(params: &str) -> (r: Result<(Vec<u8>, Vec<u8>), snow::Error>)
    ensures
        r matches Ok((private, public)) ==> private@.len() == 32 && public@ == x25519_public(
            private@,
        ) && public@.len() == 32,
{
    let keys = snow::Builder::new(params.parse()?).generate_keypair()?;
    Ok((keys.private, keys.public))
}

/// Whether a text names one of the two patterns used here.
pub open spec fn is_pattern(params: Seq<char>) -> bool {
    params == pattern(Mode::Pair) || params == pattern(Mode::Session)
}

/// The number of places there are for a PSK.
pub const PSK_PLACES: u8 = 10;

/// What a handshake is built from.
pub struct Origin {
    pub params: Seq<char>,
    pub prologue: Seq<u8>,
    pub private: Seq<u8>,
    pub index: u8,
    pub psk: Seq<u8>,
    pub peer: Option<Seq<u8>>,
    pub initiator: bool,
}

/// What a state of `snow`'s was built from.
pub uninterp spec fn origin(state: snow::HandshakeState) -> Origin;

/// The far end's static key, where a state has one of 32 bytes.
pub uninterp spec fn remote_key(state: snow::HandshakeState) -> Option<Seq<u8>>;

/// The hash of everything a state has seen: `get_handshake_hash`.
pub uninterp spec fn transcript(state: snow::HandshakeState) -> Seq<u8>;

/// What a state makes of a message: the payload, and the far end's key and the
/// hash afterwards. `None` where the message does not read.
pub uninterp spec fn reading(state: snow::HandshakeState, msg: Seq<u8>) -> Option<
    (Seq<u8>, Option<Seq<u8>>, Seq<u8>),
>;

/// Whether a state may write a payload as this message, and be in that other
/// state then. Which of the messages it may write it does write rests on a fresh
/// random key.
pub uninterp spec fn writes(
    state: snow::HandshakeState,
    payload: Seq<u8>,
    msg: Seq<u8>,
    after: snow::HandshakeState,
) -> bool;

/// Whether a state may fail to write a payload: it is not its turn, the message
/// would not fit, or the fresh random key that it takes may not be had.
pub uninterp spec fn stalls(state: snow::HandshakeState, payload: Seq<u8>) -> bool;

/// The messages that have passed through a state, written and read, in order, as
/// long as none of them failed.
pub uninterp spec fn trail(state: snow::HandshakeState) -> Seq<Seq<u8>>;

/// The bytes that a message of a mode's handshake adds to its payload, that many
/// messages having passed: a fresh key of 32, a static key of 32 with its tag, and
/// the payload's own tag.
pub open spec fn overhead(mode: Mode, done: int) -> int {
    match mode {
        Mode::Pair => if done == 0 {
            48
        } else if done == 1 {
            96
        } else {
            64
        },
        Mode::Session => if done == 0 {
            96
        } else {
            48
        },
    }
}

/// Whether a state of a mode's pattern knows the far end's static key, that many
/// messages having passed. One that was told whom it calls knows it from the start;
/// else it has to be transmitted: in a pairing in the second message to the initiator
/// and in the third to the responder, in a session in the first.
pub open spec fn has_remote(mode: Mode, origin: Origin, done: int) -> bool {
    origin.peer is Some || match mode {
        Mode::Pair => done >= if origin.initiator {
            2int
        } else {
            3int
        },
        Mode::Session => !origin.initiator && done >= 1,
    }
}

/// Whether two ends were built to talk to each other: with the same pattern,
/// prologue and PSK, one of them to begin, and the one that was told whom it calls
/// to call the other.
pub open spec fn facing(a: Origin, b: Origin) -> bool {
    &&& a.params == b.params
    &&& a.prologue == b.prologue
    &&& a.index == b.index
    &&& a.psk == b.psk
    &&& a.initiator != b.initiator
    &&& a.peer matches Some(k) ==> k == x25519_public(b.private)
    &&& b.peer matches Some(k) ==> k == x25519_public(a.private)
}

/// Whether two states are the two ends of one handshake, with the same messages
/// behind them.
pub open spec fn in_step(a: snow::HandshakeState, b: snow::HandshakeState) -> bool {
    facing(origin(a), origin(b)) && trail(a) == trail(b)
}

/// Whether two states differ in nothing but a PSK that is mixed in after the first
/// message, and stand before that message.
pub open spec fn same_but_psk(a: snow::HandshakeState, b: snow::HandshakeState) -> bool {
    &&& origin(a).index >= 2
    &&& origin(b) == (Origin { psk: origin(b).psk, ..origin(a) })
    &&& trail(a) == Seq::<Seq<u8>>::empty()
    &&& trail(b) == Seq::<Seq<u8>>::empty()
}

/// The keys for sending and for receiving that a completed state splits into;
/// `None` for a direction its pattern does not have.
pub uninterp spec fn split_keys(state: snow::HandshakeState) -> (Option<Seq<u8>>, Option<Seq<u8>>);

/// The key and the counter an established session seals with.
pub uninterp spec fn sending(state: snow::TransportState) -> Option<(Seq<u8>, u64)>;

/// The key and the counter an established session opens with.
pub uninterp spec fn receiving(state: snow::TransportState) -> Option<(Seq<u8>, u64)>;

/// A message sealed under a key and a counter: ciphertext and tag.
pub uninterp spec fn sealed(key: Seq<u8>, counter: u64, plaintext: Seq<u8>) -> Seq<u8>;

/// The key that follows a key.
pub uninterp spec fn rekeyed(key: Seq<u8>) -> Seq<u8>;

/// `snow::Builder` with a prologue, a private key, a PSK and the far end's
/// public key, then `build_initiator`: a state built from just those, which nothing
/// has passed through. It builds for both patterns, given a place for the PSK.
#[verifier::external_body]
fn build_initiator_to(
    params: &str,
    prologue: &[u8],
    private: &[u8; 32],
    index: u8,
    psk: &[u8; 32],
    peer: &[u8; 32],
) -> (r: Result<snow::HandshakeState, snow::Error>)
    ensures
        r matches Ok(h) ==> origin(h) == (Origin {
            params: params@,
            prologue: prologue@,
            private: private@,
            index,
            psk: psk@,
            peer: Some(peer@),
            initiator: true,
        }),
        r matches Ok(h) ==> trail(h) == Seq::<Seq<u8>>::empty(),
        is_pattern(params@) && index < PSK_PLACES ==> r is Ok,
{
    snow::Builder::new(params.parse()?)
        .prologue(prologue)?
        .local_private_key(private)?
        .psk(index, psk)?
        .remote_public_key(peer)?
        .build_initiator()
}

/// `snow::Builder` with a prologue, a private key and a PSK, then
/// `build_initiator`: a state built from just those, which nothing has passed
/// through. It builds where the pattern asks for no key of the far end, given a
/// place for the PSK.
#[verifier::external_body]
fn build_initiator(
    params: &str,
    prologue: &[u8],
    private: &[u8; 32],
    index: u8,
    psk: &[u8; 32],
) -> (r: Result<snow::HandshakeState, snow::Error>)
    ensures
        r matches Ok(h) ==> origin(h) == (Origin {
            params: params@,
            prologue: prologue@,
            private: private@,
            index,
            psk: psk@,
            peer: None,
            initiator: true,
        }),
        r matches Ok(h) ==> trail(h) == Seq::<Seq<u8>>::empty(),
        params@ == pattern(Mode::Pair) && index < PSK_PLACES ==> r is Ok,
{
    snow::Builder::new(params.parse()?)
        .prologue(prologue)?
        .local_private_key(private)?
        .psk(index, psk)?
        .build_initiator()
}

/// `snow::Builder` with a prologue, a private key and a PSK, then
/// `build_responder`: a state built from just those, which nothing has passed
/// through. It builds for both patterns, given a place for the PSK.
#[verifier::external_body]
fn build_responder(
    params: &str,
    prologue: &[u8],
    private: &[u8; 32],
    index: u8,
    psk: &[u8; 32],
) -> (r: Result<snow::HandshakeState, snow::Error>)
    ensures
        r matches Ok(h) ==> origin(h) == (Origin {
            params: params@,
            prologue: prologue@,
            private: private@,
            index,
            psk: psk@,
            peer: None,
            initiator: false,
        }),
        r matches Ok(h) ==> trail(h) == Seq::<Seq<u8>>::empty(),
        is_pattern(params@) && index < PSK_PLACES ==> r is Ok,
{
    snow::Builder::new(params.parse()?)
        .prologue(prologue)?
        .local_private_key(private)?
        .psk(index, psk)?
        .build_responder()
}

/// `snow::HandshakeState::write_message` into a buffer of `room` bytes: one of
/// the messages that [`writes`] names, no longer than Noise allows, which has then
/// passed. Which one rests on a fresh random key. The two ends take turns, the
/// initiator first, and a message is as long as its payload and the keys and tags
/// around it. The third message of a pairing takes no fresh key, so it is written
/// whenever it fits. Of the others it is not stated that they are written: the
/// random key may not be had. Where it fails, it is one that may, under the name
/// [`stalls`].
#[verifier::external_body]
fn write_handshake(state: &mut snow::HandshakeState, payload: &[u8], room: usize) -> (r: Result<
    Vec<u8>,
    snow::Error,
>)
    requires
        room >= MAX_NOISE_MESSAGE,
    ensures
        origin(*final(state)) == origin(*old(state)),
        r matches Ok(m) ==> m@.len() <= MAX_NOISE_MESSAGE && writes(
            *old(state),
            payload@,
            m@,
            *final(state),
        ),
        r matches Ok(m) ==> trail(*final(state)) == trail(*old(state)).push(m@),
        r is Err ==> stalls(*old(state), payload@),
        forall|mode: Mode|
            origin(*old(state)).params == #[trigger] pattern(mode) && trail(*old(state)).len()
                < messages(mode) ==> (r matches Ok(m) ==> origin(*old(state)).initiator == (trail(
                *old(state),
            ).len() % 2 == 0) && m@.len() == payload@.len() + overhead(
                mode,
                trail(*old(state)).len() as int,
            )),
        origin(*old(state)).params == pattern(Mode::Pair) && origin(*old(state)).initiator && trail(
            *old(state),
        ).len() == 2 && payload@.len() + overhead(Mode::Pair, 2) <= MAX_NOISE_MESSAGE ==> r is Ok,
{
    let mut buf = vec![0u8; room];
    let n = state.write_message(payload, &mut buf)?;
    buf.truncate(n);
    Ok(buf)
}

/// `snow::HandshakeState::read_message` into a buffer of `room` bytes, under the
/// name [`reading`]. The payload is no longer than the message, which has then
/// passed. What the far end wrote, in step with this one, is read, and is the
/// payload that was written. A first message reads the same whatever PSK is mixed
/// in later.
#[verifier::external_body]
fn read_handshake(state: &mut snow::HandshakeState, msg: &[u8], room: usize) -> (r: Result<
    Vec<u8>,
    snow::Error,
>)
    requires
        room >= MAX_NOISE_MESSAGE,
    ensures
        origin(*final(state)) == origin(*old(state)),
        r matches Ok(p) ==> p@.len() <= msg@.len() <= MAX_NOISE_MESSAGE && reading(
            *old(state),
            msg@,
        ) == Some((p@, remote_key(*final(state)), transcript(*final(state)))),
        r is Err ==> reading(*old(state), msg@) is None,
        r is Ok ==> trail(*final(state)) == trail(*old(state)).push(msg@),
        forall|w: snow::HandshakeState, p: Seq<u8>, after: snow::HandshakeState| #[trigger]
            writes(w, p, msg@, after) && in_step(w, *old(state)) ==> (r matches Ok(q) && q@ == p),
        forall|o: snow::HandshakeState|
            same_but_psk(*old(state), o) ==> #[trigger] reading(o, msg@) == match r {
                Ok(p) => Some((p@, remote_key(*final(state)), transcript(*final(state)))),
                Err(_) => None,
            },
{
    let mut buf = vec![0u8; room];
    let n = state.read_message(msg, &mut buf)?;
    buf.truncate(n);
    Ok(buf)
}

/// `snow::HandshakeState::get_remote_static`, under the name [`remote_key`]: a
/// key of 32 bytes, once the state has one. It is the public half of what the far
/// end was built with, where that is in step. A state of one of the two patterns has
/// one from the moment [`has_remote`] says.
#[verifier::external_body]
fn remote_static(state: &snow::HandshakeState) -> (r: Option<[u8; 32]>)
    ensures
        match r {
            Some(k) => remote_key(*state) == Some(k@) && forall|o: snow::HandshakeState| #[trigger]
                in_step(*state, o) ==> k@ == x25519_public(origin(o).private),
            None => remote_key(*state) is None,
        },
        forall|mode: Mode|
            origin(*state).params == #[trigger] pattern(mode) && trail(*state).len() <= messages(
                mode,
            ) ==> (r is Some <==> has_remote(mode, origin(*state), trail(*state).len() as int)),
{
    state.get_remote_static()?.try_into().ok()
}

/// `snow::HandshakeState::get_handshake_hash`, under the name [`transcript`]:
/// 32 bytes in the two patterns used here, whose hash is SHA-256. The far end has
/// the same one, where it is in step.
#[verifier::external_body]
fn hash_so_far(state: &snow::HandshakeState) -> (h: Vec<u8>)
    ensures
        h@ == transcript(*state),
        is_pattern(origin(*state).params) ==> h@.len() == 32,
        forall|o: snow::HandshakeState| #[trigger]
            in_step(*state, o) ==> transcript(o) == h@,
{
    state.get_handshake_hash().to_vec()
}

/// `snow::HandshakeState::into_transport_mode`: the keys are those the handshake
/// splits into, under the name [`split_keys`], and both counters start at zero.
/// One end sends with what the other receives with, where they are in step. It does
/// so where every message of the pattern has passed.
#[verifier::external_body]
fn transport_mode(state: snow::HandshakeState) -> (r: Result<snow::TransportState, snow::Error>)
    ensures
        r matches Ok(t) ==> sending(t) == from_zero(split_keys(state).0) && receiving(t)
            == from_zero(split_keys(state).1),
        r matches Ok(t) ==> forall|o: snow::HandshakeState| #[trigger]
            in_step(state, o) ==> sending(t) == from_zero(split_keys(o).1) && receiving(t)
                == from_zero(split_keys(o).0),
        finished(state) ==> r is Ok,
{
    state.into_transport_mode()
}

/// Whether every message of its pattern has passed through a state.
pub open spec fn finished(state: snow::HandshakeState) -> bool {
    exists|mode: Mode|
        origin(state).params == #[trigger] pattern(mode) && trail(state).len() == messages(mode)
}

/// A key whose counter has not moved.
pub open spec fn from_zero(key: Option<Seq<u8>>) -> Option<(Seq<u8>, u64)> {
    match key {
        Some(k) => Some((k, 0)),
        None => None,
    }
}

/// `snow::TransportState::write_message` into a buffer of `room` bytes, under the
/// name [`sealed`]: sealing adds a tag and moves the counter on. It refuses what
/// would be too long, and a counter that is used up.
#[verifier::external_body]
fn seal(state: &mut snow::TransportState, plaintext: &[u8], room: usize) -> (r: Result<
    Vec<u8>,
    snow::Error,
>)
    requires
        room >= MAX_NOISE_MESSAGE,
    ensures
        receiving(*final(state)) == receiving(*old(state)),
        match (r, sending(*old(state))) {
            (Ok(c), Some((k, n))) => {
                &&& n < u64::MAX
                &&& c@ == sealed(k, n, plaintext@)
                &&& c@.len() == plaintext@.len() + TAG_LEN
                &&& c@.len() <= MAX_NOISE_MESSAGE
                &&& sending(*final(state)) == Some((k, (n + 1) as u64))
            },
            (Ok(_), None) => false,
            (Err(_), Some((k, n))) => {
                &&& sending(*final(state)) == sending(*old(state))
                &&& n == u64::MAX || plaintext@.len() + TAG_LEN > MAX_NOISE_MESSAGE
            },
            (Err(_), None) => sending(*final(state)) is None,
        },
{
    let mut buf = vec![0u8; room];
    let n = state.write_message(plaintext, &mut buf)?;
    buf.truncate(n);
    Ok(buf)
}

/// `snow::TransportState::read_message` into a buffer of `room` bytes: opening
/// undoes [`sealed`] under the same key and counter and moves the counter on; it
/// refuses whatever was not sealed so, and a counter that is used up.
#[verifier::external_body]
fn unseal(state: &mut snow::TransportState, ciphertext: &[u8], room: usize) -> (r: Result<
    Vec<u8>,
    snow::Error,
>)
    requires
        room >= MAX_NOISE_MESSAGE,
    ensures
        sending(*final(state)) == sending(*old(state)),
        match (r, receiving(*old(state))) {
            (Ok(p), Some((k, n))) => {
                &&& n < u64::MAX
                &&& ciphertext@ == sealed(k, n, p@)
                &&& forall|q: Seq<u8>| ciphertext@ == #[trigger] sealed(k, n, q) ==> q == p@
                &&& p@.len() + TAG_LEN == ciphertext@.len()
                &&& receiving(*final(state)) == Some((k, (n + 1) as u64))
            },
            (Ok(_), None) => false,
            (Err(_), Some((k, n))) => {
                &&& receiving(*final(state)) == receiving(*old(state))
                &&& n < u64::MAX && ciphertext@.len() <= MAX_NOISE_MESSAGE ==> forall|q: Seq<u8>|
                    ciphertext@ != #[trigger] sealed(k, n, q)
            },
            (Err(_), None) => receiving(*final(state)) is None,
        },
{
    let mut buf = vec![0u8; room];
    let n = state.read_message(ciphertext, &mut buf)?;
    buf.truncate(n);
    Ok(buf)
}

/// `snow::TransportState::rekey_outgoing`: the next key takes the place of the
/// one for sending, under the name [`rekeyed`]; the counter stays.
#[verifier::external_body]
fn rekey_sender(state: &mut snow::TransportState)
    ensures
        receiving(*final(state)) == receiving(*old(state)),
        sending(*final(state)) == match sending(*old(state)) {
            Some((k, n)) => Some((rekeyed(k), n)),
            None => None,
        },
{
    state.rekey_outgoing();
}

/// `snow::Error`'s `Display`. Which words is not stated.
#[verifier::external_body]
fn snow_words(e: &snow::Error) -> String {
    format!("{e}")
}

// ------------------------------------------------------------------- our types

#[derive(Debug)]
pub enum NoiseError {
    Snow(snow::Error),
    TooLarge { got: usize },
    AlreadyComplete,
    NotComplete,
    UnsupportedLink,
}

/// The model of a [`NoiseError`]: which of the refusals it is.
pub enum Refusal {
    Snow,
    TooLarge { got: usize },
    AlreadyComplete,
    NotComplete,
    UnsupportedLink,
}

impl View for NoiseError {
    type V = Refusal;

    open spec fn view(&self) -> Refusal {
        match self {
            NoiseError::Snow(_) => Refusal::Snow,
            NoiseError::TooLarge { got } => Refusal::TooLarge { got: *got },
            NoiseError::AlreadyComplete => Refusal::AlreadyComplete,
            NoiseError::NotComplete => Refusal::NotComplete,
            NoiseError::UnsupportedLink => Refusal::UnsupportedLink,
        }
    }
}

impl NoiseError {
    /// The error in words. For an error of `snow`'s the words are its own, with
    /// `noise: ` before them.
    pub fn message(&self) -> (t: String)
        ensures
            match self@ {
                Refusal::Snow => exists|words: Seq<char>| t@ == #[trigger] ("noise: "@ + words),
                Refusal::TooLarge { got } => t@ == "message of "@ + crate::text::decimal(got as nat)
                    + " bytes exceeds the Noise limit of 65535"@,
                Refusal::AlreadyComplete => t@ == "the handshake is already complete"@,
                Refusal::NotComplete => t@ == "the handshake is not complete yet"@,
                Refusal::UnsupportedLink => t@
                    == "this link is lossy or unordered, which needs a stateless cipher"@,
            },
    {
        match self {
            NoiseError::Snow(e) => {
                let words = snow_words(e);
                join2("noise: ", words.as_str())
            },
            NoiseError::TooLarge { got } => {
                join3(
                    "message of ",
                    number(*got as u64).as_str(),
                    " bytes exceeds the Noise limit of 65535",
                )
            },
            NoiseError::AlreadyComplete => "the handshake is already complete".to_owned(),
            NoiseError::NotComplete => "the handshake is not complete yet".to_owned(),
            NoiseError::UnsupportedLink =>
                "this link is lossy or unordered, which needs a stateless cipher".to_owned(),
        }
    }
}

/// A static X25519 keypair. The device's long-term identity. It has no `Debug`,
/// so the private half cannot be printed by accident.
pub struct Identity {
    private: [u8; 32],
    public: [u8; 32],
}

fn array_of(v: &Vec<u8>) -> (a: [u8; 32])
    requires
        v@.len() == 32,
    ensures
        a@ == v@,
{
    let mut a: [u8; 32] = [0u8;32];
    for i in 0..32
        invariant
            v@.len() == 32,
            forall|k: int| 0 <= k < i ==> a@[k] == v@[k],
    {
        a[i] = v[i];
    }
    assert(a@ =~= v@);
    a
}

impl Identity {
    /// The private half.
    pub closed spec fn secret(&self) -> Seq<u8> {
        self.private@
    }

    /// The public half, which is what the device is.
    pub closed spec fn key(&self) -> Seq<u8> {
        self.public@
    }

    /// The public half is the one that belongs to the private half.
    pub open spec fn wf(&self) -> bool {
        self.key() == x25519_public(self.secret())
    }

    /// Generate a fresh identity. The key is not pattern-specific.
    pub fn generate() -> (r: Result<Identity, NoiseError>)
        ensures
            r matches Ok(id) ==> id.wf(),
            r matches Err(e) ==> e@ is Snow,
    {
        match generate_keys(Mode::Pair.params()) {
            Ok((private, public)) => Ok(
                Identity { private: array_of(&private), public: array_of(&public) },
            ),
            Err(e) => Err(NoiseError::Snow(e)),
        }
    }

    /// Load an identity from its stored private half.
    ///
    /// The public key is derived, never stored alongside and trusted: a file
    /// that had been edited to pair a real private key with someone else's
    /// public key would otherwise produce an identity whose fingerprint lies
    /// about which key it can actually prove possession of.
    pub fn from_private(private: [u8; 32]) -> (id: Identity)
        ensures
            id.wf(),
            id.secret() == private@,
    {
        let public = public_half(&private);
        Identity { private, public }
    }

    pub fn public(&self) -> (k: &[u8; 32])
        ensures
            k@ == self.key(),
    {
        &self.public
    }

    pub fn private(&self) -> (k: &[u8; 32])
        ensures
            k@ == self.secret(),
    {
        &self.private
    }

    /// The fingerprint of this device's key.
    pub fn fingerprint<W: Wire>(&self, wire: &W) -> (fp: Fingerprint)
        ensures
            recognised(*wire, self.key(), fp@),
    {
        crate::wire::recognise_key(wire, &self.public)
    }

    /// The id of this device's key.
    pub fn device_id<W: Wire>(&self, wire: &W) -> (id: DeviceId)
        ensures
            called(*wire, self.key(), id@),
    {
        crate::wire::name_key(wire, &self.public)
    }
}

impl Clone for Identity {
    fn clone(&self) -> (r: Identity)
        ensures
            r.key() == self.key(),
            r.secret() == self.secret(),
    {
        Identity { private: self.private, public: self.public }
    }
}

/// Two identities with the same private half have the same public half.
pub proof fn identity_is_its_private_half(a: Identity, b: Identity)
    requires
        a.wf(),
        b.wf(),
        a.secret() == b.secret(),
    ensures
        a.key() == b.key(),
{
}

/// A handshake in progress.
pub struct Handshake {
    state: snow::HandshakeState,
    mode: Mode,
    /// Messages written and read so far.
    done: u8,
    my_turn: bool,
}

/// The model of a [`Handshake`]: how far it has got.
pub struct Progress {
    pub mode: Mode,
    pub done: u8,
    pub my_turn: bool,
}

impl Progress {
    /// Whether every message has passed.
    pub open spec fn complete(self) -> bool {
        self.done >= messages(self.mode)
    }

    /// One more message has passed.
    pub open spec fn passed(self, my_turn: bool) -> Progress {
        Progress { done: (self.done + 1) as u8, my_turn, ..self }
    }
}

impl View for Handshake {
    type V = Progress;

    closed spec fn view(&self) -> Progress {
        Progress { mode: self.mode, done: self.done, my_turn: self.my_turn }
    }
}

impl Handshake {
    /// What the handshake was built from.
    pub closed spec fn origin(&self) -> Origin {
        origin(self.state)
    }

    /// The far end's static key, once the pattern has transmitted it.
    pub closed spec fn remote(&self) -> Option<Seq<u8>> {
        remote_key(self.state)
    }

    /// The hash of everything that has passed.
    pub closed spec fn hash(&self) -> Seq<u8> {
        transcript(self.state)
    }

    /// What it makes of a message.
    pub closed spec fn reading(&self, msg: Seq<u8>) -> Option<
        (Seq<u8>, Option<Seq<u8>>, Seq<u8>),
    > {
        reading(self.state, msg)
    }

    /// The messages that have passed.
    pub closed spec fn trail(&self) -> Seq<Seq<u8>> {
        trail(self.state)
    }

    /// Whether it is where it says it is: in the pattern of its mode, with as many
    /// messages behind it. A handshake that failed to read or to write may not be.
    pub open spec fn whole(&self) -> bool {
        &&& self.origin().params == pattern(self@.mode)
        &&& self.trail().len() == self@.done
        &&& self@.done <= messages(self@.mode)
    }

    /// Whether it may be this end's turn to write a payload: the ends take turns, the
    /// initiator first, and the message has to fit.
    pub open spec fn may_write(&self, payload: Seq<u8>) -> bool {
        &&& !self@.complete()
        &&& self.whole() ==> {
            &&& self.origin().initiator == (self@.done % 2 == 0)
            &&& payload.len() + overhead(self@.mode, self@.done as int) <= MAX_NOISE_MESSAGE
        }
    }

    /// Whether writing a payload cannot fail: the last message of a pairing takes no
    /// fresh random key, so it only has to fit.
    pub open spec fn must_write(&self, payload: Seq<u8>) -> bool {
        &&& self.whole()
        &&& self@.mode == Mode::Pair
        &&& self.origin().initiator
        &&& self@.done == 2
        &&& payload.len() + overhead(Mode::Pair, 2) <= MAX_NOISE_MESSAGE
    }

    /// Whether it knows the far end's key: it was told, or the pattern has
    /// transmitted it.
    pub open spec fn knows_far_end(&self) -> bool {
        has_remote(self@.mode, self.origin(), self@.done as int)
    }

    /// Whether it may fail to write a payload.
    pub closed spec fn stalls(&self, payload: Seq<u8>) -> bool {
        stalls(self.state, payload)
    }

    /// Whether the two are the two ends of one handshake, with the same messages
    /// behind them.
    pub closed spec fn in_step(&self, other: Handshake) -> bool {
        in_step(self.state, other.state)
    }

    /// Whether the hash is the far end's too, where that is in step.
    pub open spec fn hash_is_shared(&self) -> bool {
        forall|o: Handshake| #[trigger] self.in_step(o) ==> o.hash() == self.hash()
    }

    /// Whether the far end's key is known for what it is: the public half of what
    /// the far end was built with, where that is in step.
    pub open spec fn remote_is_true(&self) -> bool {
        forall|o: Handshake| #[trigger]
            self.in_step(o) ==> (self.remote() matches Some(k) ==> k == x25519_public(
                o.origin().private,
            ))
    }

    /// Whether the session is the mirror image of the far end's, where that is in
    /// step.
    pub open spec fn session_is_shared(&self) -> bool {
        forall|o: Handshake| #[trigger]
            self.in_step(o) ==> o.session().sending == self.session().receiving
                && o.session().receiving == self.session().sending
    }

    /// Whether it reads this message for the payload it was written with, should
    /// the far end have written it in step.
    pub open spec fn hears_the_far_end(&self, msg: Seq<u8>) -> bool {
        forall|w: Handshake, p: Seq<u8>, after: Handshake| #[trigger]
            w.has_written(p, msg, after) && w.in_step(*self) ==> (self.reading(msg) matches Some(
                (q, _, _),
            ) && q == p)
    }

    /// The session it becomes.
    pub open spec fn session(&self) -> SessionView {
        SessionView {
            sending: from_zero(self.keys().0),
            receiving: from_zero(self.keys().1),
            sent: 0,
        }
    }

    /// Whether it reads a message.
    pub open spec fn reads(&self, msg: Seq<u8>) -> bool {
        &&& msg.len() <= MAX_NOISE_MESSAGE
        &&& !self@.complete()
        &&& self.reading(msg) is Some
    }

    /// Whether the two differ in nothing but a PSK that is mixed in after the first
    /// message, and stand before that message.
    pub closed spec fn same_but_psk(&self, other: Handshake) -> bool {
        same_but_psk(self.state, other.state)
    }

    /// Whether another that differs in nothing but a later PSK makes the same of a
    /// message.
    pub open spec fn reads_without_psk(&self, msg: Seq<u8>) -> bool {
        forall|o: Handshake| #[trigger]
            self.same_but_psk(o) ==> o.reading(msg) == self.reading(msg)
    }

    /// Whether it has a reason to refuse a message: one that does not read, which
    /// none of the far end's does that is in step.
    pub open spec fn refuses(&self, msg: Seq<u8>) -> bool {
        &&& !self.reads(msg)
        &&& msg.len() <= MAX_NOISE_MESSAGE && !self@.complete() ==> self.hears_the_far_end(msg)
    }

    /// Whether reading a message gives this payload and leads to that handshake.
    pub open spec fn has_read(&self, msg: Seq<u8>, payload: Seq<u8>, after: Handshake) -> bool {
        &&& self.reads(msg)
        &&& self.hears_the_far_end(msg)
        &&& self.reading(msg) == Some((payload, after.remote(), after.hash()))
        &&& after@ == self@.passed(true)
        &&& after.origin() == self.origin()
        &&& after.trail() == self.trail().push(msg)
    }

    /// Whether writing a payload may give this message and lead to that handshake.
    pub closed spec fn has_written(
        &self,
        payload: Seq<u8>,
        msg: Seq<u8>,
        after: Handshake,
    ) -> bool {
        &&& writes(self.state, payload, msg, after.state)
        &&& !self@.complete()
        &&& after@ == self@.passed(false)
        &&& after.origin() == self.origin()
        &&& after.trail() == self.trail().push(msg)
    }

    /// Whether this is how a handshake of a mode starts that is built so.
    pub open spec fn starts(
        &self,
        mode: Mode,
        secret: Seq<u8>,
        psk: Seq<u8>,
        peer: Option<Seq<u8>>,
        initiator: bool,
    ) -> bool {
        &&& self@ == (Progress { mode, done: 0, my_turn: initiator })
        &&& self.origin() == origin_of(mode, secret, psk, peer, initiator)
        &&& self.trail() == Seq::<Seq<u8>>::empty()
    }

    /// The keys it splits into.
    pub closed spec fn keys(&self) -> (Option<Seq<u8>>, Option<Seq<u8>>) {
        split_keys(self.state)
    }
}

/// A PSK of zeros.
pub open spec fn no_psk() -> Seq<u8> {
    Seq::new(32, |i: int| 0u8)
}

/// What a handshake of a mode is built from.
pub open spec fn origin_of(
    mode: Mode,
    secret: Seq<u8>,
    psk: Seq<u8>,
    peer: Option<Seq<u8>>,
    initiator: bool,
) -> Origin {
    Origin {
        params: pattern(mode),
        prologue: prologue_of(mode),
        private: secret,
        index: if mode == Mode::Pair {
            PAIR_PSK_INDEX
        } else {
            SESSION_PSK_INDEX
        },
        psk,
        peer,
        initiator,
    }
}

/// Whether every responder of an end, whatever PSK it is built with, learns from a
/// first message that it comes from the holder of `key`.
pub open spec fn names_caller(secret: Seq<u8>, msg1: Seq<u8>, key: Seq<u8>) -> bool {
    forall|h: Handshake, psk: Seq<u8>| #[trigger]
        h.starts(Mode::Session, secret, psk, None, false) ==> (h.reading(msg1) matches Some(
            (_, remote, _),
        ) && remote == Some(key))
}

/// Whether no responder of an end, whatever PSK it is built with, can read a first
/// message, and so learn who sent it.
pub open spec fn names_nobody(secret: Seq<u8>, msg1: Seq<u8>) -> bool {
    forall|h: Handshake, psk: Seq<u8>| #[trigger]
        h.starts(Mode::Session, secret, psk, None, false) ==> h.reading(msg1) is None
}

/// Whether a handshake that has or has not completed may give a session on a
/// link.
pub fn session_refused(complete: bool, attrs: &LinkAttrs) -> (r: Option<NoiseError>)
    ensures
        match r {
            Some(e) => e@ == if !complete {
                Refusal::NotComplete
            } else {
                Refusal::UnsupportedLink
            },
            None => true,
        },
        r is None <==> complete && attrs.reliable && attrs.ordered,
{
    if !complete {
        return Some(NoiseError::NotComplete);
    }
    if !attrs.supports_stateful_cipher() {
        // A lossy or unordered link needs caller-supplied nonces plus a
        // replay window, which no transport here has.
        return Some(NoiseError::UnsupportedLink);
    }
    None
}

impl Handshake {
    /// Start a pairing handshake. `psk` comes from the pairing code, and with
    /// `psk0` it is required before either side can read anything at all.
    pub fn pair_initiator(id: &Identity, psk: &[u8; 32]) -> (r: Result<Handshake, NoiseError>)
        ensures
            r matches Ok(h) && h.starts(Mode::Pair, id.secret(), psk@, None, true),
    {
        Handshake::build(Mode::Pair, id, psk, None, true)
    }

    pub fn pair_responder(id: &Identity, psk: &[u8; 32]) -> (r: Result<Handshake, NoiseError>)
        ensures
            r matches Ok(h) && h.starts(Mode::Pair, id.secret(), psk@, None, false),
    {
        Handshake::build(Mode::Pair, id, psk, None, false)
    }

    /// Start a session handshake with an already-paired peer.
    pub fn session_initiator(id: &Identity, psk: &[u8; 32], peer_static: &[u8; 32]) -> (r: Result<
        Handshake,
        NoiseError,
    >)
        ensures
            r matches Ok(h) && h.starts(Mode::Session, id.secret(), psk@, Some(peer_static@), true),
    {
        Handshake::build(Mode::Session, id, psk, Some(peer_static), true)
    }

    pub fn session_responder(id: &Identity, psk: &[u8; 32]) -> (r: Result<Handshake, NoiseError>)
        ensures
            r matches Ok(h) && h.starts(Mode::Session, id.secret(), psk@, None, false),
    {
        Handshake::build(Mode::Session, id, psk, None, false)
    }

    /// Learn who is calling, before we know which PSK to answer with.
    ///
    /// `IKpsk2` puts the responder in an awkward spot: the PSK is wanted at
    /// build time, but it is per-peer and the peer's identity arrives inside
    /// message 1. The way out is that `psk2` is mixed at message 2, so a
    /// throwaway handshake built with a zero PSK reads message 1 to exactly the
    /// same result as the real one would.
    ///
    /// The caller uses the returned static key to find the peer, then builds a
    /// real responder with that peer's PSK and replays the same message 1 into
    /// it. Nothing is trusted: if the choice is wrong, message 2 fails on the
    /// initiator exactly as it should.
    pub fn session_identify(id: &Identity, msg1: &[u8]) -> (r: Result<[u8; 32], NoiseError>)
        ensures
            r matches Ok(k) ==> msg1@.len() <= MAX_NOISE_MESSAGE && names_caller(
                id.secret(),
                msg1@,
                k@,
            ),
            r matches Err(e) ==> if msg1@.len() > MAX_NOISE_MESSAGE {
                e@ == (Refusal::TooLarge { got: msg1@.len() as usize })
            } else {
                names_nobody(id.secret(), msg1@) && e@ is Snow
            },
    {
        let zero: [u8; 32] = [0u8;32];
        let mut probe = match Handshake::build(Mode::Session, id, &zero, None, false) {
            Ok(h) => h,
            Err(e) => {
                return Err(e);
            },
        };
        let ghost start = probe;
        let read = probe.read(msg1);
        proof {
            assert forall|h: Handshake, psk: Seq<u8>| #[trigger]
                h.starts(Mode::Session, id.secret(), psk, None, false) && msg1@.len()
                    <= MAX_NOISE_MESSAGE implies h.reading(msg1@) == start.reading(msg1@) by {
                assert(start.same_but_psk(h));
            }
        }
        match read {
            Ok(_) => {},
            Err(e) => {
                return Err(e);
            },
        }
        match probe.peer_static() {
            Some(k) => Ok(k),
            None => {
                // The first message transmits it.
                assert(probe.whole());
                Err(NoiseError::NotComplete)
            },
        }
    }

    fn build(
        mode: Mode,
        id: &Identity,
        psk: &[u8; 32],
        peer_static: Option<&[u8; 32]>,
        initiator: bool,
    ) -> (r: Result<Handshake, NoiseError>)
        requires
            peer_static is Some ==> initiator,
            initiator && mode == Mode::Session ==> peer_static is Some,
        ensures
            r matches Ok(h) && h.starts(
                mode,
                id.secret(),
                psk@,
                match peer_static {
                    Some(k) => Some(k@),
                    None => None,
                },
                initiator,
            ),
    {
        let prologue = mode.prologue();
        let params = mode.params();
        let index: u8 = mode.psk_index();
        let built = if initiator {
            match peer_static {
                Some(peer) => build_initiator_to(params, &prologue, id.private(), index, psk, peer),
                None => build_initiator(params, &prologue, id.private(), index, psk),
            }
        } else {
            build_responder(params, &prologue, id.private(), index, psk)
        };
        match built {
            Ok(state) => Ok(Handshake { state, mode, done: 0, my_turn: initiator }),
            Err(e) => Err(NoiseError::Snow(e)),
        }
    }

    pub fn mode(&self) -> (m: Mode)
        ensures
            m == self@.mode,
    {
        self.mode
    }

    /// Whether every message of the pattern has passed.
    pub fn is_complete(&self) -> (r: bool)
        ensures
            r == self@.complete(),
    {
        match self.mode {
            Mode::Pair => self.done >= 3,
            Mode::Session => self.done >= 2,
        }
    }

    /// Whether it is our turn to write.
    pub fn is_my_turn(&self) -> (r: bool)
        ensures
            r == (!self@.complete() && self@.my_turn),
    {
        !self.is_complete() && self.my_turn
    }

    /// Produce the next handshake message, carrying `payload`. All but the last
    /// message of a pairing need a fresh random key, which may not be had.
    pub fn write(&mut self, payload: &[u8]) -> (r: Result<Vec<u8>, NoiseError>)
        ensures
            final(self).origin() == old(self).origin(),
            r is Ok ==> old(self).may_write(payload@),
            old(self).must_write(payload@) ==> r is Ok,
            r is Err && !old(self)@.complete() ==> old(self).stalls(payload@),
            old(self).whole() ==> (r matches Ok(m) ==> m@.len() == payload@.len() + overhead(
                old(self)@.mode,
                old(self)@.done as int,
            )),
            match r {
                Ok(m) => {
                    &&& old(self).has_written(payload@, m@, *final(self))
                    &&& !old(self)@.complete()
                    &&& final(self)@ == old(self)@.passed(false)
                    &&& m@.len() <= MAX_NOISE_MESSAGE
                },
                Err(e) => {
                    &&& final(self)@ == old(self)@
                    &&& e@ == if old(self)@.complete() {
                        Refusal::AlreadyComplete
                    } else {
                        Refusal::Snow
                    }
                },
            },
    {
        if self.is_complete() {
            return Err(NoiseError::AlreadyComplete);
        }
        match write_handshake(&mut self.state, payload, MAX_NOISE_MESSAGE) {
            Ok(m) => {
                self.done = self.done + 1;
                self.my_turn = false;
                Ok(m)
            },
            Err(e) => Err(NoiseError::Snow(e)),
        }
    }

    /// Consume a handshake message, returning its payload.
    pub fn read(&mut self, msg: &[u8]) -> (r: Result<Vec<u8>, NoiseError>)
        ensures
            final(self).origin() == old(self).origin(),
            r is Ok <==> msg@.len() <= MAX_NOISE_MESSAGE && !old(self)@.complete() && old(
                self,
            ).reading(msg@) is Some,
            msg@.len() <= MAX_NOISE_MESSAGE && !old(self)@.complete() ==> old(
                self,
            ).hears_the_far_end(msg@) && old(self).reads_without_psk(msg@),
            match r {
                Ok(p) => {
                    &&& msg@.len() <= MAX_NOISE_MESSAGE
                    &&& !old(self)@.complete()
                    &&& final(self)@ == old(self)@.passed(true)
                    &&& old(self).reading(msg@) == Some(
                        (p@, final(self).remote(), final(self).hash()),
                    )
                    &&& p@.len() <= msg@.len()
                    &&& final(self).trail() == old(self).trail().push(msg@)
                },
                Err(e) => {
                    &&& final(self)@ == old(self)@
                    &&& e@ == if msg@.len() > MAX_NOISE_MESSAGE {
                        Refusal::TooLarge { got: msg@.len() as usize }
                    } else if old(self)@.complete() {
                        Refusal::AlreadyComplete
                    } else {
                        Refusal::Snow
                    }
                },
            },
    {
        if msg.len() > MAX_NOISE_MESSAGE {
            return Err(NoiseError::TooLarge { got: msg.len() });
        }
        if self.is_complete() {
            return Err(NoiseError::AlreadyComplete);
        }
        match read_handshake(&mut self.state, msg, MAX_NOISE_MESSAGE) {
            Ok(p) => {
                self.done = self.done + 1;
                self.my_turn = true;
                Ok(p)
            },
            Err(e) => Err(NoiseError::Snow(e)),
        }
    }

    /// The peer's static public key, once the pattern has transmitted it.
    ///
    /// `None` early in `XX`, which is exactly why a pairing decision cannot be
    /// made before the handshake completes.
    pub fn peer_static(&self) -> (r: Option<[u8; 32]>)
        ensures
            match r {
                Some(k) => self.remote() == Some(k@),
                None => self.remote() is None,
            },
            self.remote_is_true(),
            self.whole() ==> (r is Some <==> self.knows_far_end()),
    {
        remote_static(&self.state)
    }

    /// The handshake hash, for the SAS and for deriving the session PSK.
    ///
    /// Only meaningful once complete. Before that it is a running value, and two
    /// honest peers would derive different strings from it.
    pub fn handshake_hash(&self) -> (r: Result<Vec<u8>, NoiseError>)
        ensures
            r is Ok <==> self@.complete(),
            r matches Ok(h) ==> h@ == self.hash() && self.hash_is_shared(),
            is_pattern(self.origin().params) ==> (r matches Ok(h) ==> h@.len() == 32),
            r matches Err(e) ==> e@ == Refusal::NotComplete,
    {
        if !self.is_complete() {
            return Err(NoiseError::NotComplete);
        }
        Ok(hash_so_far(&self.state))
    }

    /// Move into transport mode.
    pub fn into_session(self, attrs: &LinkAttrs) -> (r: Result<Session, NoiseError>)
        ensures
            match r {
                Ok(s) => {
                    &&& self@.complete() && attrs.reliable && attrs.ordered
                    &&& s@ == self.session()
                    &&& self.session_is_shared()
                },
                Err(e) => e@ == if !self@.complete() {
                    Refusal::NotComplete
                } else if !(attrs.reliable && attrs.ordered) {
                    Refusal::UnsupportedLink
                } else {
                    Refusal::Snow
                },
            },
            self@.complete() && attrs.reliable && attrs.ordered && self.whole() ==> r is Ok,
    {
        match session_refused(self.is_complete(), attrs) {
            Some(e) => {
                return Err(e);
            },
            None => {},
        }
        match transport_mode(self.state) {
            Ok(state) => Ok(Session { state, sent: 0 }),
            Err(e) => Err(NoiseError::Snow(e)),
        }
    }
}

/// An established session.
pub struct Session {
    state: snow::TransportState,
    sent: u64,
}

/// Rekey before the cipher's nonce space gets anywhere near exhaustion.
/// ChaChaPoly's counter is 64-bit, so this is enormously conservative, which is
/// the point: it costs nothing and removes a class of bug entirely.
pub const REKEY_AFTER_MESSAGES: u64 = 0x10_0000;

/// The model of a [`Session`].
pub struct SessionView {
    /// The key and the counter for sealing.
    pub sending: Option<(Seq<u8>, u64)>,
    /// The key and the counter for opening.
    pub receiving: Option<(Seq<u8>, u64)>,
    /// Messages sealed since the session began or was last rekeyed.
    pub sent: u64,
}

impl View for Session {
    type V = SessionView;

    closed spec fn view(&self) -> SessionView {
        SessionView {
            sending: sending(self.state),
            receiving: receiving(self.state),
            sent: self.sent,
        }
    }
}

impl SessionView {
    /// Whether a message can still be sealed.
    pub open spec fn can_seal(self, plaintext: Seq<u8>) -> bool {
        &&& self.sending matches Some((k, n))
        &&& n < u64::MAX
        &&& plaintext.len() + TAG_LEN <= MAX_NOISE_MESSAGE
    }

    /// A message as it is sealed next.
    pub open spec fn seal(self, plaintext: Seq<u8>) -> Seq<u8> {
        sealed(self.sending->Some_0.0, self.sending->Some_0.1, plaintext)
    }

    /// The session once a message has been sealed.
    pub open spec fn after_sealing(self) -> SessionView {
        SessionView {
            sending: Some((self.sending->Some_0.0, (self.sending->Some_0.1 + 1) as u64)),
            sent: crate::plugin::after(self.sent),
            ..self
        }
    }

    /// Whether some bytes are what `plaintext` was sealed as for this session to
    /// open next.
    pub open spec fn opens(self, ciphertext: Seq<u8>, plaintext: Seq<u8>) -> bool {
        &&& self.receiving matches Some((k, n))
        &&& n < u64::MAX
        &&& ciphertext.len() <= MAX_NOISE_MESSAGE
        &&& ciphertext == sealed(k, n, plaintext)
    }

    /// Whether some bytes open to `plaintext` and to nothing else.
    pub open spec fn opens_to(self, ciphertext: Seq<u8>, plaintext: Seq<u8>) -> bool {
        &&& self.opens(ciphertext, plaintext)
        &&& forall|q: Seq<u8>| #[trigger] self.opens(ciphertext, q) ==> q == plaintext
    }

    /// The session once a message has been opened.
    pub open spec fn after_opening(self) -> SessionView {
        SessionView {
            receiving: Some((self.receiving->Some_0.0, (self.receiving->Some_0.1 + 1) as u64)),
            ..self
        }
    }
}

impl Session {
    pub fn encrypt(&mut self, plaintext: &[u8]) -> (r: Result<Vec<u8>, NoiseError>)
        ensures
            r is Ok <==> old(self)@.can_seal(plaintext@),
            match r {
                Ok(c) => {
                    &&& c@ == old(self)@.seal(plaintext@)
                    &&& c@.len() == plaintext@.len() + TAG_LEN
                    &&& final(self)@ == old(self)@.after_sealing()
                },
                Err(e) => e@ == Refusal::Snow && final(self)@ == old(self)@,
            },
    {
        match seal(&mut self.state, plaintext, MAX_NOISE_MESSAGE) {
            Ok(c) => {
                self.sent = self.sent.wrapping_add(1);
                Ok(c)
            },
            Err(e) => Err(NoiseError::Snow(e)),
        }
    }

    pub fn decrypt(&mut self, ciphertext: &[u8]) -> (r: Result<Vec<u8>, NoiseError>)
        ensures
            match r {
                Ok(p) => {
                    &&& old(self)@.opens_to(ciphertext@, p@)
                    &&& p@.len() + TAG_LEN == ciphertext@.len()
                    &&& final(self)@ == old(self)@.after_opening()
                },
                Err(e) => {
                    &&& forall|q: Seq<u8>| !old(self)@.opens(ciphertext@, q)
                    &&& final(self)@ == old(self)@
                    &&& e@ == if ciphertext@.len() > MAX_NOISE_MESSAGE {
                        Refusal::TooLarge { got: ciphertext@.len() as usize }
                    } else {
                        Refusal::Snow
                    }
                },
            },
    {
        if ciphertext.len() > MAX_NOISE_MESSAGE {
            return Err(NoiseError::TooLarge { got: ciphertext.len() });
        }
        match unseal(&mut self.state, ciphertext, MAX_NOISE_MESSAGE) {
            Ok(p) => Ok(p),
            Err(e) => Err(NoiseError::Snow(e)),
        }
    }

    pub fn should_rekey(&self) -> (r: bool)
        ensures
            r == (self@.sent >= REKEY_AFTER_MESSAGES),
    {
        self.sent >= REKEY_AFTER_MESSAGES
    }

    pub fn rekey_outgoing(&mut self)
        ensures
            final(self)@ == (SessionView {
                sending: match old(self)@.sending {
                    Some((k, n)) => Some((rekeyed(k), n)),
                    None => None,
                },
                sent: 0,
                ..old(self)@
            }),
    {
        rekey_sender(&mut self.state);
        self.sent = 0;
    }
}

/// Two ends that are built to talk to each other start in step: with the same PSK,
/// and where the one that calls says whom, with the key of the one that answers.
pub proof fn two_ends_start_in_step(
    a: Handshake,
    b: Handshake,
    mode: Mode,
    psk: Seq<u8>,
    caller: Seq<u8>,
    callee: Seq<u8>,
    peer: Option<Seq<u8>>,
)
    requires
        a.starts(mode, caller, psk, peer, true),
        b.starts(mode, callee, psk, None, false),
        peer matches Some(k) ==> k == x25519_public(callee),
    ensures
        a.in_step(b),
        b.in_step(a),
{
}

/// A handshake that is over knows whom it was with, unless it is one end of a session
/// that called without being told whom; and a pairing knows nobody before the second
/// message, which is the first to carry a key.
pub proof fn a_finished_handshake_knows_its_far_end(hs: Handshake)
    requires
        hs@.mode == Mode::Session && hs.origin().initiator ==> hs.origin().peer is Some,
    ensures
        hs@.complete() ==> hs.knows_far_end(),
        hs@.mode == Mode::Pair && hs.origin().peer is None && hs@.done < 2 ==> !hs.knows_far_end(),
{
}

/// A handshake that has written a message is as whole as it was before, and one
/// message further.
pub proof fn a_whole_handshake_writes_on(
    a: Handshake,
    payload: Seq<u8>,
    msg: Seq<u8>,
    after: Handshake,
)
    requires
        a.whole(),
        a.has_written(payload, msg, after),
    ensures
        after.whole(),
        after@ == a@.passed(false),
{
}

/// A handshake that has read a message is as whole as it was before.
pub proof fn a_whole_handshake_reads_on(
    a: Handshake,
    msg: Seq<u8>,
    payload: Seq<u8>,
    after: Handshake,
)
    requires
        a.whole(),
        a.has_read(msg, payload, after),
    ensures
        after.whole(),
{
}

/// A message that one end writes and the other reads arrives as it was sent, and
/// leaves the two in step.
pub proof fn a_message_keeps_two_ends_in_step(
    a: Handshake,
    payload: Seq<u8>,
    msg: Seq<u8>,
    a2: Handshake,
    b: Handshake,
    read: Seq<u8>,
    b2: Handshake,
)
    requires
        a.in_step(b),
        a.has_written(payload, msg, a2),
        b.has_read(msg, read, b2),
    ensures
        read == payload,
        a2.in_step(b2),
        b2.in_step(a2),
{
}

/// What one end writes the other does not refuse, as long as the two are in step
/// and it still waits for a message.
pub proof fn what_one_end_writes_the_other_reads(
    a: Handshake,
    payload: Seq<u8>,
    msg: Seq<u8>,
    a2: Handshake,
    b: Handshake,
)
    requires
        a.in_step(b),
        a.has_written(payload, msg, a2),
        msg.len() <= MAX_NOISE_MESSAGE,
        !b@.complete(),
    ensures
        !b.refuses(msg),
{
}

/// What one end seals the other opens, as long as both are at the same key and
/// counter, and then they are again.
pub proof fn a_session_carries_messages(
    a: SessionView,
    b: SessionView,
    plaintext: Seq<u8>,
    ciphertext: Seq<u8>,
)
    requires
        a.sending == b.receiving,
        a.can_seal(plaintext),
        ciphertext == a.seal(plaintext),
        ciphertext.len() == plaintext.len() + TAG_LEN,
    ensures
        b.opens(ciphertext, plaintext),
        a.after_sealing().sending == b.after_opening().receiving,
{
}

/// What opens was sealed under the key and the counter that the session is at, and
/// opens to what was sealed. So a message that is sent again opens only where
/// sealing something else under the next counter gives the same bytes.
pub proof fn only_what_was_sealed_opens(
    s: SessionView,
    ciphertext: Seq<u8>,
    plaintext: Seq<u8>,
    again: Seq<u8>,
)
    requires
        s.opens_to(ciphertext, plaintext),
    ensures
        s.receiving matches Some((k, n)) && ciphertext == sealed(k, n, plaintext) && (
        s.after_opening().opens(ciphertext, again) ==> sealed(k, (n + 1) as u64, again) == sealed(
            k,
            n,
            plaintext,
        )),
{
}

/// A pairing is a handshake of three messages in which each end shows its key, a session
/// one of two in which the caller knows the other's; each mixes a secret in at its own
/// place, and names its mode and its pattern to the other before anything else.
pub proof fn each_mode_has_its_own_handshake(
    t: &'static str,
    u: &'static str,
    i: u8,
    j: u8,
    p: Vec<u8>,
    q: Vec<u8>,
)
    requires
        call_ensures(Mode::params, (Mode::Pair,), t),
        call_ensures(Mode::params, (Mode::Session,), u),
        call_ensures(Mode::psk_index, (Mode::Pair,), i),
        call_ensures(Mode::psk_index, (Mode::Session,), j),
        call_ensures(Mode::prologue, (Mode::Pair,), p),
        call_ensures(Mode::prologue, (Mode::Session,), q),
    ensures
        t@ == "Noise_XXpsk0_25519_ChaChaPoly_SHA256"@,
        u@ == "Noise_IKpsk2_25519_ChaChaPoly_SHA256"@,
        i == 0,
        j == 2,
        messages(Mode::Pair) == 3,
        messages(Mode::Session) == 2,
        p@.take(6) == seq![0x41u8, 0x43u8, 0x52u8, 1u8, 1u8, 36u8],
        q@.take(6) == seq![0x41u8, 0x43u8, 0x52u8, 1u8, 2u8, 36u8],
        p@.skip(6) == vstd::utf8::encode_utf8("Noise_XXpsk0_25519_ChaChaPoly_SHA256"@),
        q@.skip(6) == vstd::utf8::encode_utf8("Noise_IKpsk2_25519_ChaChaPoly_SHA256"@),
{
    assert(p@ == prologue_of(Mode::Pair));
    assert(q@ == prologue_of(Mode::Session));
    assert(p@.take(6) =~= seq![0x41u8, 0x43u8, 0x52u8, 1u8, 1u8, 36u8]);
    assert(q@.take(6) =~= seq![0x41u8, 0x43u8, 0x52u8, 1u8, 2u8, 36u8]);
    assert(p@.skip(6) =~= vstd::utf8::encode_utf8(pattern(Mode::Pair)));
    assert(q@.skip(6) =~= vstd::utf8::encode_utf8(pattern(Mode::Session)));
}

/// Each refusal is put into words of its own; a message that is too long is told by its
/// length.
pub proof fn a_refusal_is_told_in_words(e: NoiseError, t: String)
    requires
        call_ensures(NoiseError::message, (&e,), t),
    ensures
        e@ matches Refusal::TooLarge { got } ==> t@ == "message of "@ + crate::text::decimal(
            got as nat,
        ) + " bytes exceeds the Noise limit of 65535"@,
        e@ is AlreadyComplete ==> t@ == "the handshake is already complete"@,
        e@ is NotComplete ==> t@ == "the handshake is not complete yet"@,
        e@ is UnsupportedLink ==> t@
            == "this link is lossy or unordered, which needs a stateless cipher"@,
{
}

} // verus!
