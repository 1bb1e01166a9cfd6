//! What travels on a link, and what only the wire format's own code computes.
//!
//! The shapes a message takes on the wire, the texts a key is known by and the
//! secrets that follow from a handshake belong to the wire format. The core
//! decides with their results; [`Wire`] is where it asks for them.
use crate::body::{body_reads_back, from_bytes, to_bytes, value_of, Body};
use crate::cbor::{
    array_reads, close, end_of, every_end_is_later, field_text, got, head, open, open_at,
    open_moves_on, put_array, put_text, rest, stands_split, text_field, text_item, text_reads,
};
use crate::ids::{DeviceId, Fingerprint, PublicKey};
use crate::text::{holds, texts};
use vstd::prelude::*;

verus! {

/// The version every message and every handshake names.
pub const WIRE_VERSION: u8 = 1;

/// The closed vocabulary of errors.
#[derive(Clone, Copy, PartialEq, Eq, Debug, Structural)]
pub enum ErrorCode {
    BadBody,
    NotAllowed,
    UnknownType,
    TooLarge,
    Internal,
    CapNotNegotiated,
    NotPaired,
}

impl ErrorCode {
    /// The code as it is written in a message.
    pub open spec fn name(self) -> Seq<char> {
        match self {
            ErrorCode::BadBody => "bad_body"@,
            ErrorCode::NotAllowed => "not_allowed"@,
            ErrorCode::UnknownType => "unknown_type"@,
            ErrorCode::TooLarge => "too_large"@,
            ErrorCode::Internal => "internal"@,
            ErrorCode::CapNotNegotiated => "cap_not_negotiated"@,
            ErrorCode::NotPaired => "not_paired"@,
        }
    }

    /// The code as it is written in a message.
    pub fn as_str(self) -> (t: &'static str)
        ensures
            t@ == self.name(),
    {
        match self {
            ErrorCode::BadBody => "bad_body",
            ErrorCode::NotAllowed => "not_allowed",
            ErrorCode::UnknownType => "unknown_type",
            ErrorCode::TooLarge => "too_large",
            ErrorCode::Internal => "internal",
            ErrorCode::CapNotNegotiated => "cap_not_negotiated",
            ErrorCode::NotPaired => "not_paired",
        }
    }
}

/// What a frame carries.
#[derive(Clone, Copy, PartialEq, Eq, Debug, Structural)]
pub enum FrameKind {
    PairHandshake,
    SessionHandshake,
    Transport,
}

/// One plugin message.
#[derive(PartialEq, Eq, Debug)]
pub struct Envelope {
    pub v: u8,
    pub id: u32,
    /// The id of the request this answers.
    pub re: Option<u32>,
    pub cap: String,
    pub ty: String,
    pub body: Vec<u8>,
}

/// The model of an [`Envelope`].
pub struct EnvelopeView {
    pub v: u8,
    pub id: u32,
    pub re: Option<u32>,
    pub cap: Seq<char>,
    pub ty: Seq<char>,
    pub body: Seq<u8>,
}

impl View for Envelope {
    type V = EnvelopeView;

    open spec fn view(&self) -> EnvelopeView {
        EnvelopeView {
            v: self.v,
            id: self.id,
            re: self.re,
            cap: self.cap@,
            ty: self.ty@,
            body: self.body@,
        }
    }
}

impl Envelope {
    /// A request of this wire version.
    pub fn new(id: u32, cap: &str, ty: &str, body: &[u8]) -> (e: Envelope)
        ensures
            e.v == WIRE_VERSION,
            e.id == id,
            e.re is None,
            e.cap@ == cap@,
            e.ty@ == ty@,
            e.body@ == body@,
    {
        Envelope {
            v: WIRE_VERSION,
            id,
            re: None,
            cap: cap.to_owned(),
            ty: ty.to_owned(),
            body: crate::text::copy_bytes(body),
        }
    }
}

/// What each end says about itself inside a handshake.
#[derive(PartialEq, Eq, Debug)]
pub struct Hello {
    pub v: u8,
    /// Wall clock: the far end compares it with its own.
    pub ts_ms: u64,
    pub device_id: String,
    pub name: String,
    pub platform: String,
    pub caps_out: Vec<String>,
    pub caps_in: Vec<String>,
}

/// The model of a [`Hello`].
pub struct HelloView {
    pub v: u8,
    pub ts_ms: u64,
    pub device_id: Seq<char>,
    pub name: Seq<char>,
    pub platform: Seq<char>,
    pub caps_out: Seq<Seq<char>>,
    pub caps_in: Seq<Seq<char>>,
}

impl View for Hello {
    type V = HelloView;

    open spec fn view(&self) -> HelloView {
        HelloView {
            v: self.v,
            ts_ms: self.ts_ms,
            device_id: self.device_id@,
            name: self.name@,
            platform: self.platform@,
            caps_out: texts(self.caps_out@),
            caps_in: texts(self.caps_in@),
        }
    }
}

/// The body of an error answer.
#[derive(PartialEq, Eq, Debug)]
pub struct ErrorBody {
    pub code: String,
    pub message: String,
}

/// The model of an [`ErrorBody`].
pub struct ErrorBodyView {
    pub code: Seq<char>,
    pub message: Seq<char>,
}

impl View for ErrorBody {
    type V = ErrorBodyView;

    open spec fn view(&self) -> ErrorBodyView {
        ErrorBodyView { code: self.code@, message: self.message@ }
    }
}

impl Body for ErrorBody {
    open spec fn item(v: ErrorBodyView) -> Seq<u8> {
        head(4, 2) + text_item(v.code) + text_item(v.message)
    }

    open spec fn item_at(b: Seq<u8>, at: int) -> Option<(ErrorBodyView, int)> {
        let code = text_field(b, open_at(b, at));
        let message = text_field(b, rest(code));
        match end_of(b, rest(message)) {
            Some(end) => Some((ErrorBodyView { code: got(code), message: got(message) }, end)),
            None => None,
        }
    }

    proof fn item_reads(w: Seq<u8>, at: int, v: ErrorBodyView) {
        let p0 = head(4, 2);
        let p1 = p0 + text_item(v.code);
        stands_split(w, at, p1, text_item(v.message));
        stands_split(w, at, p0, text_item(v.code));
        array_reads(w, at, 2);
        text_reads(w, at + p0.len(), v.code);
        text_reads(w, at + p1.len(), v.message);
    }

    proof fn item_moves_on(b: Seq<u8>, at: int) {
        open_moves_on(b, at);
        every_end_is_later(b);
    }

    fn put(&self, out: &mut Vec<u8>) {
        put_array(out, 2);
        put_text(out, self.code.as_str());
        put_text(out, self.message.as_str());
        assert(out@ =~= old(out)@ + Self::item(self@));
    }

    fn get(b: &[u8], at: usize) -> (r: Option<(ErrorBody, usize)>) {
        let c = open(b, at)?;
        let (code, c) = field_text(b, c)?;
        let (message, c) = field_text(b, c)?;
        let end: usize = close(b, c)?;
        Some((ErrorBody { code, message }, end))
    }
}

/// The bytes of an error answer.
pub open spec fn error_body(code: Seq<char>, message: Seq<char>) -> Seq<u8> {
    ErrorBody::item(ErrorBodyView { code, message })
}

impl ErrorBody {
    /// Writes an error body.
    pub fn encode(code: &str, message: &str) -> (b: Vec<u8>)
        ensures
            b@ == error_body(code@, message@),
    {
        to_bytes(&ErrorBody { code: code.to_owned(), message: message.to_owned() })
    }

    /// Reads an error body.
    pub fn decode(b: &[u8]) -> (r: Option<ErrorBody>)
        ensures
            r matches Some(e) ==> value_of::<ErrorBody>(b@) == Some(e@),
            r is None ==> value_of::<ErrorBody>(b@) is None,
    {
        from_bytes(b)
    }
}

/// What both lists hold: the members of the first that are in the second too.
pub open spec fn shared(ours: Seq<Seq<char>>, theirs: Seq<Seq<char>>) -> Seq<Seq<char>> {
    ours.filter(|c: Seq<char>| theirs.contains(c))
}

/// The capabilities that one side may send and the other will take.
pub fn negotiate(ours: &Vec<String>, theirs: &Vec<String>) -> (r: Vec<String>)
    ensures
        texts(r@) == shared(texts(ours@), texts(theirs@)),
{
    let mut out: Vec<String> = Vec::new();
    let ghost all = texts(ours@);
    let ghost keep = |c: Seq<char>| texts(theirs@).contains(c);
    proof {
        assert(all.take(0) =~= Seq::<Seq<char>>::empty());
        reveal(Seq::filter);
        assert(texts(out@) =~= all.take(0).filter(keep));
    }
    for i in 0..ours.len()
        invariant
            all == texts(ours@),
            keep == (|c: Seq<char>| texts(theirs@).contains(c)),
            texts(out@) == all.take(i as int).filter(keep),
    {
        proof {
            reveal(Seq::filter);
            assert(all.take(i + 1).drop_last() =~= all.take(i as int));
            assert(all.take(i + 1).last() == ours[i as int]@);
        }
        if holds(theirs, ours[i].as_str()) {
            let ghost so_far = texts(out@);
            out.push(ours[i].clone());
            assert(texts(out@) =~= so_far.push(ours[i as int]@));
        }
    }
    assert(all.take(all.len() as int) =~= all);
    out
}

/// A capability is negotiated only if both sides named it.
pub proof fn shared_is_in_both(ours: Seq<Seq<char>>, theirs: Seq<Seq<char>>, c: Seq<char>)
    ensures
        shared(ours, theirs).contains(c) <==> ours.contains(c) && theirs.contains(c),
    decreases ours.len(),
{
    reveal(Seq::filter);
    let kept = shared(ours, theirs);
    if ours.len() > 0 {
        let rest = ours.drop_last();
        let last = ours.last();
        shared_is_in_both(rest, theirs, c);
        assert(ours =~= rest.push(last));
        assert(ours.contains(c) <==> rest.contains(c) || c == last) by {
            if rest.contains(c) {
                let i = choose|i: int| 0 <= i < rest.len() && rest[i] == c;
                assert(ours[i] == c);
            }
            assert(ours[ours.len() - 1] == last);
            if ours.contains(c) && c != last {
                let i = choose|i: int| 0 <= i < ours.len() && ours[i] == c;
                assert(rest[i] == c);
            }
        }
        let before = shared(rest, theirs);
        if theirs.contains(last) {
            assert(kept =~= before.push(last));
            assert(kept.contains(c) <==> before.contains(c) || c == last) by {
                if before.contains(c) {
                    let i = choose|i: int| 0 <= i < before.len() && before[i] == c;
                    assert(kept[i] == c);
                }
                assert(kept[kept.len() - 1] == last);
                if kept.contains(c) && c != last {
                    let i = choose|i: int| 0 <= i < kept.len() && kept[i] == c;
                    assert(before[i] == c);
                }
            }
        } else {
            assert(kept =~= before);
        }
    }
}

/// Whether `id` is what a wire format may call the device with this key.
pub open spec fn called<W: Wire>(wire: W, key: Seq<u8>, id: Seq<char>) -> bool {
    exists|k: PublicKey, d: DeviceId|
        k@ == key && d@ == id && #[trigger] call_ensures(W::device_id, (&wire, &k), d)
}

/// Whether `fp` is the fingerprint that a wire format may give to this key.
pub open spec fn recognised<W: Wire>(wire: W, key: Seq<u8>, fp: Seq<char>) -> bool {
    exists|k: PublicKey, f: Fingerprint|
        k@ == key && f@ == fp && #[trigger] call_ensures(W::fingerprint, (&wire, &k), f)
}

/// Whether `r` is what a wire format may read a text as that should be a device
/// id.
pub open spec fn id_read<W: Wire>(wire: W, text: Seq<char>, r: Result<DeviceId, String>) -> bool {
    exists|t: &str| t@ == text && #[trigger] call_ensures(W::parse_device_id, (&wire, t), r)
}

/// Whether `r` is what a wire format may read a text as that should be a
/// fingerprint.
pub open spec fn fingerprint_read<W: Wire>(
    wire: W,
    text: Seq<char>,
    r: Option<Fingerprint>,
) -> bool {
    exists|t: &str| t@ == text && #[trigger] call_ensures(W::parse_fingerprint, (&wire, t), r)
}

/// Whether `r` is what a wire format may make of a message.
pub open spec fn splits<W: Wire>(wire: W, msg: Seq<u8>, r: Option<(FrameKind, Seq<u8>)>) -> bool {
    exists|m: &[u8], x: Option<(FrameKind, Vec<u8>)>|
        m@ == msg && r == (match x {
            Some((k, b)) => Some((k, b@)),
            None => None,
        }) && #[trigger] call_ensures(W::split, (&wire, m), x)
}

/// Whether `msg` is how a wire format may frame some bytes.
pub open spec fn joins<W: Wire>(wire: W, kind: FrameKind, body: Seq<u8>, msg: Seq<u8>) -> bool {
    exists|b: &[u8], m: Vec<u8>|
        b@ == body && m@ == msg && #[trigger] call_ensures(W::join, (&wire, kind, b), m)
}

/// Whether `payload` is how a wire format may write a hello.
pub open spec fn hello_written<W: Wire>(wire: W, hello: HelloView, payload: Seq<u8>) -> bool {
    exists|h: &Hello, p: Vec<u8>|
        h@ == hello && p@ == payload && #[trigger] call_ensures(W::encode_hello, (&wire, h), p)
}

/// Whether `r` is what a wire format may read a handshake payload as.
pub open spec fn hello_read<W: Wire>(wire: W, payload: Seq<u8>, r: Option<HelloView>) -> bool {
    exists|p: &[u8], h: Option<Hello>|
        p@ == payload && r == (match h {
            Some(h) => Some(h@),
            None => None,
        }) && #[trigger] call_ensures(W::decode_hello, (&wire, p), h)
}

/// Whether `r` is what a wire format may say to a hello at this time, from a peer
/// that has shown `seen` before: the new mark, or why not.
pub open spec fn freshness<W: Wire>(
    wire: W,
    hello: HelloView,
    wall_ms: u64,
    seen: u64,
    r: Result<u64, Seq<char>>,
) -> bool {
    exists|h: &Hello, f: Result<u64, String>|
        h@ == hello && r == (match f {
            Ok(n) => Ok(n),
            Err(e) => Err(e@),
        }) && #[trigger] call_ensures(W::check_freshness, (&wire, h, wall_ms, seen), f)
}

/// Whether `r` is how a wire format may write a plugin message.
pub open spec fn envelope_written<W: Wire>(wire: W, env: EnvelopeView, r: Option<Seq<u8>>) -> bool {
    exists|e: &Envelope, p: Option<Vec<u8>>|
        e@ == env && r == (match p {
            Some(p) => Some(p@),
            None => None,
        }) && #[trigger] call_ensures(W::encode_envelope, (&wire, e), p)
}

/// Whether `r` is what a wire format may read a plaintext as.
pub open spec fn envelope_read<W: Wire>(
    wire: W,
    plaintext: Seq<u8>,
    r: Option<EnvelopeView>,
) -> bool {
    exists|p: &[u8], e: Option<Envelope>|
        p@ == plaintext && r == (match e {
            Some(e) => Some(e@),
            None => None,
        }) && #[trigger] call_ensures(W::decode_envelope, (&wire, p), e)
}

/// Whether these are digits that a wire format may show for a handshake.
pub open spec fn digits<W: Wire>(wire: W, hash: Seq<u8>, sas: Seq<char>) -> bool {
    exists|h: &[u8], d: String|
        h@ == hash && d@ == sas && #[trigger] call_ensures(W::sas, (&wire, h), d)
}

/// Whether this is a secret that a wire format may draw from a handshake.
pub open spec fn secret<W: Wire>(wire: W, hash: Seq<u8>, psk: Seq<u8>) -> bool {
    exists|h: &[u8], k: Vec<u8>|
        h@ == hash && k@ == psk && #[trigger] call_ensures(W::session_psk, (&wire, h), k)
}

/// Whether this is a key that a wire format may give a transfer.
pub open spec fn transfer_key<W: Wire>(
    wire: W,
    hash: Seq<u8>,
    offerer: Seq<char>,
    number: u64,
    key: Seq<u8>,
) -> bool {
    exists|h: &[u8], o: &str, k: Vec<u8>|
        h@ == hash && o@ == offerer && k@ == key && #[trigger] call_ensures(
            W::bulk_key,
            (&wire, h, o, number),
            k,
        )
}

/// The wire format's own computations. Their results decide nothing here that
/// the core does not check; nothing is promised of them.
pub trait Wire {
    /// The short id of a key.
    fn device_id(&self, key: &PublicKey) -> DeviceId;

    /// The fingerprint of a key.
    fn fingerprint(&self, key: &PublicKey) -> Fingerprint;

    /// The device id that a text writes, or why it writes none.
    fn parse_device_id(&self, text: &str) -> Result<DeviceId, String>;

    /// The fingerprint that a text writes.
    fn parse_fingerprint(&self, text: &str) -> Option<Fingerprint>;

    /// What a message carries; `None` for one that is no frame.
    fn split(&self, msg: &[u8]) -> Option<(FrameKind, Vec<u8>)>;

    /// A message that carries `body`.
    fn join(&self, kind: FrameKind, body: &[u8]) -> Vec<u8>;

    /// A hello as a handshake payload.
    fn encode_hello(&self, hello: &Hello) -> Vec<u8>;

    /// The hello in a handshake payload.
    fn decode_hello(&self, payload: &[u8]) -> Option<Hello>;

    /// Whether a hello is newer than everything seen from that peer and close
    /// enough to our own clock: the new watermark, or why not.
    fn check_freshness(
        &self,
        hello: &Hello,
        wall_ms: u64,
        greatest_seen: u64,
    ) -> Result<u64, String>;

    /// A plugin message as plaintext; `None` where it cannot be written.
    fn encode_envelope(&self, env: &Envelope) -> Option<Vec<u8>>;

    /// The plugin message in a plaintext.
    fn decode_envelope(&self, plaintext: &[u8]) -> Option<Envelope>;

    /// The digits two people compare.
    fn sas(&self, handshake_hash: &[u8]) -> String;

    /// The secret that later sessions with this peer use.
    fn session_psk(&self, handshake_hash: &[u8]) -> Vec<u8>;

    /// The key of one bulk transfer.
    fn bulk_key(&self, handshake_hash: &[u8], offerer: &str, number: u64) -> Vec<u8>;
}

// ------------------------------------------------------------ asking the wire format

pub(crate) fn name_key<W: Wire>(wire: &W, key: &PublicKey) -> (id: DeviceId)
    ensures
        called(*wire, key@, id@),
{
    let id = wire.device_id(key);
    assert(call_ensures(W::device_id, (wire, key), id));
    id
}

pub(crate) fn recognise_key<W: Wire>(wire: &W, key: &PublicKey) -> (fp: Fingerprint)
    ensures
        recognised(*wire, key@, fp@),
{
    let fp = wire.fingerprint(key);
    assert(call_ensures(W::fingerprint, (wire, key), fp));
    fp
}

pub(crate) fn split_frame<W: Wire>(wire: &W, msg: &[u8]) -> (r: Option<(FrameKind, Vec<u8>)>)
    ensures
        splits(
            *wire,
            msg@,
            match r {
                Some((k, b)) => Some((k, b@)),
                None => None,
            },
        ),
{
    let r = wire.split(msg);
    assert(call_ensures(W::split, (wire, msg), r));
    r
}

pub(crate) fn join_frame<W: Wire>(wire: &W, kind: FrameKind, body: &[u8]) -> (m: Vec<u8>)
    ensures
        joins(*wire, kind, body@, m@),
{
    let m = wire.join(kind, body);
    assert(call_ensures(W::join, (wire, kind, body), m));
    m
}

pub(crate) fn write_hello<W: Wire>(wire: &W, hello: &Hello) -> (p: Vec<u8>)
    ensures
        hello_written(*wire, hello@, p@),
{
    let p = wire.encode_hello(hello);
    assert(call_ensures(W::encode_hello, (wire, hello), p));
    p
}

pub(crate) fn read_hello<W: Wire>(wire: &W, payload: &[u8]) -> (r: Option<Hello>)
    ensures
        hello_read(
            *wire,
            payload@,
            match r {
                Some(h) => Some(h@),
                None => None,
            },
        ),
{
    let r = wire.decode_hello(payload);
    assert(call_ensures(W::decode_hello, (wire, payload), r));
    r
}

pub(crate) fn judge_hello<W: Wire>(wire: &W, hello: &Hello, wall_ms: u64, seen: u64) -> (r: Result<
    u64,
    String,
>)
    ensures
        freshness(
            *wire,
            hello@,
            wall_ms,
            seen,
            match r {
                Ok(n) => Ok(n),
                Err(e) => Err(e@),
            },
        ),
{
    let r = wire.check_freshness(hello, wall_ms, seen);
    assert(call_ensures(W::check_freshness, (wire, hello, wall_ms, seen), r));
    r
}

pub(crate) fn write_envelope<W: Wire>(wire: &W, env: &Envelope) -> (r: Option<Vec<u8>>)
    ensures
        envelope_written(
            *wire,
            env@,
            match r {
                Some(p) => Some(p@),
                None => None,
            },
        ),
{
    let r = wire.encode_envelope(env);
    assert(call_ensures(W::encode_envelope, (wire, env), r));
    r
}

pub(crate) fn read_envelope<W: Wire>(wire: &W, plaintext: &[u8]) -> (r: Option<Envelope>)
    ensures
        envelope_read(
            *wire,
            plaintext@,
            match r {
                Some(e) => Some(e@),
                None => None,
            },
        ),
{
    let r = wire.decode_envelope(plaintext);
    assert(call_ensures(W::decode_envelope, (wire, plaintext), r));
    r
}

pub(crate) fn show_digits<W: Wire>(wire: &W, hash: &[u8]) -> (d: String)
    ensures
        digits(*wire, hash@, d@),
{
    let d = wire.sas(hash);
    assert(call_ensures(W::sas, (wire, hash), d));
    d
}

pub(crate) fn draw_secret<W: Wire>(wire: &W, hash: &[u8]) -> (k: Vec<u8>)
    ensures
        secret(*wire, hash@, k@),
{
    let k = wire.session_psk(hash);
    assert(call_ensures(W::session_psk, (wire, hash), k));
    k
}

pub(crate) fn derive_key<W: Wire>(wire: &W, hash: &[u8], offerer: &str, number: u64) -> (k: Vec<u8>)
    ensures
        transfer_key(*wire, hash@, offerer@, number, k@),
{
    let k = wire.bulk_key(hash, offerer, number);
    assert(call_ensures(W::bulk_key, (wire, hash, offerer, number), k));
    k
}

/// Each error is written under a name of its own.
pub proof fn errors_are_told_apart(a: ErrorCode, b: ErrorCode, t: &'static str, u: &'static str)
    requires
        call_ensures(ErrorCode::as_str, (a,), t),
        call_ensures(ErrorCode::as_str, (b,), u),
    ensures
        t@ == u@ <==> a == b,
        a == ErrorCode::BadBody ==> t@ == "bad_body"@,
        a == ErrorCode::NotAllowed ==> t@ == "not_allowed"@,
        a == ErrorCode::UnknownType ==> t@ == "unknown_type"@,
        a == ErrorCode::TooLarge ==> t@ == "too_large"@,
        a == ErrorCode::Internal ==> t@ == "internal"@,
        a == ErrorCode::CapNotNegotiated ==> t@ == "cap_not_negotiated"@,
        a == ErrorCode::NotPaired ==> t@ == "not_paired"@,
{
    reveal_strlit("bad_body");
    reveal_strlit("not_allowed");
    reveal_strlit("unknown_type");
    reveal_strlit("too_large");
    reveal_strlit("internal");
    reveal_strlit("cap_not_negotiated");
    reveal_strlit("not_paired");
    assert(t@ == a.name() && u@ == b.name());
    if a != b {
        assert(a.name().len() != b.name().len() || a.name()[0] != b.name()[0] || a.name()[4]
            != b.name()[4]);
    }
}

/// What both lists hold keeps the order of the first: it is what is left of each part of
/// it, one after the other.
pub proof fn what_is_shared_keeps_its_order(
    a: Seq<Seq<char>>,
    b: Seq<Seq<char>>,
    theirs: Seq<Seq<char>>,
    c: Seq<char>,
)
    ensures
        shared(a + b, theirs) == shared(a, theirs) + shared(b, theirs),
        theirs.contains(c) ==> shared(seq![c], theirs) == seq![c],
        !theirs.contains(c) ==> shared(seq![c], theirs).len() == 0,
{
    let keep = |c: Seq<char>| theirs.contains(c);
    Seq::filter_distributes_over_add(a, b, keep);
    Seq::<Seq<char>>::empty().lemma_filter_push(c, keep);
    assert(Seq::<Seq<char>>::empty().push(c) =~= seq![c]);
    reveal(Seq::filter);
}

/// A message is made as it is asked for, in this version of the format, and answers
/// nothing; an error body reads back as it was written.
pub proof fn a_request_is_made_as_asked(
    id: u32,
    cap: &str,
    ty: &str,
    body: &[u8],
    e: Envelope,
    code: &str,
    message: &str,
    b: Vec<u8>,
    again: &[u8],
    r: Option<ErrorBody>,
)
    requires
        call_ensures(Envelope::new, (id, cap, ty, body), e),
        call_ensures(ErrorBody::encode, (code, message), b),
        again@ == b@,
        b@.len() <= u64::MAX,
        call_ensures(ErrorBody::decode, (again,), r),
    ensures
        e@.v == 1,
        e@.id == id,
        e@.re is None,
        e@.cap == cap@,
        e@.ty == ty@,
        e@.body == body@,
        r matches Some(x) && x@.code == code@ && x@.message == message@,
{
    let v = ErrorBodyView { code: code@, message: message@ };
    body_reads_back::<ErrorBody>(v);
}

} // verus!
