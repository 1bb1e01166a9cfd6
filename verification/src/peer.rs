//! What we remember about a device between runs.
use crate::body::{
    field_list, from_bytes, list_field, list_item, list_reads, put_list, to_bytes, value_of, views,
    Body,
};
use crate::cbor::{
    array_reads, bytes_field, bytes_item, bytes_read, close, end_of, every_end_is_later,
    field_bytes, field_text, field_u64, got, head, open, open_at, open_moves_on, put_array,
    put_bytes, put_text, put_uint, rest, stands_split, text_field, text_item, text_reads,
    uint_field, uint_reads,
};
use crate::ids::{DeviceId, Fingerprint, PublicKey};
use crate::noise::Identity;
use crate::text::{copy_bytes, copy_texts};
use crate::wire::{called, recognised, Wire};
use vstd::prelude::*;

verus! {

/// A paired peer. Persisted; everything needed to re-establish a session
/// without a human present.
#[derive(PartialEq, Eq, Debug)]
pub struct PeerRecord {
    pub device_id: String,
    /// The Noise static public key. This, not the name or the address, is the
    /// peer's identity.
    pub public_key: Vec<u8>,
    pub name: String,
    pub platform: String,
    /// Derived from the pairing handshake hash, never transmitted.
    pub session_psk: Vec<u8>,
    /// The replay watermark. Persisting this is the point: a daemon that forgot
    /// it would accept a recorded session opener again after a restart.
    pub greatest_seen: u64,
    /// What the peer last told us it can send and receive. A cache for the UI;
    /// the live handshake is what any routing decision uses.
    pub caps_out: Vec<String>,
    pub caps_in: Vec<String>,
}

/// The model of a [`PeerRecord`].
pub struct RecordView {
    pub device_id: Seq<char>,
    pub public_key: Seq<u8>,
    pub name: Seq<char>,
    pub platform: Seq<char>,
    pub session_psk: Seq<u8>,
    pub greatest_seen: u64,
    pub caps_out: Seq<Seq<char>>,
    pub caps_in: Seq<Seq<char>>,
}

impl View for PeerRecord {
    type V = RecordView;

    open spec fn view(&self) -> RecordView {
        RecordView {
            device_id: self.device_id@,
            public_key: self.public_key@,
            name: self.name@,
            platform: self.platform@,
            session_psk: self.session_psk@,
            greatest_seen: self.greatest_seen,
            caps_out: views(self.caps_out@),
            caps_in: views(self.caps_in@),
        }
    }
}

impl Clone for PeerRecord {
    fn clone(&self) -> (r: PeerRecord)
        ensures
            r@ == self@,
    {
        PeerRecord {
            device_id: self.device_id.clone(),
            public_key: copy_bytes(&self.public_key),
            name: self.name.clone(),
            platform: self.platform.clone(),
            session_psk: copy_bytes(&self.session_psk),
            greatest_seen: self.greatest_seen,
            caps_out: copy_texts(&self.caps_out),
            caps_in: copy_texts(&self.caps_in),
        }
    }
}

impl Body for PeerRecord {
    open spec fn item(v: RecordView) -> Seq<u8> {
        head(4, 8) + text_item(v.device_id) + bytes_item(v.public_key) + text_item(v.name)
            + text_item(v.platform) + bytes_item(v.session_psk)
            + head(0, v.greatest_seen as int) + list_item::<String>(v.caps_out)
            + list_item::<String>(v.caps_in)
    }

    open spec fn item_at(b: Seq<u8>, at: int) -> Option<(RecordView, int)> {
        let device_id = text_field(b, open_at(b, at));
        let public_key = bytes_field(b, rest(device_id));
        let name = text_field(b, rest(public_key));
        let platform = text_field(b, rest(name));
        let session_psk = bytes_field(b, rest(platform));
        let greatest_seen = uint_field(b, rest(session_psk), u64::MAX as int);
        let caps_out = list_field::<String>(b, rest(greatest_seen));
        let caps_in = list_field::<String>(b, rest(caps_out));
        match end_of(b, rest(caps_in)) {
            Some(end) => Some(
                (
                    RecordView {
                        device_id: got(device_id),
                        public_key: got(public_key),
                        name: got(name),
                        platform: got(platform),
                        session_psk: got(session_psk),
                        greatest_seen: got(greatest_seen) as u64,
                        caps_out: got(caps_out),
                        caps_in: got(caps_in),
                    },
                    end,
                ),
            ),
            None => None,
        }
    }

    proof fn item_reads(w: Seq<u8>, at: int, v: RecordView) {
        let p0 = head(4, 8);
        let p1 = p0 + text_item(v.device_id);
        let p2 = p1 + bytes_item(v.public_key);
        let p3 = p2 + text_item(v.name);
        let p4 = p3 + text_item(v.platform);
        let p5 = p4 + bytes_item(v.session_psk);
        let p6 = p5 + head(0, v.greatest_seen as int);
        let p7 = p6 + list_item::<String>(v.caps_out);
        stands_split(w, at, p7, list_item::<String>(v.caps_in));
        stands_split(w, at, p6, list_item::<String>(v.caps_out));
        stands_split(w, at, p5, head(0, v.greatest_seen as int));
        stands_split(w, at, p4, bytes_item(v.session_psk));
        stands_split(w, at, p3, text_item(v.platform));
        stands_split(w, at, p2, text_item(v.name));
        stands_split(w, at, p1, bytes_item(v.public_key));
        stands_split(w, at, p0, text_item(v.device_id));
        array_reads(w, at, 8);
        text_reads(w, at + p0.len(), v.device_id);
        bytes_read(w, at + p1.len(), v.public_key);
        text_reads(w, at + p2.len(), v.name);
        text_reads(w, at + p3.len(), v.platform);
        bytes_read(w, at + p4.len(), v.session_psk);
        uint_reads(w, at + p5.len(), v.greatest_seen as int, u64::MAX as int);
        list_reads::<String>(w, at + p6.len(), v.caps_out);
        list_reads::<String>(w, at + p7.len(), v.caps_in);
    }

    proof fn item_moves_on(b: Seq<u8>, at: int) {
        open_moves_on(b, at);
        every_end_is_later(b);
    }

    fn put(&self, out: &mut Vec<u8>) {
        put_array(out, 8);
        put_text(out, self.device_id.as_str());
        put_bytes(out, &self.public_key);
        put_text(out, self.name.as_str());
        put_text(out, self.platform.as_str());
        put_bytes(out, &self.session_psk);
        put_uint(out, self.greatest_seen);
        put_list::<String>(out, &self.caps_out);
        put_list::<String>(out, &self.caps_in);
        assert(out@ =~= old(out)@ + Self::item(self@));
    }

    fn get(b: &[u8], at: usize) -> (r: Option<(PeerRecord, usize)>) {
        let c = open(b, at)?;
        let (device_id, c) = field_text(b, c)?;
        let (public_key, c) = field_bytes(b, c)?;
        let (name, c) = field_text(b, c)?;
        let (platform, c) = field_text(b, c)?;
        let (session_psk, c) = field_bytes(b, c)?;
        let (greatest_seen, c) = field_u64(b, c)?;
        let (caps_out, c) = field_list::<String>(b, c)?;
        let (caps_in, c) = field_list::<String>(b, c)?;
        let end: usize = close(b, c)?;
        Some(
            (
                PeerRecord {
                    device_id,
                    public_key,
                    name,
                    platform,
                    session_psk,
                    greatest_seen,
                    caps_out,
                    caps_in,
                },
                end,
            ),
        )
    }
}

/// The bytes a record is kept as.
pub open spec fn record_bytes(r: RecordView) -> Seq<u8> {
    PeerRecord::item(r)
}

/// A run of 32 bytes as an array.
pub(crate) fn key_array(v: &[u8]) -> (r: Option<[u8; 32]>)
    ensures
        r is Some <==> v@.len() == 32,
        r matches Some(a) ==> a@ == v@,
{
    if v.len() != 32 {
        return None;
    }
    let mut a: [u8; 32] = [0u8;32];
    for i in 0..32
        invariant
            v@.len() == 32,
            forall|k: int| 0 <= k < i ==> a@[k] == v@[k],
    {
        a[i] = v[i];
    }
    assert(a@ =~= v@);
    Some(a)
}

impl PeerRecord {
    /// The key, where it is one.
    pub fn public_key_array(&self) -> (r: Option<PublicKey>)
        ensures
            r is Some <==> self.public_key@.len() == 32,
            r matches Some(a) ==> a@ == self.public_key@,
    {
        key_array(&self.public_key)
    }

    /// The session secret, where it is one.
    pub fn session_psk_array(&self) -> (r: Option<[u8; 32]>)
        ensures
            r is Some <==> self.session_psk@.len() == 32,
            r matches Some(a) ==> a@ == self.session_psk@,
    {
        key_array(&self.session_psk)
    }

    /// The fingerprint of the record's key.
    pub fn fingerprint<W: Wire>(&self, wire: &W) -> (r: Option<Fingerprint>)
        ensures
            r is Some <==> self.public_key@.len() == 32,
            r matches Some(fp) ==> recognised(*wire, self.public_key@, fp@),
    {
        match self.public_key_array() {
            Some(k) => {
                let fp = wire.fingerprint(&k);
                assert(call_ensures(W::fingerprint, (wire, &k), fp));
                Some(fp)
            },
            None => None,
        }
    }

    /// The id of the record's key.
    pub fn id<W: Wire>(&self, wire: &W) -> (r: Option<DeviceId>)
        ensures
            r is Some <==> self.public_key@.len() == 32,
            r matches Some(id) ==> called(*wire, self.public_key@, id@),
    {
        match self.public_key_array() {
            Some(k) => {
                let id = wire.device_id(&k);
                assert(call_ensures(W::device_id, (wire, &k), id));
                Some(id)
            },
            None => None,
        }
    }

    /// Writes the record for keeping.
    pub fn encode(&self) -> (b: Vec<u8>)
        ensures
            b@ == record_bytes(self@),
    {
        to_bytes(self)
    }

    /// Reads a kept record.
    pub fn decode(b: &[u8]) -> (r: Option<PeerRecord>)
        ensures
            r matches Some(rec) ==> value_of::<PeerRecord>(b@) == Some(rec@),
            r is None ==> value_of::<PeerRecord>(b@) is None,
    {
        from_bytes(b)
    }
}

/// Whether we can currently reach a peer.
///
/// The core models *reachability*, never a role. On iOS a peer is reachable only
/// while the app is foregrounded, and that is an ordinary state rather than an
/// error: a plugin sending to an unreachable peer gets a plain outcome and not a
/// failure path.
#[derive(Clone, Copy, PartialEq, Eq, Debug, Structural)]
pub enum PeerState {
    Unreachable,
    Connecting,
    Reachable,
}

/// Where a wire format has one name for a key, the key alone is the identity: what a
/// device calls itself is what a peer calls it that keeps its key, whatever else the
/// peer's record says.
pub proof fn one_key_is_one_device<W: Wire>(
    wire: W,
    own: Identity,
    record: PeerRecord,
    here: Seq<char>,
    there: Seq<char>,
)
    requires
        forall|a: Seq<char>, b: Seq<char>| #[trigger]
            called(wire, own.key(), a) && #[trigger] called(wire, own.key(), b) ==> a == b,
        record.public_key@ == own.key(),
        called(wire, own.key(), here),
        called(wire, record.public_key@, there),
    ensures
        here == there,
{
}

/// The same of the fingerprint.
pub proof fn one_key_has_one_fingerprint<W: Wire>(
    wire: W,
    own: Identity,
    record: PeerRecord,
    here: Seq<char>,
    there: Seq<char>,
)
    requires
        forall|a: Seq<char>, b: Seq<char>| #[trigger]
            recognised(wire, own.key(), a) && #[trigger] recognised(wire, own.key(), b) ==> a == b,
        record.public_key@ == own.key(),
        recognised(wire, own.key(), here),
        recognised(wire, record.public_key@, there),
    ensures
        here == there,
{
}

} // verus!
