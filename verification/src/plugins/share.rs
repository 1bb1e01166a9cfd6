//! `org.acrylius.share/1`: send a file.
//!
//! Only an offer, an endpoint and a result travel on the session; the bytes go
//! over a bulk connection keyed from it. The receiver says where to connect: a
//! phone cannot listen, so it always dials. Nothing is accepted until the host
//! asks a person.
use crate::body::{body_reads_back, from_bytes, to_bytes, value_of, Body};
use crate::cbor::{
    array_reads, bool_field, bool_item, bool_reads, close, end_of, every_end_is_later, field_bool,
    field_text, field_u64, got, head, open, open_at, open_moves_on, put_array, put_bool, put_text,
    put_uint, rest, stands_split, text_field, text_item, text_reads, uint_field, uint_reads,
};
use crate::ids::DeviceId;
use crate::link::BulkSupport;
use crate::plugin::{
    after, answer, both_ways, holdable, minted, BulkView, Cx, CxView, FaultView, Memory, Plugin, PluginError,
    PluginManifest, Told,
};
use crate::table::{kept, Table};
use crate::text::{copy_bytes, is_empty, join3, same};
use crate::vocab::{EffectKind, EffectResult, EffectToken, MINTED_HERE, TransferId, UiEvent, UiView};
use crate::wire::{Envelope, EnvelopeView, ErrorCode};
use vstd::prelude::*;

verus! {

pub const CAP: &'static str = "org.acrylius.share/1";

/// Refused at the offer rather than discovered gigabytes in.
pub const MAX_BYTES: u64 = 8 * 1024 * 1024 * 1024;

/// What a sender is offering.
#[derive(PartialEq, Eq, Debug)]
pub struct Offer {
    /// Chosen by the sender and unique within the session.
    pub transfer: u64,
    /// A file name, never a path; the receiver must make it safe.
    pub name: String,
    pub size: u64,
    pub mime: String,
}

impl Clone for Offer {
    fn clone(&self) -> (r: Offer)
        ensures
            r@ == self@,
    {
        Offer {
            transfer: self.transfer,
            name: self.name.clone(),
            size: self.size,
            mime: self.mime.clone(),
        }
    }
}

/// The receiver saying where to connect.
#[derive(Clone, PartialEq, Eq, Debug)]
pub struct Accept {
    pub transfer: u64,
    /// Transport-defined and opaque to this plugin.
    pub endpoint: String,
}

/// How a transfer ended, from whichever side noticed.
#[derive(Clone, PartialEq, Eq, Debug)]
pub struct Finished {
    pub transfer: u64,
    pub ok: bool,
    pub detail: String,
}

/// The model of an [`Offer`].
pub struct OfferView {
    pub transfer: u64,
    pub name: Seq<char>,
    pub size: u64,
    pub mime: Seq<char>,
}

impl View for Offer {
    type V = OfferView;

    open spec fn view(&self) -> OfferView {
        OfferView { transfer: self.transfer, name: self.name@, size: self.size, mime: self.mime@ }
    }
}

impl Body for Offer {
    open spec fn item(v: OfferView) -> Seq<u8> {
        head(4, 4) + head(0, v.transfer as int) + text_item(v.name) + head(0, v.size as int)
            + text_item(v.mime)
    }

    open spec fn item_at(b: Seq<u8>, at: int) -> Option<(OfferView, int)> {
        let transfer = uint_field(b, open_at(b, at), u64::MAX as int);
        let name = text_field(b, rest(transfer));
        let size = uint_field(b, rest(name), u64::MAX as int);
        let mime = text_field(b, rest(size));
        match end_of(b, rest(mime)) {
            Some(end) => Some(
                (
                    OfferView {
                        transfer: got(transfer) as u64,
                        name: got(name),
                        size: got(size) as u64,
                        mime: got(mime),
                    },
                    end,
                ),
            ),
            None => None,
        }
    }

    proof fn item_reads(w: Seq<u8>, at: int, v: OfferView) {
        let p0 = head(4, 4);
        let p1 = p0 + head(0, v.transfer as int);
        let p2 = p1 + text_item(v.name);
        let p3 = p2 + head(0, v.size as int);
        stands_split(w, at, p3, text_item(v.mime));
        stands_split(w, at, p2, head(0, v.size as int));
        stands_split(w, at, p1, text_item(v.name));
        stands_split(w, at, p0, head(0, v.transfer as int));
        array_reads(w, at, 4);
        uint_reads(w, at + p0.len(), v.transfer as int, u64::MAX as int);
        text_reads(w, at + p1.len(), v.name);
        uint_reads(w, at + p2.len(), v.size as int, u64::MAX as int);
        text_reads(w, at + p3.len(), v.mime);
    }

    proof fn item_moves_on(b: Seq<u8>, at: int) {
        open_moves_on(b, at);
        every_end_is_later(b);
    }

    fn put(&self, out: &mut Vec<u8>) {
        put_array(out, 4);
        put_uint(out, self.transfer);
        put_text(out, self.name.as_str());
        put_uint(out, self.size);
        put_text(out, self.mime.as_str());
        assert(out@ =~= old(out)@ + Self::item(self@));
    }

    fn get(b: &[u8], at: usize) -> (r: Option<(Offer, usize)>) {
        let c = open(b, at)?;
        let (transfer, c) = field_u64(b, c)?;
        let (name, c) = field_text(b, c)?;
        let (size, c) = field_u64(b, c)?;
        let (mime, c) = field_text(b, c)?;
        let end: usize = close(b, c)?;
        Some((Offer { transfer, name, size, mime }, end))
    }
}

/// The model of an [`Accept`].
pub struct AcceptView {
    pub transfer: u64,
    pub endpoint: Seq<char>,
}

impl View for Accept {
    type V = AcceptView;

    open spec fn view(&self) -> AcceptView {
        AcceptView { transfer: self.transfer, endpoint: self.endpoint@ }
    }
}

impl Body for Accept {
    open spec fn item(v: AcceptView) -> Seq<u8> {
        head(4, 2) + head(0, v.transfer as int) + text_item(v.endpoint)
    }

    open spec fn item_at(b: Seq<u8>, at: int) -> Option<(AcceptView, int)> {
        let transfer = uint_field(b, open_at(b, at), u64::MAX as int);
        let endpoint = text_field(b, rest(transfer));
        match end_of(b, rest(endpoint)) {
            Some(end) => Some(
                (
                    AcceptView {
                        transfer: got(transfer) as u64,
                        endpoint: got(endpoint),
                    },
                    end,
                ),
            ),
            None => None,
        }
    }

    proof fn item_reads(w: Seq<u8>, at: int, v: AcceptView) {
        let p0 = head(4, 2);
        let p1 = p0 + head(0, v.transfer as int);
        stands_split(w, at, p1, text_item(v.endpoint));
        stands_split(w, at, p0, head(0, v.transfer as int));
        array_reads(w, at, 2);
        uint_reads(w, at + p0.len(), v.transfer as int, u64::MAX as int);
        text_reads(w, at + p1.len(), v.endpoint);
    }

    proof fn item_moves_on(b: Seq<u8>, at: int) {
        open_moves_on(b, at);
        every_end_is_later(b);
    }

    fn put(&self, out: &mut Vec<u8>) {
        put_array(out, 2);
        put_uint(out, self.transfer);
        put_text(out, self.endpoint.as_str());
        assert(out@ =~= old(out)@ + Self::item(self@));
    }

    fn get(b: &[u8], at: usize) -> (r: Option<(Accept, usize)>) {
        let c = open(b, at)?;
        let (transfer, c) = field_u64(b, c)?;
        let (endpoint, c) = field_text(b, c)?;
        let end: usize = close(b, c)?;
        Some((Accept { transfer, endpoint }, end))
    }
}

/// The model of a [`Finished`].
pub struct FinishedView {
    pub transfer: u64,
    pub ok: bool,
    pub detail: Seq<char>,
}

impl View for Finished {
    type V = FinishedView;

    open spec fn view(&self) -> FinishedView {
        FinishedView { transfer: self.transfer, ok: self.ok, detail: self.detail@ }
    }
}

impl Body for Finished {
    open spec fn item(v: FinishedView) -> Seq<u8> {
        head(4, 3) + head(0, v.transfer as int) + bool_item(v.ok) + text_item(v.detail)
    }

    open spec fn item_at(b: Seq<u8>, at: int) -> Option<(FinishedView, int)> {
        let transfer = uint_field(b, open_at(b, at), u64::MAX as int);
        let ok = bool_field(b, rest(transfer));
        let detail = text_field(b, rest(ok));
        match end_of(b, rest(detail)) {
            Some(end) => Some(
                (
                    FinishedView {
                        transfer: got(transfer) as u64,
                        ok: got(ok),
                        detail: got(detail),
                    },
                    end,
                ),
            ),
            None => None,
        }
    }

    proof fn item_reads(w: Seq<u8>, at: int, v: FinishedView) {
        let p0 = head(4, 3);
        let p1 = p0 + head(0, v.transfer as int);
        let p2 = p1 + bool_item(v.ok);
        stands_split(w, at, p2, text_item(v.detail));
        stands_split(w, at, p1, bool_item(v.ok));
        stands_split(w, at, p0, head(0, v.transfer as int));
        array_reads(w, at, 3);
        uint_reads(w, at + p0.len(), v.transfer as int, u64::MAX as int);
        bool_reads(w, at + p1.len(), v.ok);
        text_reads(w, at + p2.len(), v.detail);
    }

    proof fn item_moves_on(b: Seq<u8>, at: int) {
        open_moves_on(b, at);
        every_end_is_later(b);
    }

    fn put(&self, out: &mut Vec<u8>) {
        put_array(out, 3);
        put_uint(out, self.transfer);
        put_bool(out, self.ok);
        put_text(out, self.detail.as_str());
        assert(out@ =~= old(out)@ + Self::item(self@));
    }

    fn get(b: &[u8], at: usize) -> (r: Option<(Finished, usize)>) {
        let c = open(b, at)?;
        let (transfer, c) = field_u64(b, c)?;
        let (ok, c) = field_bool(b, c)?;
        let (detail, c) = field_text(b, c)?;
        let end: usize = close(b, c)?;
        Some((Finished { transfer, ok, detail }, end))
    }
}

/// A transfer offered to this device.
struct Incoming {
    peer: DeviceId,
    offer: Offer,
    /// The envelope id of the offer, so a result can answer it.
    request: u32,
    /// The sender's number for this transfer. Everything back over the wire
    /// must use it; ours would name one of the sender's other transfers.
    offered_as: u64,
}

/// The model of a transfer offered to this device.
pub struct IncomingView {
    pub peer: Seq<char>,
    pub offer: OfferView,
    pub request: u32,
    pub offered_as: u64,
}

impl View for Incoming {
    type V = IncomingView;

    closed spec fn view(&self) -> IncomingView {
        IncomingView {
            peer: self.peer@,
            offer: self.offer@,
            request: self.request,
            offered_as: self.offered_as,
        }
    }
}

/// A transfer this device offered.
struct Outgoing {
    peer: DeviceId,
    offer: Offer,
}

/// The model of a transfer this device offered.
pub struct OutgoingView {
    pub peer: Seq<char>,
    pub offer: OfferView,
}

impl View for Outgoing {
    type V = OutgoingView;

    closed spec fn view(&self) -> OutgoingView {
        OutgoingView { peer: self.peer@, offer: self.offer@ }
    }
}

pub struct SharePlugin {
    /// Offers made to us that a human has not answered yet.
    offered: Table<u64, Incoming>,
    /// Offers we made that have not finished.
    sending: Table<u64, Outgoing>,
}

/// The model of a [`SharePlugin`].
#[verifier::ext_equal]
pub struct ShareView {
    pub offered: Map<u64, IncomingView>,
    pub sending: Map<u64, OutgoingView>,
}

impl View for SharePlugin {
    type V = ShareView;

    closed spec fn view(&self) -> ShareView {
        ShareView { offered: self.offered@, sending: self.sending@ }
    }
}

/// What a call leaves behind: the plugin, the context and the answer.
pub type Step = (ShareView, CxView, Result<(), FaultView>);

impl ShareView {
    /// Whether this outgoing transfer is the one we have with `peer`.
    pub open spec fn is_sending_to(self, peer: Seq<char>, transfer: u64) -> bool {
        self.sending.dom().contains(transfer) && self.sending[transfer].peer == peer
    }

    /// Whether our number `transfer` is for the one that `peer` calls
    /// `offered_as`.
    pub open spec fn is_from(self, peer: Seq<char>, offered_as: u64, transfer: u64) -> bool {
        &&& self.offered.dom().contains(transfer)
        &&& self.offered[transfer].peer == peer
        &&& self.offered[transfer].offered_as == offered_as
    }

    /// Whether `transfer` is the lowest of our numbers for the one that `peer`
    /// calls `offered_as`.
    pub open spec fn is_first_from(self, peer: Seq<char>, offered_as: u64, transfer: u64) -> bool {
        &&& self.is_from(peer, offered_as, transfer)
        &&& forall|t: u64| self.is_from(peer, offered_as, t) ==> transfer <= t
    }

    /// Our number for a transfer a peer is naming by its own.
    pub open spec fn incoming_from(self, peer: Seq<char>, offered_as: u64) -> Option<u64> {
        if exists|t: u64| self.is_first_from(peer, offered_as, t) {
            Some(choose|t: u64| self.is_first_from(peer, offered_as, t))
        } else {
            None
        }
    }

    /// Our number for a transfer a peer says has finished: ours for one we
    /// offered it, its own for one it offered us.
    pub open spec fn named_by(self, peer: Seq<char>, number: u64) -> Option<u64> {
        if self.is_sending_to(peer, number) {
            Some(number)
        } else {
            self.incoming_from(peer, number)
        }
    }

    /// What to call a transfer when speaking to the peer it is with: ours for
    /// something we offered, theirs for something they did.
    pub open spec fn as_the_peer_numbers_it(self, transfer: u64) -> u64 {
        if self.offered.dom().contains(transfer) {
            self.offered[transfer].offered_as
        } else {
            transfer
        }
    }

    /// The peer a transfer is with.
    pub open spec fn peer_of(self, transfer: u64) -> Option<Seq<char>> {
        if self.offered.dom().contains(transfer) {
            Some(self.offered[transfer].peer)
        } else if self.sending.dom().contains(transfer) {
            Some(self.sending[transfer].peer)
        } else {
            None
        }
    }

    /// The plugin once a transfer is over.
    pub open spec fn without(self, transfer: u64) -> ShareView {
        ShareView {
            offered: self.offered.remove(transfer),
            sending: self.sending.remove(transfer),
        }
    }

    /// The plugin once a peer has gone.
    pub open spec fn without_peer(self, peer: Seq<char>) -> ShareView {
        ShareView {
            offered: kept(self.offered, |i: IncomingView| i.peer != peer),
            sending: kept(self.sending, |o: OutgoingView| o.peer != peer),
        }
    }
}

/// An offer arrives. A device with nowhere to put a file refuses it; so is one
/// too large or without a name. The rest is renumbered and shown.
pub open spec fn offer_arrives(
    s: ShareView,
    cx: CxView,
    peer: Seq<char>,
    id: u32,
    body: Seq<u8>,
) -> Step {
    if !cx.serves.has(EffectKind::Share) {
        (s, cx, Err(FaultView::NotAllowed))
    } else {
        match value_of::<Offer>(body) {
            None => (s, cx, Err(FaultView::BadBody)),
            Some(o) => if o.size > MAX_BYTES {
                (s, cx, Err(FaultView::TooLarge))
            } else if o.name.len() == 0 {
                (s, cx, Err(FaultView::BadBody))
            } else {
                let t = minted(after(cx.next_transfer));
                (
                    ShareView {
                        offered: s.offered.insert(
                            t,
                            IncomingView { peer, offer: o, request: id, offered_as: o.transfer },
                        ),
                        ..s
                    },
                    CxView { next_transfer: after(cx.next_transfer), ..cx }.told(
                        peer,
                        CAP@,
                        "offer"@,
                        Offer::item(OfferView { transfer: t, ..o }),
                    ),
                    Ok(()),
                )
            },
        }
    }
}

/// A peer says where to connect for something we offered it.
pub open spec fn accept_arrives(s: ShareView, cx: CxView, peer: Seq<char>, body: Seq<u8>) -> Step {
    match value_of::<Accept>(body) {
        None => (s, cx, Err(FaultView::BadBody)),
        Some(a) => if !s.is_sending_to(peer, a.transfer) {
            (s, cx, Err(FaultView::NotAllowed))
        } else {
            (
                s,
                cx.bulked(BulkView::Send { peer, transfer: a.transfer, endpoint: a.endpoint }),
                Ok(()),
            )
        },
    }
}

/// A peer declines something we offered it.
pub open spec fn reject_arrives(s: ShareView, cx: CxView, peer: Seq<char>, body: Seq<u8>) -> Step {
    match value_of::<Finished>(body) {
        None => (s, cx, Err(FaultView::BadBody)),
        Some(f) => if !s.is_sending_to(peer, f.transfer) {
            (s, cx, Err(FaultView::NotAllowed))
        } else {
            (
                ShareView { sending: s.sending.remove(f.transfer), ..s },
                cx.told(peer, CAP@, "reject"@, Finished::item(f)),
                Ok(()),
            )
        },
    }
}

/// A peer says a transfer with it is over.
pub open spec fn finish_arrives(s: ShareView, cx: CxView, peer: Seq<char>, body: Seq<u8>) -> Step {
    match value_of::<Finished>(body) {
        None => (s, cx, Err(FaultView::BadBody)),
        Some(f) => match s.named_by(peer, f.transfer) {
            None => (s, cx, Err(FaultView::NotAllowed)),
            Some(t) => (
                s.without(t),
                cx.told(peer, CAP@, "finished"@, Finished::item(FinishedView { transfer: t, ..f })),
                Ok(()),
            ),
        },
    }
}

/// A message from a peer.
pub open spec fn message(
    s: ShareView,
    cx: CxView,
    peer: Seq<char>,
    id: u32,
    ty: Seq<char>,
    body: Seq<u8>,
) -> Step {
    if ty == "offer"@ {
        offer_arrives(s, cx, peer, id, body)
    } else if ty == "accept"@ {
        accept_arrives(s, cx, peer, body)
    } else if ty == "reject"@ {
        reject_arrives(s, cx, peer, body)
    } else if ty == "finished"@ {
        finish_arrives(s, cx, peer, body)
    } else {
        (s, cx, Err(FaultView::UnknownType(ty)))
    }
}

/// The words for a link that has no room for files.
pub open spec fn no_room(peer: Seq<char>) -> Seq<char> {
    "the link to "@ + peer + " cannot carry files. Reach it over the network for that."@
}

/// The host has a file to send.
pub open spec fn offer_made(s: ShareView, cx: CxView, peer: Seq<char>, body: Seq<u8>) -> Step {
    match value_of::<Offer>(body) {
        None => (s, cx, Err(FaultView::BadBody)),
        Some(o) => if o.size > MAX_BYTES {
            (s, cx, Err(FaultView::TooLarge))
        } else if cx.peer_bulk == Some(BulkSupport::Unsupported) {
            (
                s,
                cx.shown(
                    UiView::Error {
                        peer: Some(peer),
                        code: ErrorCode::NotAllowed,
                        detail: no_room(peer),
                    },
                ).told(
                    peer,
                    CAP@,
                    "reject"@,
                    Finished::item(
                        FinishedView {
                            transfer: o.transfer,
                            ok: false,
                            detail: "this link cannot carry files"@,
                        },
                    ),
                ),
                Ok(()),
            )
        } else {
            (
                ShareView {
                    sending: s.sending.insert(o.transfer, OutgoingView { peer, offer: o }),
                    ..s
                },
                cx.sent(peer, CAP@, "offer"@, body, None),
                Ok(()),
            )
        },
    }
}

/// A person said yes to something offered to us.
pub open spec fn accepted(s: ShareView, cx: CxView, body: Seq<u8>) -> Step {
    match value_of::<Finished>(body) {
        None => (s, cx, Err(FaultView::BadBody)),
        Some(f) => if !s.offered.dom().contains(f.transfer) {
            (s, cx, Err(FaultView::NotAllowed))
        } else {
            let i = s.offered[f.transfer];
            (
                s,
                cx.bulked(
                    BulkView::Listen {
                        peer: i.peer,
                        transfer: f.transfer,
                        offered_as: i.offered_as,
                        expect_bytes: i.offer.size,
                    },
                ),
                Ok(()),
            )
        },
    }
}

/// A person said no to something offered to us.
pub open spec fn rejected(s: ShareView, cx: CxView, body: Seq<u8>) -> Step {
    match value_of::<Finished>(body) {
        None => (s, cx, Err(FaultView::BadBody)),
        Some(f) => if !s.offered.dom().contains(f.transfer) {
            (s, cx, Err(FaultView::NotAllowed))
        } else {
            let i = s.offered[f.transfer];
            (
                ShareView { offered: s.offered.remove(f.transfer), ..s },
                cx.sent(
                    i.peer,
                    CAP@,
                    "reject"@,
                    Finished::item(FinishedView { transfer: i.offered_as, ..f }),
                    Some(i.request),
                ),
                Ok(()),
            )
        },
    }
}

/// A person changed their mind.
pub open spec fn cancelled(s: ShareView, cx: CxView, peer: Seq<char>, body: Seq<u8>) -> Step {
    match value_of::<Finished>(body) {
        None => (s, cx, Err(FaultView::BadBody)),
        Some(f) => (
            s.without(f.transfer),
            cx.bulked(BulkView::Cancel { transfer: f.transfer }).sent(
                peer,
                CAP@,
                "finished"@,
                Finished::item(
                    FinishedView { transfer: s.as_the_peer_numbers_it(f.transfer), ..f },
                ),
                None,
            ),
            Ok(()),
        ),
    }
}

/// A request from the local screen.
pub open spec fn local(
    s: ShareView,
    cx: CxView,
    peer: Seq<char>,
    ty: Seq<char>,
    body: Seq<u8>,
) -> Step {
    if ty == "offer"@ {
        offer_made(s, cx, peer, body)
    } else if ty == "accept"@ {
        accepted(s, cx, body)
    } else if ty == "reject"@ {
        rejected(s, cx, body)
    } else if ty == "cancel"@ {
        cancelled(s, cx, peer, body)
    } else {
        (s, cx, Err(FaultView::UnknownType(ty)))
    }
}

/// The host listens for a transfer: the sender is told where, under its own
/// number.
pub open spec fn listening(s: ShareView, cx: CxView, transfer: u64, endpoint: Seq<char>) -> CxView {
    if s.offered.dom().contains(transfer) {
        let i = s.offered[transfer];
        cx.sent(
            i.peer,
            CAP@,
            "accept"@,
            Accept::item(AcceptView { transfer: i.offered_as, endpoint }),
            Some(i.request),
        )
    } else {
        cx
    }
}

/// A transfer ended here. Both ends say how it went, each in the other's
/// numbers on the wire and in its own on the screen.
pub open spec fn finished(
    s: ShareView,
    cx: CxView,
    transfer: u64,
    ok: bool,
    detail: Seq<char>,
) -> CxView {
    match s.peer_of(transfer) {
        Some(peer) => cx.sent(
            peer,
            CAP@,
            "finished"@,
            Finished::item(
                FinishedView { transfer: s.as_the_peer_numbers_it(transfer), ok, detail },
            ),
            None,
        ).told(peer, CAP@, "finished"@, Finished::item(FinishedView { transfer, ok, detail })),
        None => cx,
    }
}

impl Default for SharePlugin {
    /// A plugin with no transfers.
    fn default() -> (p: SharePlugin)
        ensures
            p@.offered == Map::<u64, IncomingView>::empty(),
            p@.sending == Map::<u64, OutgoingView>::empty(),
    {
        SharePlugin { offered: Table::new(), sending: Table::new() }
    }
}

impl SharePlugin {
    /// How many offers made from here have not finished.
    pub fn unfinished(&self) -> (n: usize)
        ensures
            n == self@.sending.dom().len(),
    {
        self.sending.len()
    }

    /// Offers waiting on a decision, for a host to show.
    pub fn pending(&self) -> (r: Vec<(TransferId, DeviceId, Offer)>)
        ensures
            r@.map_values(|e: (TransferId, DeviceId, Offer)| e.0.0) == crate::table::ascending::<u64>(
                self@.offered.dom(),
            ),
            forall|k: int|
                0 <= k < r@.len() ==> {
                    &&& self@.offered.dom().contains((#[trigger] r@[k]).0.0)
                    &&& r@[k].1@ == self@.offered[r@[k].0.0].peer
                    &&& r@[k].2@ == self@.offered[r@[k].0.0].offer
                },
    {
        let mut out: Vec<(TransferId, DeviceId, Offer)> = Vec::new();
        let n: usize = self.offered.len();
        let ghost ks = self.offered.keys();
        for i in 0..n
            invariant
                ks == self.offered.keys(),
                n == ks.len(),
                out@.len() == i,
                forall|k: int|
                    0 <= k < i ==> {
                        &&& (#[trigger] out@[k]).0.0 == ks[k]
                        &&& self@.offered.dom().contains(out@[k].0.0)
                        &&& out@[k].1@ == self@.offered[out@[k].0.0].peer
                        &&& out@[k].2@ == self@.offered[out@[k].0.0].offer
                    },
        {
            let inc = self.offered.value_at(i);
            out.push((TransferId(*self.offered.key_at(i)), inc.peer.clone(), inc.offer.clone()));
        }
        assert(out@.map_values(|e: (TransferId, DeviceId, Offer)| e.0.0) =~= ks);
        out
    }

    /// Whether this outgoing transfer is the one we have with `peer`. A bare
    /// id names nothing, since every device numbers its own transfers from
    /// one, so an answer about a transfer must be checked against the peer.
    fn is_sending_to(&self, peer: &DeviceId, transfer: u64) -> (r: bool)
        ensures
            r == self@.is_sending_to(peer@, transfer),
    {
        match self.sending.get(&transfer) {
            Some(o) => o.peer.is(peer),
            None => false,
        }
    }

    /// Our number for a transfer a peer is naming by its own. Checked against
    /// the peer too, for the same reason as `is_sending_to`.
    fn incoming_from(&self, peer: &DeviceId, offered_as: u64) -> (r: Option<u64>)
        ensures
            r == self@.incoming_from(peer@, offered_as),
    {
        let n: usize = self.offered.len();
        let ghost ks = self.offered.keys();
        for i in 0..n
            invariant
                ks == self.offered.keys(),
                n == ks.len(),
                crate::table::sorted::<u64>(ks),
                ks.to_set() == self@.offered.dom(),
                forall|k: int| 0 <= k < i ==> !self@.is_from(peer@, offered_as, #[trigger] ks[k]),
        {
            let inc = self.offered.value_at(i);
            if inc.peer.is(peer) && inc.offered_as == offered_as {
                let t: u64 = *self.offered.key_at(i);
                proof {
                    assert(self@.is_from(peer@, offered_as, t));
                    assert forall|u: u64| self@.is_from(peer@, offered_as, u) implies t <= u by {
                        assert(ks.to_set().contains(u));
                        let j = choose|j: int| 0 <= j < ks.len() && ks[j] == u;
                        if j < i {
                            assert(!self@.is_from(peer@, offered_as, ks[j]));
                        }
                    }
                    assert(self@.is_first_from(peer@, offered_as, t));
                    let c = choose|c: u64| self@.is_first_from(peer@, offered_as, c);
                    assert(c <= t && t <= c);
                }
                return Some(t);
            }
        }
        proof {
            assert forall|u: u64| !self@.is_from(peer@, offered_as, u) by {
                if self@.is_from(peer@, offered_as, u) {
                    assert(ks.to_set().contains(u));
                    let j = choose|j: int| 0 <= j < ks.len() && ks[j] == u;
                    assert(!self@.is_from(peer@, offered_as, ks[j]));
                }
            }
        }
        None
    }

    /// What to call a transfer when speaking to the peer it is with.
    fn as_the_peer_numbers_it(&self, transfer: u64) -> (n: u64)
        ensures
            n == self@.as_the_peer_numbers_it(transfer),
    {
        match self.offered.get(&transfer) {
            Some(i) => i.offered_as,
            None => transfer,
        }
    }

    /// Shows a body on the local screen.
    fn announce<T: Body>(cx: &mut Cx, peer: &DeviceId, ty: &str, body: &T)
        ensures
            final(cx)@ == old(cx)@.told(peer@, CAP@, ty@, T::item(body@)),
    {
        cx.tell(peer, CAP, ty, to_bytes(body));
    }

    fn on_offer(&mut self, cx: &mut Cx, peer: &DeviceId, id: u32, body: &[u8]) -> (r: Result<
        (),
        PluginError,
    >)
        ensures
            (final(self)@, final(cx)@, answer(r)) == offer_arrives(
                old(self)@,
                old(cx)@,
                peer@,
                id,
                body@,
            ),
    {
        // A device with nowhere to put a file refuses now rather than waiting on
        // a person: a phone has no download directory to offer.
        if !cx.serves(EffectKind::Share) {
            return Err(PluginError::NotAllowed);
        }
        let offer = match from_bytes::<Offer>(body) {
            Some(o) => o,
            None => return Err(PluginError::BadBody),
        };
        if offer.size > MAX_BYTES {
            return Err(PluginError::TooLarge);
        }
        if is_empty(offer.name.as_str()) {
            return Err(PluginError::BadBody);
        }
        // Renumbered on arrival: the sender's id starts from one like everyone
        // else's, so two peers offering at once would collide under it. Kept as
        // `offered_as`, since every reply must use it.
        let transfer = cx.new_transfer();
        let offered_as: u64 = offer.transfer;
        self.offered.insert(
            transfer.0,
            Incoming { peer: peer.clone(), offer: offer.clone(), request: id, offered_as },
        );
        // Announced under our number: nothing above this layer ever sees the
        // sender's.
        let mut shown = offer;
        shown.transfer = transfer.0;
        Self::announce(cx, peer, "offer", &shown);
        // Nothing is accepted here. The host asks a person, and until it answers
        // the sender waits.
        Ok(())
    }

    fn on_finished(&mut self, cx: &mut Cx, peer: &DeviceId, body: &[u8]) -> (r: Result<
        (),
        PluginError,
    >)
        ensures
            (final(self)@, final(cx)@, answer(r)) == finish_arrives(old(self)@, old(cx)@, peer@, body@),
    {
        let mut f = match from_bytes::<Finished>(body) {
            Some(f) => f,
            None => return Err(PluginError::BadBody),
        };
        // Either direction may be finishing: a transfer we offered comes back
        // under our id, one offered to us under the sender's.
        let transfer: u64 = if self.is_sending_to(peer, f.transfer) {
            f.transfer
        } else {
            // Only the device the transfer is actually with may end it.
            match self.incoming_from(peer, f.transfer) {
                Some(t) => t,
                None => return Err(PluginError::NotAllowed),
            }
        };
        let _ = self.sending.remove(&transfer);
        let _ = self.offered.remove(&transfer);
        f.transfer = transfer;
        Self::announce(cx, peer, "finished", &f);
        Ok(())
    }

    fn offer_to(
        &mut self,
        cx: &mut Cx,
        peer: &DeviceId,
        body: &[u8],
    ) -> (r: Result<(), PluginError>)
        ensures
            (final(self)@, final(cx)@, answer(r)) == offer_made(old(self)@, old(cx)@, peer@, body@),
    {
        let offer = match from_bytes::<Offer>(body) {
            Some(o) => o,
            None => return Err(PluginError::BadBody),
        };
        if offer.size > MAX_BYTES {
            return Err(PluginError::TooLarge);
        }
        // Refused here, before the offer goes out: a link with no bulk support
        // (Bluetooth) can never finish a transfer, and the far end would only
        // discover that after accepting.
        if !cx.peer_can_carry_bulk() {
            cx.ui(
                UiEvent::Error {
                    peer: Some(peer.clone()),
                    code: ErrorCode::NotAllowed,
                    detail: join3(
                        "the link to ",
                        peer.as_str(),
                        " cannot carry files. Reach it over the network for that.",
                    ),
                },
            );
            // Reported as an ordinary rejection: refusing here makes no wire
            // traffic, so a host that learns endings from the wire would
            // otherwise show this as sending forever.
            Self::announce(
                cx,
                peer,
                "reject",
                &Finished {
                    transfer: offer.transfer,
                    ok: false,
                    detail: "this link cannot carry files".to_owned(),
                },
            );
            return Ok(());
        }
        let number: u64 = offer.transfer;
        self.sending.insert(number, Outgoing { peer: peer.clone(), offer });
        cx.send(peer, CAP, "offer", copy_bytes(body));
        Ok(())
    }
}

impl Plugin for SharePlugin {
    open spec fn memory(&self) -> Memory {
        Memory::Share(self@)
    }

    open spec fn may(
        &self,
        told: Told,
        cx: CxView,
        after: CxView,
        r: Result<(), FaultView>,
        next: Memory,
    ) -> bool {
        match told {
            Told::Message { peer, env } => {
                let (end, told, said) = message(self@, cx, peer, env.id, env.ty, env.body);
                after == told && r == said && next == Memory::Share(end)
            },
            Told::Local { peer, ty, body } => {
                let (end, told, said) = local(self@, cx, peer, ty, body);
                after == told && r == said && next == Memory::Share(end)
            },
            Told::Listening { transfer, endpoint } => {
                &&& next == self.memory()
                &&& after == listening(self@, cx, transfer, endpoint)
            },
            Told::Finished { transfer, ok, detail } => {
                &&& next == Memory::Share(self@.without(transfer))
                &&& after == finished(self@, cx, transfer, ok, detail)
            },
            Told::Disconnected { peer } => {
                &&& next == Memory::Share(self@.without_peer(peer))
                &&& after == cx
            },
            _ => after == cx && next == self.memory(),
        }
    }

    fn manifest(&self) -> (m: PluginManifest)
        ensures
            m@ == both_ways("org.acrylius.share"@, CAP@, seq![EffectKind::Share]),
    {
        // Files are the host's business: this plugin never opens one.
        let m = PluginManifest::both_ways("org.acrylius.share", CAP, vec![EffectKind::Share]);
        assert(m@.requires_effects =~= seq![EffectKind::Share]);
        m
    }

    fn on_peer_disconnected(&mut self, cx: &mut Cx, peer: &DeviceId)
        ensures
            final(self)@ == old(self)@.without_peer(peer@),
            final(cx)@ == old(cx)@,
    {
        // A transfer cannot outlive the session it was keyed from, so nothing
        // should still be waiting on one that has gone.
        let theirs = |i: &Incoming| -> (r: bool)
            ensures
                r == (i@.peer != peer@),
        {
            !i.peer.is(peer)
        };
        self.offered.retain(theirs, Ghost(|i: IncomingView| i.peer != peer@));
        let ours = |o: &Outgoing| -> (r: bool)
            ensures
                r == (o@.peer != peer@),
        {
            !o.peer.is(peer)
        };
        self.sending.retain(ours, Ghost(|o: OutgoingView| o.peer != peer@));
    }

    fn on_message(&mut self, cx: &mut Cx, peer: &DeviceId, env: &Envelope) -> (r: Result<
        (),
        PluginError,
    >)
        ensures
            (final(self)@, final(cx)@, answer(r)) == message(
                old(self)@,
                old(cx)@,
                peer@,
                env.id,
                env.ty@,
                env.body@,
            ),
    {
        let ty = env.ty.as_str();
        if same(ty, "offer") {
            self.on_offer(cx, peer, env.id, &env.body)
        } else if same(ty, "accept") {
            let accept = match from_bytes::<Accept>(&env.body) {
                Some(a) => a,
                None => return Err(PluginError::BadBody),
            };
            if !self.is_sending_to(peer, accept.transfer) {
                // An endpoint for a transfer never offered to this peer:
                // somewhere to connect chosen by someone else.
                return Err(PluginError::NotAllowed);
            }
            cx.bulk_send(peer, TransferId(accept.transfer), accept.endpoint.as_str());
            Ok(())
        } else if same(ty, "reject") {
            let f = match from_bytes::<Finished>(&env.body) {
                Some(f) => f,
                None => return Err(PluginError::BadBody),
            };
            if !self.is_sending_to(peer, f.transfer) {
                return Err(PluginError::NotAllowed);
            }
            let _ = self.sending.remove(&f.transfer);
            Self::announce(cx, peer, "reject", &f);
            Ok(())
        } else if same(ty, "finished") {
            self.on_finished(cx, peer, &env.body)
        } else {
            Err(PluginError::UnknownType(env.ty.clone()))
        }
    }

    fn on_local(&mut self, cx: &mut Cx, peer: &DeviceId, ty: &str, body: &[u8]) -> (r: Result<
        (),
        PluginError,
    >)
        ensures
            (final(self)@, final(cx)@, answer(r)) == local(old(self)@, old(cx)@, peer@, ty@, body@),
    {
        // The host has a file and an id for it. It keeps the path; this plugin
        // never learns one.
        if same(ty, "offer") {
            return self.offer_to(cx, peer, body);
        }
        if !same(ty, "accept") && !same(ty, "reject") && !same(ty, "cancel") {
            return Err(PluginError::UnknownType(ty.to_owned()));
        }
        let mut f = match from_bytes::<Finished>(body) {
            Some(f) => f,
            None => return Err(PluginError::BadBody),
        };
        let transfer: u64 = f.transfer;
        if same(ty, "accept") {
            match self.offered.get(&transfer) {
                // The endpoint reaches the peer only once the host has one; a
                // peer told to connect to nothing couldn't tell that from a
                // refusal. `offered_as`, the sender's number, drives the bulk
                // key.
                Some(i) => cx.bulk_listen(&i.peer, TransferId(transfer), i.offered_as, i.offer.size),
                None => return Err(PluginError::NotAllowed),
            }
        } else if same(ty, "reject") {
            match self.offered.remove(&transfer) {
                // Re-encoded rather than forwarded: the sender wouldn't
                // recognise the id this device uses.
                Some(i) => {
                    f.transfer = i.offered_as;
                    cx.send_reply(&i.peer, CAP, "reject", to_bytes(&f), i.request);
                },
                None => {
                    assert(self@.offered =~= old(self)@.offered);
                    return Err(PluginError::NotAllowed);
                },
            }
        } else {
            f.transfer = self.as_the_peer_numbers_it(transfer);
            let _ = self.offered.remove(&transfer);
            let _ = self.sending.remove(&transfer);
            cx.bulk_cancel(TransferId(transfer));
            cx.send(peer, CAP, "finished", to_bytes(&f));
        }
        Ok(())
    }

    fn on_bulk_listening(&mut self, cx: &mut Cx, transfer: TransferId, endpoint: &str)
        ensures
            final(self)@ == old(self)@,
            final(cx)@ == listening(old(self)@, old(cx)@, transfer.0, endpoint@),
    {
        match self.offered.get(&transfer.0) {
            // Under the sender's number. It is the sender that has to match this
            // against something, and it has never heard of ours.
            Some(i) => {
                let body = to_bytes(
                    &Accept { transfer: i.offered_as, endpoint: endpoint.to_owned() },
                );
                cx.send_reply(&i.peer, CAP, "accept", body, i.request);
            },
            None => {},
        }
    }

    fn on_bulk_finished(&mut self, cx: &mut Cx, transfer: TransferId, ok: bool, detail: &str)
        ensures
            final(self)@ == old(self)@.without(transfer.0),
            final(cx)@ == finished(old(self)@, old(cx)@, transfer.0, ok, detail@),
    {
        let peer: Option<DeviceId> = match self.offered.get(&transfer.0) {
            Some(i) => Some(i.peer.clone()),
            None => match self.sending.get(&transfer.0) {
                Some(o) => Some(o.peer.clone()),
                None => None,
            },
        };
        let theirs: u64 = self.as_the_peer_numbers_it(transfer.0);
        let _ = self.offered.remove(&transfer.0);
        let _ = self.sending.remove(&transfer.0);
        match peer {
            Some(peer) => {
                // The same ending, said twice in two numbering schemes: the
                // peer's outwards, and this device's upwards. Each end knows
                // only its own half: a sender can't know if the receiver kept
                // the file, a receiver can't tell a cancel from a dropped
                // connection.
                let mut f = Finished { transfer: theirs, ok, detail: detail.to_owned() };
                cx.send(&peer, CAP, "finished", to_bytes(&f));
                f.transfer = transfer.0;
                Self::announce(cx, &peer, "finished", &f);
            },
            None => {},
        }
    }

    fn on_peer_connected(&mut self, cx: &mut Cx, peer: &DeviceId)
        ensures
            *final(self) == *old(self),
            final(cx)@ == old(cx)@,
    {
    }

    fn on_effect_result(&mut self, cx: &mut Cx, token: EffectToken, result: &EffectResult)
        ensures
            *final(self) == *old(self),
            final(cx)@ == old(cx)@,
    {
    }

    fn on_tick(&mut self, cx: &mut Cx)
        ensures
            *final(self) == *old(self),
            final(cx)@ == old(cx)@,
    {
    }
}

/// Whether the numbers of what was offered to us and of what we offer are kept
/// apart: the first are minted here, the second are the host's own.
pub open spec fn numbers_apart(s: ShareView) -> bool {
    &&& forall|t: u64| #[trigger] s.offered.dom().contains(t) ==> t >= MINTED_HERE
    &&& forall|t: u64| #[trigger] s.sending.dom().contains(t) ==> t < MINTED_HERE
}

/// The numbers stay apart whatever a peer sends, and whatever the local screen
/// asks for as long as the host numbers its own files below the marker.
pub proof fn numbers_stay_apart(
    s: ShareView,
    cx: CxView,
    peer: Seq<char>,
    id: u32,
    ty: Seq<char>,
    body: Seq<u8>,
)
    requires
        numbers_apart(s),
        value_of::<Offer>(body) matches Some(o) ==> o.transfer < MINTED_HERE,
    ensures
        numbers_apart(message(s, cx, peer, id, ty, body).0),
        numbers_apart(local(s, cx, peer, ty, body).0),
{
}

/// A message from one peer leaves every transfer with another alone: a bare
/// number names nothing, since every device counts from one.
pub proof fn a_peer_touches_only_its_own(
    s: ShareView,
    cx: CxView,
    peer: Seq<char>,
    id: u32,
    ty: Seq<char>,
    body: Seq<u8>,
    t: u64,
)
    requires
        numbers_apart(s),
        !s.offered.dom().contains(minted(after(cx.next_transfer))),
    ensures
        ({
            let end = message(s, cx, peer, id, ty, body).0;
            &&& s.sending.dom().contains(t) && s.sending[t].peer != peer
                ==> end.sending.dom().contains(t) && end.sending[t] == s.sending[t]
            &&& s.offered.dom().contains(t) && s.offered[t].peer != peer
                ==> end.offered.dom().contains(t) && end.offered[t] == s.offered[t]
        }),
{
    match value_of::<Finished>(body) {
        Some(f) => {
            let n = f.transfer;
            if exists|u: u64| s.is_first_from(peer, n, u) {
                assert(s.is_from(peer, n, s.incoming_from(peer, n)->Some_0));
            }
        },
        None => {},
    }
}

/// Nothing a peer sends makes this device listen for a file: the only side
/// channel a message can open is towards a peer that was offered one.
pub proof fn only_a_person_accepts(
    s: ShareView,
    cx: CxView,
    peer: Seq<char>,
    id: u32,
    ty: Seq<char>,
    body: Seq<u8>,
)
    ensures
        ({
            let end = message(s, cx, peer, id, ty, body).1;
            ||| end.bulk == cx.bulk
            ||| exists|t: u64, e: Seq<char>|
                s.is_sending_to(peer, t) && end.bulk == cx.bulk.push(
                    #[trigger] send_request(peer, t, e),
                )
        }),
{
    if ty == "accept"@ {
        match value_of::<Accept>(body) {
            Some(a) => {
                assert(send_request(peer, a.transfer, a.endpoint) == BulkView::Send {
                    peer,
                    transfer: a.transfer,
                    endpoint: a.endpoint,
                });
            },
            None => {},
        }
    }
}

/// A request to dial `endpoint` and send a file there.
pub open spec fn send_request(peer: Seq<char>, transfer: u64, endpoint: Seq<char>) -> BulkView {
    BulkView::Send { peer, transfer, endpoint }
}

/// Two offers in a row each get a number of their own, whoever sends them and
/// whatever number they carry, until the counter has run through its half.
pub proof fn offers_do_not_collide(
    s: ShareView,
    cx: CxView,
    first: (Seq<char>, u32, Seq<u8>),
    second: (Seq<char>, u32, Seq<u8>),
)
    requires
        cx.next_transfer < MINTED_HERE - 2,
        offer_arrives(s, cx, first.0, first.1, first.2).2 is Ok,
    ensures
        ({
            let one = offer_arrives(s, cx, first.0, first.1, first.2);
            let two = offer_arrives(one.0, one.1, second.0, second.1, second.2);
            let a = minted(after(cx.next_transfer));
            let b = minted(after(one.1.next_transfer));
            two.2 is Ok ==> {
                &&& a != b
                &&& two.0.offered.dom().contains(a)
                &&& two.0.offered[a].peer == first.0
                &&& two.0.offered.dom().contains(b)
                &&& two.0.offered[b].peer == second.0
            }
        }),
{
}

/// A peer that has gone takes all its transfers with it, and no others.
pub proof fn a_departed_peer_has_no_transfers(s: ShareView, peer: Seq<char>, t: u64)
    ensures
        s.without_peer(peer).peer_of(t) != Some(peer),
        s.peer_of(t) matches Some(p) && p != peer && numbers_apart(s) ==> s.without_peer(peer).peer_of(
            t,
        ) == s.peer_of(t),
{
}

/// A transfer that is over is known under its number no more, so a second
/// ending for it is refused.
pub proof fn a_finished_transfer_is_forgotten(
    s: ShareView,
    cx: CxView,
    t: u64,
    ok: bool,
    detail: Seq<char>,
)
    ensures
        s.without(t).peer_of(t) is None,
        finished(s.without(t), cx, t, ok, detail) == cx,
{
}

proof fn verbs_differ()
    ensures
        "accept"@ != "offer"@,
        "reject"@ != "offer"@,
        "finished"@ != "offer"@,
        "cancel"@ != "offer"@,
        "reject"@ != "accept"@,
        "finished"@ != "accept"@,
        "cancel"@ != "accept"@,
        "finished"@ != "reject"@,
        "cancel"@ != "reject"@,
{
    reveal_strlit("offer");
    reveal_strlit("accept");
    reveal_strlit("reject");
    reveal_strlit("finished");
    reveal_strlit("cancel");
    assert("offer"@[0] == 'o' && "accept"@[0] == 'a' && "reject"@[0] == 'r' && "finished"@[0] == 'f'
        && "cancel"@[0] == 'c');
}

/// How a transfer ended is told as it was: the peer it was with and the screen both
/// hear whether it went well, and in which words it did not, the peer under the number
/// it knows the transfer by and the screen under ours. From there on it is over.
pub proof fn an_ending_is_told_as_it_was(
    p: SharePlugin,
    cx: CxView,
    transfer: u64,
    ok: bool,
    detail: Seq<char>,
    end: CxView,
    r: Result<(), FaultView>,
    next: Memory,
)
    requires
        p.may(Told::Finished { transfer, ok, detail }, cx, end, r, next),
        holdable(end),
    ensures
        ({
            let ours = p@.sending.dom().contains(transfer);
            let theirs = p@.offered.dom().contains(transfer);
            let m = end.sends.last();
            let peer = if theirs {
                p@.offered[transfer].peer
            } else {
                p@.sending[transfer].peer
            };
            let number = if theirs {
                p@.offered[transfer].offered_as
            } else {
                transfer
            };
            &&& !ours && !theirs ==> end == cx
            &&& ours || theirs ==> {
                &&& end == (CxView { sends: end.sends, ui: end.ui, ..cx })
                &&& end.sends.len() == cx.sends.len() + 1 && end.sends.drop_last() == cx.sends
                &&& m.peer == peer && m.cap == "org.acrylius.share/1"@ && m.ty == "finished"@
                &&& m.re is None
                &&& value_of::<Finished>(m.body) == Some(FinishedView { transfer: number, ok, detail })
                &&& end.ui.len() == cx.ui.len() + 1 && end.ui.drop_last() == cx.ui
                &&& end.ui.last() matches UiView::Plugin { peer: who, cap, ty, body } && who == peer
                    && cap == "org.acrylius.share/1"@ && ty == "finished"@ && value_of::<Finished>(
                    body,
                ) == Some(FinishedView { transfer, ok, detail })
            }
            &&& next matches Memory::Share(n) && {
                &&& n.offered == p@.offered.remove(transfer)
                &&& n.sending == p@.sending.remove(transfer)
            }
        }),
{
    assert(end.sends.len() > cx.sends.len() ==> end.sends.drop_last() =~= cx.sends);
    assert(end.ui.len() > cx.ui.len() ==> end.ui.drop_last() =~= cx.ui);
    if p@.peer_of(transfer) is Some {
        let number = p@.as_the_peer_numbers_it(transfer);
        assert(holdable(end) ==> end.sends.last().body.len() <= u64::MAX);
        assert(end.ui[end.ui.len() - 1] == end.ui.last());
        body_reads_back::<Finished>(FinishedView { transfer: number, ok, detail });
        body_reads_back::<Finished>(FinishedView { transfer, ok, detail });
    }
}

/// A file that a peer offers is remembered as that peer's, by the number the peer gave
/// it and the request it came in, under a number of this device's own; and the screen
/// is shown what is offered, under that number. One too large, without a name, or to
/// a device with nowhere to put it is refused, and nothing is remembered.
pub proof fn an_offer_is_shown_as_it_is(
    p: SharePlugin,
    cx: CxView,
    peer: Seq<char>,
    env: EnvelopeView,
    end: CxView,
    r: Result<(), FaultView>,
    next: Memory,
)
    requires
        p.may(Told::Message { peer, env }, cx, end, r, next),
        env.ty == "offer"@,
        holdable(end),
    ensures
        ({
            let serves = cx.serves.has(EffectKind::Share);
            match value_of::<Offer>(env.body) {
                Some(o) => {
                    let good = serves && o.size <= 8589934592 && o.name.len() > 0;
                    &&& r is Ok <==> good
                    &&& good ==> (next matches Memory::Share(n) && (end.ui.last() matches UiView::Plugin {
                        peer: who,
                        cap,
                        ty,
                        body,
                    } && (value_of::<Offer>(body) matches Some(shown) && {
                        let t = shown.transfer;
                        &&& who == peer && cap == "org.acrylius.share/1"@ && ty == "offer"@
                        &&& shown.name == o.name && shown.size == o.size && shown.mime == o.mime
                        &&& t >= 0x8000_0000_0000_0000
                        &&& cx.next_transfer < 0x7fff_ffff_ffff_ffff ==> t == cx.next_transfer + 1
                            + 0x8000_0000_0000_0000
                        &&& end.ui.len() == cx.ui.len() + 1 && end.ui.drop_last() == cx.ui
                        &&& end.sends == cx.sends && end.effects == cx.effects && end.bulk == cx.bulk
                        &&& n.sending == p@.sending
                        &&& n.offered == p@.offered.insert(
                            t,
                            IncomingView { peer, offer: o, request: env.id, offered_as: o.transfer },
                        )
                    })))
                    &&& serves && o.size > 8589934592 ==> r == Err::<(), FaultView>(FaultView::TooLarge)
                },
                None => r is Err,
            }
        }),
        !cx.serves.has(EffectKind::Share) ==> r == Err::<(), FaultView>(FaultView::NotAllowed),
        r is Err ==> end == cx && next == Memory::Share(p@),
{
    match value_of::<Offer>(env.body) {
        Some(o) => {
            let t = minted(after(cx.next_transfer));
            if r is Ok {
                assert(end.ui[end.ui.len() - 1] == end.ui.last());
                body_reads_back::<Offer>(OfferView { transfer: t, ..o });
            }
            assert(end.ui.len() > cx.ui.len() ==> end.ui.drop_last() =~= cx.ui);
        },
        None => {},
    }
}

/// Where this device listens for a file goes to the peer that offered it, as the answer
/// to the offer and by the peer's own number; of a file nobody offered, nobody is told.
pub proof fn where_to_send_is_told_to_the_offerer(
    p: SharePlugin,
    cx: CxView,
    transfer: u64,
    endpoint: Seq<char>,
    end: CxView,
    r: Result<(), FaultView>,
    next: Memory,
)
    requires
        p.may(Told::Listening { transfer, endpoint }, cx, end, r, next),
        holdable(end),
    ensures
        next == Memory::Share(p@),
        !p@.offered.dom().contains(transfer) ==> end == cx,
        p@.offered.dom().contains(transfer) ==> {
            let o = p@.offered[transfer];
            let m = end.sends.last();
            &&& end == (CxView { sends: end.sends, ..cx })
            &&& end.sends.len() == cx.sends.len() + 1 && end.sends.drop_last() == cx.sends
            &&& m.peer == o.peer && m.cap == "org.acrylius.share/1"@ && m.ty == "accept"@ && m.re
                == Some(o.request)
            &&& value_of::<Accept>(m.body) == Some(
                AcceptView { transfer: o.offered_as, endpoint },
            )
        },
{
    assert(end.sends.len() > cx.sends.len() ==> end.sends.drop_last() =~= cx.sends);
    if p@.offered.dom().contains(transfer) {
        assert(end.sends[end.sends.len() - 1] == end.sends.last());
        body_reads_back::<Accept>(
            AcceptView { transfer: p@.offered[transfer].offered_as, endpoint },
        );
    }
}

/// A file goes where the peer that it was offered to says, and nowhere that anybody
/// else says.
pub proof fn a_file_goes_where_its_taker_says(
    p: SharePlugin,
    cx: CxView,
    peer: Seq<char>,
    env: EnvelopeView,
    end: CxView,
    r: Result<(), FaultView>,
    next: Memory,
)
    requires
        p.may(Told::Message { peer, env }, cx, end, r, next),
        env.ty == "accept"@,
    ensures
        next == Memory::Share(p@),
        match value_of::<Accept>(env.body) {
            None => r == Err::<(), FaultView>(FaultView::BadBody) && end == cx,
            Some(a) => if p@.sending.dom().contains(a.transfer) && p@.sending[a.transfer].peer
                == peer {
                &&& r is Ok
                &&& end == cx.bulked(
                    BulkView::Send { peer, transfer: a.transfer, endpoint: a.endpoint },
                )
            } else {
                r == Err::<(), FaultView>(FaultView::NotAllowed) && end == cx
            },
        },
{
    verbs_differ();
}

/// A file that is offered from here is remembered as offered to that peer, and the
/// offer goes out as it was written; but not one that is too large, nor over a link
/// that cannot carry files, where the screen is told that the file was not sent.
pub proof fn an_offer_goes_out_as_it_is(
    p: SharePlugin,
    cx: CxView,
    peer: Seq<char>,
    body: Seq<u8>,
    end: CxView,
    r: Result<(), FaultView>,
    next: Memory,
)
    requires
        p.may(Told::Local { peer, ty: "offer"@, body }, cx, end, r, next),
        holdable(end),
    ensures
        match value_of::<Offer>(body) {
            None => r == Err::<(), FaultView>(FaultView::BadBody) && end == cx && next
                == Memory::Share(p@),
            Some(o) => if o.size > 8589934592 {
                r == Err::<(), FaultView>(FaultView::TooLarge) && end == cx && next == Memory::Share(p@)
            } else if cx.peer_bulk == Some(BulkSupport::Unsupported) {
                &&& r is Ok
                &&& next == Memory::Share(p@)
                &&& end.sends == cx.sends && end.bulk == cx.bulk
                &&& end.ui.len() == cx.ui.len() + 2
                &&& end.ui[cx.ui.len() as int] matches UiView::Error { peer: who, .. } && who
                    == Some(peer)
                &&& end.ui.last() matches UiView::Plugin { peer: who, ty, body: told, .. } && who == peer
                    && ty == "reject"@ && (value_of::<Finished>(told) matches Some(f) && f.transfer
                    == o.transfer && !f.ok)
            } else {
                &&& r is Ok
                &&& end == cx.sent(peer, "org.acrylius.share/1"@, "offer"@, body, None)
                &&& next matches Memory::Share(n) && n.offered == p@.offered && n.sending
                    == p@.sending.insert(o.transfer, OutgoingView { peer, offer: o })
            },
        },
{
    match value_of::<Offer>(body) {
        Some(o) => {
            if o.size <= MAX_BYTES && cx.peer_bulk == Some(BulkSupport::Unsupported) {
                assert(end.ui[end.ui.len() - 1] == end.ui.last());
                body_reads_back::<Finished>(
                    FinishedView {
                        transfer: o.transfer,
                        ok: false,
                        detail: "this link cannot carry files"@,
                    },
                );
            }
        },
        None => {},
    }
}

/// A person who says yes to a file makes the device listen for it, from the peer that
/// offered it and for as many bytes as it offered; one who says no has the offerer told
/// so, by its own number and as the answer to its offer, and the file is forgotten. Of
/// a file nobody offered, neither does anything.
pub proof fn a_person_decides_about_an_offer(
    p: SharePlugin,
    cx: CxView,
    peer: Seq<char>,
    ty: Seq<char>,
    body: Seq<u8>,
    end: CxView,
    r: Result<(), FaultView>,
    next: Memory,
)
    requires
        p.may(Told::Local { peer, ty, body }, cx, end, r, next),
        ty == "accept"@ || ty == "reject"@,
        holdable(end),
    ensures
        match value_of::<Finished>(body) {
            None => r == Err::<(), FaultView>(FaultView::BadBody) && end == cx && next
                == Memory::Share(p@),
            Some(f) => if !p@.offered.dom().contains(f.transfer) {
                r == Err::<(), FaultView>(FaultView::NotAllowed) && end == cx && next == Memory::Share(p@)
            } else {
                let o = p@.offered[f.transfer];
                let m = end.sends.last();
                &&& r is Ok
                &&& ty == "accept"@ ==> next == Memory::Share(p@) && end == cx.bulked(
                    BulkView::Listen {
                        peer: o.peer,
                        transfer: f.transfer,
                        offered_as: o.offered_as,
                        expect_bytes: o.offer.size,
                    },
                )
                &&& ty == "reject"@ ==> {
                    &&& end == (CxView { sends: end.sends, ..cx })
                    &&& end.sends.len() == cx.sends.len() + 1 && end.sends.drop_last() == cx.sends
                    &&& m.peer == o.peer && m.cap == "org.acrylius.share/1"@ && m.ty == "reject"@ && m.re
                        == Some(o.request)
                    &&& value_of::<Finished>(m.body) == Some(
                        FinishedView { transfer: o.offered_as, ok: f.ok, detail: f.detail },
                    )
                    &&& next matches Memory::Share(n) && n.sending == p@.sending && n.offered
                        == p@.offered.remove(f.transfer)
                }
            },
        },
{
    verbs_differ();
    assert(end.sends.len() > cx.sends.len() ==> end.sends.drop_last() =~= cx.sends);
    match value_of::<Finished>(body) {
        Some(f) => {
            if p@.offered.dom().contains(f.transfer) && ty == "reject"@ {
                assert(end.sends[end.sends.len() - 1] == end.sends.last());
                body_reads_back::<Finished>(
                    FinishedView { transfer: p@.offered[f.transfer].offered_as, ..f },
                );
            }
        },
        None => {},
    }
}

/// A person who changes their mind has the host stop, the transfer forgotten, and the
/// peer told that it is over, in the words and by the number the peer knows.
pub proof fn a_cancelled_transfer_is_called_off(
    p: SharePlugin,
    cx: CxView,
    peer: Seq<char>,
    body: Seq<u8>,
    end: CxView,
    r: Result<(), FaultView>,
    next: Memory,
)
    requires
        p.may(Told::Local { peer, ty: "cancel"@, body }, cx, end, r, next),
        holdable(end),
    ensures
        match value_of::<Finished>(body) {
            None => r == Err::<(), FaultView>(FaultView::BadBody) && end == cx && next
                == Memory::Share(p@),
            Some(f) => {
                let m = end.sends.last();
                let number = if p@.offered.dom().contains(f.transfer) {
                    p@.offered[f.transfer].offered_as
                } else {
                    f.transfer
                };
                &&& r is Ok
                &&& end == (CxView { sends: end.sends, bulk: end.bulk, ..cx })
                &&& end.bulk.len() == cx.bulk.len() + 1 && end.bulk.last() == (BulkView::Cancel {
                    transfer: f.transfer,
                })
                &&& end.sends.len() == cx.sends.len() + 1 && end.sends.drop_last() == cx.sends
                &&& m.peer == peer && m.cap == "org.acrylius.share/1"@ && m.ty == "finished"@
                &&& value_of::<Finished>(m.body) == Some(
                    FinishedView { transfer: number, ok: f.ok, detail: f.detail },
                )
                &&& next matches Memory::Share(n) && n.offered == p@.offered.remove(f.transfer)
                    && n.sending == p@.sending.remove(f.transfer)
            },
        },
{
    verbs_differ();
    assert(end.sends.len() > cx.sends.len() ==> end.sends.drop_last() =~= cx.sends);
    match value_of::<Finished>(body) {
        Some(f) => {
            let number = p@.as_the_peer_numbers_it(f.transfer);
            assert(end.sends[end.sends.len() - 1] == end.sends.last());
            body_reads_back::<Finished>(FinishedView { transfer: number, ..f });
        },
        None => {},
    }
}

/// What a peer says of the end of a transfer is shown as the peer said it, under the
/// number this device has for it, and the transfer is over: one that was offered to
/// the peer it names by its own number, one that the peer offered by the peer's. A peer
/// that declines a file is likewise shown as it said. Neither can speak of a transfer
/// with anybody else.
pub proof fn what_a_peer_says_of_the_end_is_shown(
    p: SharePlugin,
    cx: CxView,
    peer: Seq<char>,
    env: EnvelopeView,
    end: CxView,
    r: Result<(), FaultView>,
    next: Memory,
)
    requires
        p.may(Told::Message { peer, env }, cx, end, r, next),
        env.ty == "finished"@ || env.ty == "reject"@,
        holdable(end),
    ensures
        r is Err ==> end == cx && next == Memory::Share(p@),
        match value_of::<Finished>(env.body) {
            None => r == Err::<(), FaultView>(FaultView::BadBody),
            Some(f) => {
                let sent = p@.sending.dom().contains(f.transfer) && p@.sending[f.transfer].peer == peer;
                &&& sent ==> r is Ok
                &&& env.ty == "reject"@ && !sent ==> r == Err::<(), FaultView>(FaultView::NotAllowed)
                &&& env.ty == "finished"@ && !sent ==> (r is Ok <==> exists|t: u64| #[trigger]
                    p@.offered.dom().contains(t) && p@.offered[t].peer == peer
                        && p@.offered[t].offered_as == f.transfer)
                &&& r is Ok ==> {
                    &&& end == (CxView { ui: end.ui, ..cx })
                    &&& end.ui.len() == cx.ui.len() + 1 && end.ui.drop_last() == cx.ui
                    &&& end.ui.last() matches UiView::Plugin { peer: who, cap, ty, body } && who == peer
                        && cap == "org.acrylius.share/1"@ && ty == env.ty && (value_of::<Finished>(
                        body,
                    ) matches Some(shown) && (next matches Memory::Share(n) && {
                        let t = shown.transfer;
                        &&& shown.ok == f.ok && shown.detail == f.detail
                        &&& sent ==> t == f.transfer
                        &&& !sent ==> p@.offered.dom().contains(t) && p@.offered[t].peer == peer
                            && p@.offered[t].offered_as == f.transfer
                        &&& n.sending == p@.sending.remove(t)
                        &&& env.ty == "finished"@ ==> n.offered == p@.offered.remove(t)
                        &&& env.ty == "reject"@ ==> n.offered == p@.offered
                    }))
                }
            },
        },
{
    verbs_differ();
    assert(end.ui.len() > cx.ui.len() ==> end.ui.drop_last() =~= cx.ui);
    match value_of::<Finished>(env.body) {
        Some(f) => {
            if r is Ok {
                assert(end.ui[end.ui.len() - 1] == end.ui.last());
            }
            if env.ty == "reject"@ && r is Ok {
                body_reads_back::<Finished>(f);
            }
            if env.ty == "finished"@ && !p@.is_sending_to(peer, f.transfer) {
                the_first_is_found(p@, peer, f.transfer);
                match p@.incoming_from(peer, f.transfer) {
                    Some(t) => {
                        assert(p@.is_first_from(peer, f.transfer, t));
                        assert(p@.offered.dom().contains(t));
                    },
                    None => {
                        if exists|t: u64| #[trigger]
                            p@.offered.dom().contains(t) && p@.offered[t].peer == peer
                                && p@.offered[t].offered_as == f.transfer {
                            let t = choose|t: u64| #[trigger]
                                p@.offered.dom().contains(t) && p@.offered[t].peer == peer
                                    && p@.offered[t].offered_as == f.transfer;
                            assert(p@.is_from(peer, f.transfer, t));
                        }
                    },
                }
            }
            match p@.named_by(peer, f.transfer) {
                Some(t) => if env.ty == "finished"@ {
                    body_reads_back::<Finished>(FinishedView { transfer: t, ..f });
                },
                None => {},
            }
        },
        None => {},
    }
}

proof fn the_first_is_found(s: ShareView, peer: Seq<char>, number: u64)
    ensures
        s.incoming_from(peer, number) is None ==> forall|t: u64| !s.is_from(peer, number, t),
{
    if exists|t: u64| s.is_from(peer, number, t) {
        let t = choose|t: u64| s.is_from(peer, number, t);
        lowest_is_first(s, peer, number, t);
    }
}

proof fn lowest_is_first(s: ShareView, peer: Seq<char>, number: u64, t: u64)
    requires
        s.is_from(peer, number, t),
    ensures
        exists|u: u64| s.is_first_from(peer, number, u),
    decreases t,
{
    if exists|u: u64| s.is_from(peer, number, u) && u < t {
        let u = choose|u: u64| s.is_from(peer, number, u) && u < t;
        lowest_is_first(s, peer, number, u);
    } else {
        assert(s.is_first_from(peer, number, t));
    }
}

/// When a peer goes, so do all transfers with it; those with anybody else stay as they
/// were.
pub proof fn a_departure_ends_its_transfers(
    p: SharePlugin,
    cx: CxView,
    peer: Seq<char>,
    end: CxView,
    r: Result<(), FaultView>,
    next: Memory,
    t: u64,
)
    requires
        p.may(Told::Disconnected { peer }, cx, end, r, next),
    ensures
        end == cx,
        next matches Memory::Share(n) && {
            &&& n.offered.dom().contains(t) <==> p@.offered.dom().contains(t) && p@.offered[t].peer
                != peer
            &&& n.offered.dom().contains(t) ==> n.offered[t] == p@.offered[t]
            &&& n.sending.dom().contains(t) <==> p@.sending.dom().contains(t) && p@.sending[t].peer
                != peer
            &&& n.sending.dom().contains(t) ==> n.sending[t] == p@.sending[t]
        },
{
}

/// A file may be as long as eight gibibytes and no longer.
pub proof fn a_file_may_be_so_long()
    ensures
        MAX_BYTES == 8_589_934_592,
{
}

/// A file that no link can carry is refused by the name of the peer it was for.
pub proof fn a_link_without_room_is_named(peer: Seq<char>)
    ensures
        no_room(peer) == "the link to "@ + peer
            + " cannot carry files. Reach it over the network for that."@,
{
}

} // verus!
