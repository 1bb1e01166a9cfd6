//! What comes of a step, said of what went into it.
use crate::engine::events::{close_trace, complained, unkeep};
use crate::engine::frames::{answered, handler, left, End, FoundV, Opened, Opener, Turn};
use crate::engine::laws::{
    all_told_ran, grows, message_step, plugins_reach_no_further, waits,
};
use crate::engine::model::{
    able, best, better, carries, first_with, is_best, link_deadline, owners_of_bulk,
    owners_of_effects, seals, shows, ui, AwaitV, DialV, Greeted, HeardV, LinkV, Out, PeerV, Sealed, ShakingV,
    State, UpV,
};
use crate::engine::promises::some_link_is_best;
use crate::engine::sends::error_answer;
use crate::engine::sessions::ends_reach;
use crate::engine::{nearby_view, Core, Nearby, PendingPairing};
use crate::ids::{DeviceId, Fingerprint};
use crate::link::{
    in_preference, BulkSupport, LinkAttrs, LinkDownReason, LinkId, ReasonView, TransportId,
    TransportKind,
};
use crate::noise::{x25519_public, Handshake, SessionView};
use crate::peer::{record_bytes, PeerRecord, PeerState};
use crate::plugin::{BulkView, CxView, FaultView, ManifestView, SendView, Told};
use crate::table::{ascending, each_is_listed_once, numbers_are_finite};
use crate::text::{decimal, texts};
use crate::vocab::{
    ActionView, DialToken, DiscoveredPeer, EffectResult, EffectToken, EffectView, Event,
    LocalCommand, Now, Outcome, Sensitivity, TransferId, UiView,
};
use crate::wire::{
    called, digits, envelope_read, envelope_written, hello_read, joins, recognised, secret,
    shared_is_in_both, splits, transfer_key, EnvelopeView, ErrorCode, FrameKind, HelloView, Wire,
};
use vstd::prelude::*;

verus! {

// -------------------------------------------------------------------- pairing

/// Whether what waits for a person is the far end of a handshake: its key, what the
/// key is known by, what it said of itself, and the digits and the secret of the
/// handshake's hash.
pub open spec fn stands_for<W: Wire>(
    wire: W,
    hs: Handshake,
    payload: Seq<u8>,
    a: AwaitV,
) -> bool {
    &&& hs.remote() == Some(a.record.public_key)
    &&& called(wire, a.record.public_key, a.id)
    &&& a.record.device_id == a.id
    &&& recognised(wire, a.record.public_key, a.fingerprint)
    &&& digits(wire, hs.hash(), a.sas)
    &&& secret(wire, hs.hash(), a.record.session_psk)
    &&& a.record.greatest_seen == 0
    &&& exists|h: HelloView|
        #[trigger] hello_read(wire, payload, Some(h)) && h.name == a.record.name && h.platform
            == a.record.platform && h.caps_out == a.record.caps_out && h.caps_in
            == a.record.caps_in
}

/// Whether an action puts digits on the screen.
pub open spec fn shows_digits(a: ActionView) -> bool {
    a matches ActionView::Ui(e) && e is PairingSas
}

/// A pairing handshake that finds its partner, while the slot is free, puts one thing
/// on the screen: the partner's name and fingerprint, and the digits of the
/// handshake's hash. The same digits wait for a person's answer, and nothing is kept.
pub proof fn a_found_partner_is_shown_with_the_digits<W: Wire>(
    s: State<W>,
    now: u64,
    link: u64,
    h: ShakingV,
    payload: Seq<u8>,
    hs: Handshake,
    f: FoundV,
    out: Out,
)
    requires
        h.pairing_flow,
        s.end_fits(h, payload, hs, End::Found(f)),
        s.pairing matches Some(w) && w.awaiting is None,
    ensures
        ({
            let (s2, out2, news) = s.handshake_end(now, link, h, End::Found(f), out);
            &&& news is None
            &&& out2.len() == out.len() + 1
            &&& out2.drop_last() == out
            &&& waits(s2)
            &&& ({
                let a = s2.pairing->Some_0.awaiting->Some_0;
                &&& out2.last() == ActionView::Ui(
                    UiView::PairingSas {
                        name: a.record.name,
                        fingerprint: a.fingerprint,
                        sas: a.sas,
                    },
                )
                &&& stands_for(s.wire, hs, payload, a)
                &&& a.link == link
                &&& a.via == h.via
            })
            &&& s2.peers == s.peers
            &&& s2.addrs == s.addrs
        }),
{
    let (s2, out2, news) = s.handshake_end(now, link, h, End::Found(f), out);
    assert(out2.drop_last() =~= out);
}

/// Two ends of one pairing handshake put the digits of one hash on their screens,
/// each beside what the other's key is known by.
pub proof fn both_screens_show_the_digits_of_one_hash<W: Wire>(
    a: State<W>,
    h: ShakingV,
    hs: Handshake,
    payload: Seq<u8>,
    f: FoundV,
    b: State<W>,
    h2: ShakingV,
    hs2: Handshake,
    payload2: Seq<u8>,
    f2: FoundV,
    now: u64,
    link: u64,
    link2: u64,
)
    requires
        h.pairing_flow,
        h2.pairing_flow,
        a.end_fits(h, payload, hs, End::Found(f)),
        b.end_fits(h2, payload2, hs2, End::Found(f2)),
        a.pairing matches Some(w) && w.awaiting is None,
        b.pairing matches Some(w) && w.awaiting is None,
        hs.in_step(hs2),
        hs2.in_step(hs),
    ensures
        ({
            let out = a.handshake_end(now, link, h, End::Found(f), Seq::empty()).1;
            let out2 = b.handshake_end(now, link2, h2, End::Found(f2), Seq::empty()).1;
            &&& out.len() == 1
            &&& out2.len() == 1
            &&& out[0] matches ActionView::Ui(UiView::PairingSas { fingerprint, sas, .. }) && digits(
                a.wire,
                hs.hash(),
                sas,
            ) && recognised(a.wire, x25519_public(hs2.origin().private), fingerprint)
            &&& out2[0] matches ActionView::Ui(UiView::PairingSas { fingerprint, sas, .. })
                && digits(b.wire, hs.hash(), sas) && recognised(
                b.wire,
                x25519_public(hs.origin().private),
                fingerprint,
            )
        }),
{
}

/// Whatever a frame brings, the digits that go to the screen are the ones that then
/// wait for an answer, and they go there once: exactly when something begins to wait.
/// They are the digits of the hash of the handshake on that link.
pub proof fn the_digits_on_the_screen_are_the_ones_that_wait<W: Wire>(
    s: State<W>,
    now: u64,
    link: LinkId,
    msg: Vec<u8>,
    s2: State<W>,
    out2: Out,
)
    requires
        s.handled(now, Event::LinkRecv { link, msg }, s2, out2),
        !waits(s),
        waits(s2),
    ensures
        ({
            let a = s2.pairing->Some_0.awaiting->Some_0;
            &&& out2.len() > 0
            &&& out2.last() == ActionView::Ui(
                UiView::PairingSas {
                    name: a.record.name,
                    fingerprint: a.fingerprint,
                    sas: a.sas,
                },
            )
            &&& forall|k: int| 0 <= k < out2.len() - 1 ==> !shows_digits(#[trigger] out2[k])
            &&& a.link == link.0
            &&& s.links.dom().contains(link.0)
            &&& s.links[link.0] matches LinkV::Handshaking(h) && h.pairing_flow
            &&& exists|hs: Handshake, payload: Seq<u8>| #[trigger]
                stands_for(s.wire, hs, payload, a)
        }),
{
    let out: Out = Seq::empty();
    let (frame, greeted, opener, turn, opened) = choose|
        frame: Option<(FrameKind, Seq<u8>)>,
        greeted: Greeted,
        opener: Opener,
        turn: Turn,
        opened: Opened,
    | #[trigger]
        s.received(now, link.0, msg@, frame, greeted, opener, turn, opened, out, s2, out2);
    let less = s.without_link(link.0);
    assert(frame is Some && s.links.dom().contains(link.0));
    let (kind, body) = frame->Some_0;
    match s.links[link.0] {
        LinkV::Pending { attrs, deadline } => {
            let (s1, o, news) = less.first_frame(
                now,
                link.0,
                attrs,
                deadline,
                kind,
                greeted,
                opener,
                out,
            );
            ends_reach(s1, o, news, now, s2, out2);
            assert(s2.pairing == s1.pairing);
        },
        LinkV::Handshaking(h) => {
            let (s1, o, news) = less.handshake_frame(now, link.0, h, kind, turn, out);
            ends_reach(s1, o, news, now, s2, out2);
            assert(s2.pairing == s1.pairing);
            assert(h.pairing_flow);
            let (said, hs, end) = (turn->Went_0, turn->Went_1, turn->Went_2);
            let (payload, mid) = choose|payload: Seq<u8>, mid: Handshake|
                #[trigger] h.hs.has_read(body, payload, mid) && less.went_fits(
                    h,
                    payload,
                    mid,
                    said,
                    hs,
                    end,
                );
            assert(stands_for(s.wire, hs, payload, s2.pairing->Some_0.awaiting->Some_0));
        },
        LinkV::Up(u) => {
            if kind == FrameKind::Transport && opened is Message {
                let heard = less.heard_from(now, link.0, u);
                message_step(heard, now, u, opened->Message_0, out, s2, out2);
            } else if kind != FrameKind::Transport || opened is Sealed {
                let detail = if kind != FrameKind::Transport {
                    "handshake frame on an established link"@
                } else {
                    opened->Sealed_0
                };
                let (s1, o, news) = less.fail_up_link(now, link.0, u, detail, out);
                ends_reach(s1, o, news, now, s2, out2);
            }
            assert(s2.pairing == s.pairing);
        },
    }
}

/// What is read back of a pairing that waits is what the screen was given.
pub proof fn what_waits_can_be_read_back<W: Wire>(
    c: Core<W>,
    t: Option<&str>,
    p: Option<PendingPairing>,
    open: bool,
)
    requires
        call_ensures(Core::<W>::pending_sas, (&c,), t),
        call_ensures(Core::<W>::pending_pairing, (&c,), p),
        call_ensures(Core::<W>::pairing_open, (&c,), open),
    ensures
        t is Some <==> waits(c@),
        p is Some <==> waits(c@),
        open <==> c@.pairing is Some,
        waits(c@) ==> {
            let a = c@.pairing->Some_0.awaiting->Some_0;
            &&& t->Some_0@ == a.sas
            &&& p->Some_0.sas@ == a.sas
            &&& p->Some_0.name@ == a.record.name
            &&& p->Some_0.fingerprint@ == a.fingerprint
        },
{
}

/// A person's answer settles the pairing that waits, and says so. Refusing closes its
/// link as not allowed and says that the codes did not match; agreeing keeps the
/// record of the device that was shown, under its id, names it as paired, and closes
/// the link, which has done its work.
pub proof fn an_answer_settles_the_pairing<W: Wire>(
    s: State<W>,
    now: u64,
    accept: bool,
    s2: State<W>,
    out2: Out,
)
    requires
        waits(s),
        s.handled(now, Event::Local(LocalCommand::ConfirmPairing { accept }), s2, out2),
    ensures
        ({
            let a = s.pairing->Some_0.awaiting->Some_0;
            &&& s2.pairing is None
            &&& !s2.links.dom().contains(a.link)
            &&& forall|l: u64| l != a.link ==> (s2.links.dom().contains(l)
                <==> #[trigger] s.links.dom().contains(l)) && s2.links[l] == s.links[l]
            &&& if accept {
                &&& out2.len() == 3
                &&& out2[0] == (ActionView::Persist {
                    key: "peer/"@ + a.record.device_id,
                    value: Some(record_bytes(a.record)),
                    sensitivity: Sensitivity::Secret,
                })
                &&& out2[1] == ActionView::Ui(
                    UiView::PairingComplete { peer: a.id, name: a.record.name },
                )
                &&& out2[2] == (ActionView::Close { link: a.link, reason: ReasonView::Closed })
            } else {
                &&& out2.len() == 2
                &&& out2[0] == (ActionView::Close {
                    link: a.link,
                    reason: ReasonView::Protocol(ErrorCode::NotAllowed),
                })
                &&& out2[1] == ActionView::Ui(
                    UiView::PairingFailed { reason: "the codes did not match"@ },
                )
            }
        }),
{
}

/// Who is paired by agreeing can be reached where the pairing was made, or where
/// discovery has shown it; every other peer's addresses stay.
pub proof fn a_new_peer_has_its_addresses<W: Wire>(
    s: State<W>,
    now: u64,
    s2: State<W>,
    out2: Out,
    t: u16,
    other: Seq<char>,
)
    requires
        waits(s),
        s.handled(now, Event::Local(LocalCommand::ConfirmPairing { accept: true }), s2, out2),
    ensures
        ({
            let a = s.pairing->Some_0.awaiting->Some_0;
            &&& a.via matches Some(way) ==> s2.addrs.dom().contains(a.id)
                && s2.addrs[a.id].dom().contains(way.0) && s2.addrs[a.id][way.0] == way.1
            &&& (a.via is None && s.seen.dom().contains(a.fingerprint)
                && s.seen[a.fingerprint].routes.dom().contains(t)) ==> s2.addrs.dom().contains(a.id)
                && s2.addrs[a.id].dom().contains(t) && s2.addrs[a.id][t]
                == s.seen[a.fingerprint].routes[t]
            &&& other != a.id ==> (s2.addrs.dom().contains(other) <==> s.addrs.dom().contains(
                other,
            )) && s2.addrs[other] == s.addrs[other]
        }),
{
}

/// A pairing handshake is turned away exactly where pairing is switched off, where
/// another is under way, or where the last one was too recent; and each is said in
/// words of its own.
pub proof fn pairing_is_turned_away_for_a_reason<W: Wire>(s: State<W>, now: u64)
    ensures
        s.why_not_pair(now) is None <==> s.config.accept_pair_requests && s.pairing is None && now
            >= s.pair_quiet_until,
        !s.config.accept_pair_requests ==> s.why_not_pair(now) == Some(
            "this device is not accepting pairing requests"@,
        ),
        s.config.accept_pair_requests && waits(s) ==> s.why_not_pair(now) == Some(
            "already confirming a pairing with somebody else"@,
        ),
        s.config.accept_pair_requests && s.pairing is Some && !waits(s) ==> s.why_not_pair(now)
            == Some("a pairing is already in progress"@),
        s.config.accept_pair_requests && s.pairing is None && now < s.pair_quiet_until
            ==> s.why_not_pair(now) == Some("too soon after the last pairing attempt"@),
{
}

/// A pairing dial that fails is said to have, in the words that came with it, and
/// frees the slot.
pub proof fn a_pairing_dial_that_fails_frees_the_slot<W: Wire>(
    s: State<W>,
    now: u64,
    dial: DialToken,
    reason: String,
    s2: State<W>,
    out2: Out,
)
    requires
        s.handled(now, Event::DialFailed { dial, reason }, s2, out2),
        s.pair_dials.dom().contains(dial.0),
    ensures
        s2.pairing is None,
        !s2.pair_dials.dom().contains(dial.0),
        s2.pair_quiet_until == s.pair_quiet_until,
        out2.len() == 1,
        out2[0] == ActionView::Ui(UiView::PairingFailed { reason: reason@ }),
{
}

/// A handshake for pairing that fails on its link closes the link, says so twice over,
/// once of the link and once of the pairing, and buys quiet.
pub proof fn a_failed_pairing_is_said<W: Wire>(s: State<W>, now: u64, link: u64, out: Out)
    requires
        s.clock_fits(now),
        s.links.dom().contains(link) ==> !(s.links[link] is Up),
    ensures
        ({
            let (s2, out2) = s.pairing_attempt_failed(now, link, out);
            &&& s2.pairing is None
            &&& s2.pair_quiet_until == now + s.config.pair_cooldown_ms
            &&& !s2.links.dom().contains(link)
            &&& s2.peers == s.peers
            &&& out2.len() == out.len() + 3
            &&& out2.take(out.len() as int) == out
            &&& out2[out.len() as int] == (ActionView::Close {
                link,
                reason: ReasonView::Protocol(ErrorCode::NotAllowed),
            })
            &&& out2[out.len() as int + 1] == ActionView::Ui(
                UiView::Error {
                    peer: None,
                    code: ErrorCode::NotAllowed,
                    detail: "pairing handshake failed"@,
                },
            )
            &&& out2[out.len() as int + 2] == ActionView::Ui(
                UiView::PairingFailed { reason: "the pairing handshake failed"@ },
            )
        }),
{
    let (s2, out2) = s.pairing_attempt_failed(now, link, out);
    assert(out2.take(out.len() as int) =~= out);
}

/// A pairing opener that is answered claims the slot, sends the answer on its own link,
/// and waits there for the rest; one that cannot be read buys quiet.
pub proof fn a_pairing_opener_is_answered<W: Wire>(
    s: State<W>,
    now: u64,
    link: u64,
    attrs: LinkAttrs,
    deadline: u64,
    greeted: Greeted,
    out: Out,
)
    requires
        s.clock_fits(now),
        s.why_not_pair(now) is None,
        !s.links.dom().contains(link),
    ensures
        ({
            let (s2, out2) = s.pair_opener(now, link, attrs, deadline, greeted, out);
            match greeted {
                Greeted::Answered(msg, hs) => {
                    &&& out2 == out.push(ActionView::LinkSend { link, msg })
                    &&& s2.pairing matches Some(w) && w.awaiting is None && w.deadline == now
                        + s.config.pairing_window_ms
                    &&& s2.links.dom().contains(link)
                    &&& s2.links[link] matches LinkV::Handshaking(h) && h.pairing_flow && h.hs == hs
                        && h.attrs == attrs && h.deadline == deadline && h.expect is None && h.via
                        is None && h.fallback is None
                },
                Greeted::Unread => {
                    &&& s2.pair_quiet_until == now + s.config.pair_cooldown_ms
                    &&& s2.pairing is None
                    &&& !s2.links.dom().contains(link)
                    &&& out2.len() == out.len() + 2
                    &&& out2[out.len() as int] == (ActionView::Close {
                        link,
                        reason: ReasonView::Protocol(ErrorCode::NotAllowed),
                    })
                },
                Greeted::Unsaid(words) => {
                    &&& s2.pair_quiet_until == s.pair_quiet_until
                    &&& s2.pairing is None
                    &&& !s2.links.dom().contains(link)
                    &&& out2.last() == ActionView::Ui(
                        UiView::Error { peer: None, code: ErrorCode::NotAllowed, detail: words },
                    )
                },
            }
        }),
{
}

// ------------------------------------------------------------------ discovery

/// Whether a route is the best of some: no other has a lower transport number.
pub open spec fn best_of(routes: Map<u16, Seq<char>>, transport: u16, addr: Seq<char>) -> bool {
    &&& routes.dom().contains(transport)
    &&& routes[transport] == addr
    &&& forall|t: u16| #[trigger] routes.dom().contains(t) ==> transport <= t
}

/// A walk in preference begins with the best route, goes on in ascending order of
/// transport, and passes every route once.
pub proof fn the_best_route_comes_first(routes: Map<u16, Seq<char>>)
    requires
        routes.dom().finite(),
    ensures
        in_preference(routes).len() == routes.dom().len(),
        forall|i: int|
            0 <= i < in_preference(routes).len() ==> routes.dom().contains(
                (#[trigger] in_preference(routes)[i]).0,
            ) && in_preference(routes)[i].1 == routes[in_preference(routes)[i].0],
        forall|i: int, j: int|
            0 <= i < j < in_preference(routes).len() ==> (#[trigger] in_preference(routes)[i]).0 < (
            #[trigger] in_preference(routes)[j]).0,
        in_preference(routes).len() > 0 ==> best_of(
            routes,
            in_preference(routes)[0].0,
            in_preference(routes)[0].1,
        ),
        routes.dom().len() > 0 <==> in_preference(routes).len() > 0,
{
    each_is_listed_once::<u16>(routes.dom());
    let all = ascending::<u16>(routes.dom());
    let walk = in_preference(routes);
    assert forall|i: int| 0 <= i < walk.len() implies routes.dom().contains((#[trigger] walk[i]).0)
        && walk[i].1 == routes[walk[i].0] by {
        assert(all.contains(all[i]));
    }
    if walk.len() > 0 {
        assert forall|t: u16| #[trigger] routes.dom().contains(t) implies walk[0].0 <= t by {
            assert(all.contains(t));
            let k = choose|k: int| 0 <= k < all.len() && all[k] == t;
            assert(walk[0].0 == all[0]);
        }
    }
}

/// A machine that is seen and not paired is offered at once, under the fingerprint and
/// the name it was seen with, at the best of the addresses it is known at.
pub proof fn a_stranger_is_offered<W: Wire>(
    s: State<W>,
    now: u64,
    transport: TransportId,
    peer: DiscoveredPeer,
    s2: State<W>,
    out2: Out,
)
    requires
        s.handled(now, Event::Discovered { transport, peer }, s2, out2),
        peer.fingerprint is Some,
        s.peers.dom().finite(),
        !s.paired(peer.fingerprint->Some_0@),
    ensures
        ({
            let fp = peer.fingerprint->Some_0@;
            &&& s2.peers == s.peers
            &&& s2.addrs == s.addrs
            &&& s2.peer_dials == s.peer_dials
            &&& s2.seen.dom().contains(fp)
            &&& s2.seen[fp].name == peer.name@
            &&& s2.seen[fp].pairing == peer.pairing
            &&& s2.seen[fp].routes.dom().contains(transport.0)
            &&& s2.seen[fp].routes[transport.0] == peer.addr@
            &&& s2.seen[fp].routes.dom().finite() ==> {
                &&& out2.len() == 1
                &&& out2[0] matches ActionView::Ui(
                    UiView::Discovered { fingerprint, name, addr, transport: t, pairing },
                ) && fingerprint == fp && name == peer.name@ && pairing == peer.pairing && best_of(
                    s2.seen[fp].routes,
                    t,
                    addr,
                )
            }
        }),
{
    let fp = peer.fingerprint->Some_0@;
    nobody_has_it(s, fp);
    let s1 = s.sight(fp, transport.0, peer.name@, peer.addr@, peer.pairing);
    assert(s1.peer_with(fp) == s.peer_with(fp));
    if s2.seen[fp].routes.dom().finite() {
        the_best_route_comes_first(s2.seen[fp].routes);
        if s2.seen[fp].routes.dom().len() == 0 {
            s2.seen[fp].routes.dom().lemma_len0_is_empty();
        }
    }
}

proof fn first_with_fits(
    peers: Map<Seq<char>, PeerV>,
    keys: Seq<Seq<char>>,
    fp: Seq<char>,
    n: int,
)
    requires
        0 <= n <= keys.len(),
    ensures
        first_with(peers, keys, fp, n) matches Some(id) ==> exists|i: int|
            0 <= i < n && #[trigger] keys[i] == id && peers[id].fingerprint == fp,
        first_with(peers, keys, fp, n) is None ==> forall|i: int|
            0 <= i < n ==> peers[#[trigger] keys[i]].fingerprint != fp,
    decreases n,
{
    if n > 0 {
        first_with_fits(peers, keys, fp, n - 1);
    }
}

proof fn nobody_has_it<W: Wire>(s: State<W>, fp: Seq<char>)
    requires
        s.peers.dom().finite(),
        !s.paired(fp),
    ensures
        s.peer_with(fp) is None,
{
    each_is_listed_once::<String>(s.peers.dom());
    let keys = ascending::<String>(s.peers.dom());
    first_with_fits(s.peers, keys, fp, keys.len() as int);
    if s.peer_with(fp) is Some {
        let id = s.peer_with(fp)->Some_0;
        let i = choose|i: int|
            0 <= i < keys.len() && #[trigger] keys[i] == id && s.peers[id].fingerprint == fp;
        assert(keys.contains(keys[i]));
        assert(s.peers.dom().contains(id));
    }
}

/// The peer that a fingerprint stands for has that fingerprint, and there is one
/// wherever a peer has it.
pub proof fn a_fingerprint_finds_its_peer<W: Wire>(s: State<W>, fp: Seq<char>)
    requires
        s.peers.dom().finite(),
    ensures
        s.peer_with(fp) matches Some(id) ==> s.peers.dom().contains(id) && s.peers[id].fingerprint
            == fp,
        s.peer_with(fp) is Some <==> s.paired(fp),
{
    each_is_listed_once::<String>(s.peers.dom());
    let keys = ascending::<String>(s.peers.dom());
    first_with_fits(s.peers, keys, fp, keys.len() as int);
    if s.peer_with(fp) is Some {
        let id = s.peer_with(fp)->Some_0;
        let i = choose|i: int|
            0 <= i < keys.len() && #[trigger] keys[i] == id && s.peers[id].fingerprint == fp;
        assert(keys.contains(keys[i]));
    }
    if s.paired(fp) {
        let id = choose|id: Seq<char>|
            #[trigger] s.peers.dom().contains(id) && s.peers[id].fingerprint == fp;
        assert(keys.contains(id));
        let i = choose|i: int| 0 <= i < keys.len() && keys[i] == id;
        assert(s.peers[keys[i]].fingerprint == fp);
    }
}

/// A paired machine that is seen and cannot be reached yet is dialled at the best
/// address it is known at, the one it was just seen at among them.
pub proof fn a_peer_that_is_seen_is_dialled<W: Wire>(
    s: State<W>,
    now: u64,
    transport: TransportId,
    peer: DiscoveredPeer,
    s2: State<W>,
    out2: Out,
    id: Seq<char>,
)
    requires
        s.clock_fits(now),
        s.handled(now, Event::Discovered { transport, peer }, s2, out2),
        peer.fingerprint is Some,
        s.peer_with(peer.fingerprint->Some_0@) == Some(id),
        s.peer_state(id) == PeerState::Unreachable,
        s.addrs.dom().contains(id) ==> s.addrs[id].dom().finite(),
    ensures
        s2.addrs.dom().contains(id),
        s2.addrs[id].dom().contains(transport.0),
        s2.addrs[id][transport.0] == peer.addr@,
        out2.len() == 1,
        out2[0] matches ActionView::Dial { transport: t, addr, dial } && best_of(
            s2.addrs[id],
            t,
            addr,
        ) && dial != s.next_dial && s2.peer_dials.dom().contains(dial) && s2.peer_dials[dial].1.peer
            == id && !s2.peer_dials[dial].1.by_hand && s2.peer_dials[dial].0 == now
            + s.config.dial_timeout_ms,
{
    let fp = peer.fingerprint->Some_0@;
    let s1 = s.sight(fp, transport.0, peer.name@, peer.addr@, peer.pairing);
    assert(s1.peer_with(fp) == s.peer_with(fp));
    let n = s1.note_addr(id, transport.0, peer.addr@);
    assert(n.links == s.links && n.peer_dials == s.peer_dials);
    assert(n.peer_state(id) == s.peer_state(id)) by {
        assert(n.shaking(id) == s.shaking(id));
        assert(n.dialling(id) == s.dialling(id));
    }
    the_best_route_comes_first(n.addrs[id]);
    assert(n.addrs[id].dom().contains(transport.0));
    if n.addrs[id].dom().len() == 0 {
        n.addrs[id].dom().lemma_len0_is_empty();
    }
}

// ---------------------------------------------------------------------- dials

/// A dial goes out under a number that nothing else has, has its time from now, and
/// leaves every other dial as it was.
pub proof fn a_dial_goes_where_it_is_sent<W: Wire>(
    s: State<W>,
    now: u64,
    route: (u16, Seq<char>),
    rest: DialV,
    out: Out,
    other: u64,
)
    requires
        s.clock_fits(now),
    ensures
        ({
            let (s2, out2) = s.dial(now, route, rest, out);
            &&& out2.len() == out.len() + 1
            &&& out2.drop_last() == out
            &&& out2.last() matches ActionView::Dial { transport, addr, dial } && transport
                == route.0 && addr == route.1 && dial != s.next_dial && s2.next_dial == dial
                && s2.peer_dials.dom().contains(dial) && s2.peer_dials[dial].1 == rest
                && s2.peer_dials[dial].0 == now + s.config.dial_timeout_ms && (other != dial ==> (
            s2.peer_dials.dom().contains(other) <==> s.peer_dials.dom().contains(other))
                && s2.peer_dials[other] == s.peer_dials[other])
            &&& s2.links == s.links
            &&& s2.peers == s.peers
        }),
{
    let (s2, out2) = s.dial(now, route, rest, out);
    assert(out2.drop_last() =~= out);
}

/// A person who asks for a peer that nothing reaches has it dialled at the best address
/// known, with the others kept for later; where none is known they are told so.
pub proof fn asking_for_a_peer_dials_it<W: Wire>(
    s: State<W>,
    now: u64,
    peer: DeviceId,
    s2: State<W>,
    out2: Out,
)
    requires
        s.clock_fits(now),
        s.handled(now, Event::Local(LocalCommand::Connect { peer }), s2, out2),
        s.peer_state(peer@) == PeerState::Unreachable,
    ensures
        ({
            let routes = s.routes_to(peer@);
            if routes.len() > 0 {
                &&& out2.len() == 1
                &&& out2[0] matches ActionView::Dial { transport, addr, dial } && transport
                    == routes[0].0 && addr == routes[0].1 && s2.peer_dials.dom().contains(dial)
                    && s2.peer_dials[dial].1.peer == peer@ && s2.peer_dials[dial].1.by_hand
                    && s2.peer_dials[dial].1.routes == routes.drop_first()
                &&& s2.dial_trouble == s.dial_trouble
            } else {
                &&& out2.len() == 2
                &&& out2[0] matches ActionView::Ui(UiView::Error { peer: p, code, .. }) && p == Some(
                    peer@,
                ) && code == ErrorCode::NotAllowed
                &&& out2[1] == ActionView::Ui(UiView::PeerUnreachable { peer: peer@ })
                &&& s2.dial_trouble.dom().contains(peer@)
                &&& s2.dial_trouble[peer@]
                    == "Device is asleep or unreachable. It might be off or on another network."@
                &&& s2.peer_dials == s.peer_dials
            }
        }),
{
    assert(s.routes_to(peer@).len() > 0 ==> s.routes_to(peer@).remove(0) =~= s.routes_to(
        peer@,
    ).drop_first());
}

/// Where a peer is dialled is where it was last reached; only where that is unknown is
/// it what discovery has shown.
pub proof fn what_worked_is_dialled_before_what_was_seen<W: Wire>(s: State<W>, peer: Seq<char>)
    ensures
        s.addrs.dom().contains(peer) ==> s.routes_to(peer) == in_preference(s.addrs[peer]),
        (!s.addrs.dom().contains(peer) && s.peers.dom().contains(peer) && s.seen.dom().contains(
            s.peers[peer].fingerprint,
        )) ==> s.routes_to(peer) == in_preference(s.seen[s.peers[peer].fingerprint].routes),
        (!s.addrs.dom().contains(peer) && !s.peers.dom().contains(peer)) ==> s.routes_to(peer).len()
            == 0,
{
}

/// A person who asks for a peer that is being dialled makes that attempt theirs, and
/// starts no other: every dial to it and every handshake with it is then one that a
/// person asked for, and no attempt to reach anyone else is.
pub proof fn asking_again_makes_the_attempt_ones_own<W: Wire>(
    s: State<W>,
    now: u64,
    peer: DeviceId,
    s2: State<W>,
    out2: Out,
    d: u64,
    l: u64,
)
    requires
        s.handled(now, Event::Local(LocalCommand::Connect { peer }), s2, out2),
        s.peer_state(peer@) == PeerState::Connecting,
    ensures
        out2.len() == 0,
        s2.peer_dials.dom() == s.peer_dials.dom(),
        s2.links.dom() == s.links.dom(),
        s.peer_dials.dom().contains(d) ==> {
            let (before, after) = (s.peer_dials[d], s2.peer_dials[d]);
            &&& after.0 == before.0
            &&& after.1.peer == before.1.peer
            &&& after.1.routes == before.1.routes
            &&& after.1.by_hand == (before.1.by_hand || before.1.peer == peer@)
        },
        s.links.dom().contains(l) && s.links[l] is Handshaking ==> {
            let before = s.links[l]->Handshaking_0;
            &&& s2.links[l] is Handshaking
            &&& s2.links[l]->Handshaking_0.hs == before.hs
            &&& s2.links[l]->Handshaking_0.expect == before.expect
            &&& (before.fallback matches Some(p) ==> (
            s2.links[l]->Handshaking_0.fallback matches Some(q) && q.peer == p.peer && q.routes
                == p.routes && q.by_hand == (p.by_hand || p.peer == peer@)))
        },
{
    assert(s2.peer_dials.dom() =~= s.peer_dials.dom());
    assert(s2.links.dom() =~= s.links.dom());
}

/// Unasked, a better route is dialled beside a worse one that carries: the first that
/// is worth it.
pub proof fn a_better_route_is_tried_beside_a_worse<W: Wire>(
    s: State<W>,
    now: u64,
    peer: Seq<char>,
    out: Out,
    i: int,
)
    requires
        s.clock_fits(now),
        !s.dialling(peer),
        s.peer_state(peer) == PeerState::Reachable,
        s.best_transport(peer) is Some,
        0 <= i < s.routes_to(peer).len(),
        s.worth_dialling(peer, s.best_transport(peer)->Some_0, s.routes_to(peer)[i].0),
    ensures
        ({
            let (s2, out2) = s.connect_peer(now, peer, false, out);
            &&& out2.len() == out.len() + 1
            &&& out2.last() matches ActionView::Dial { transport, addr, dial } && transport
                < s.best_transport(peer)->Some_0 && s.routes_to(peer).contains((transport, addr))
                && s2.peer_dials[dial].1.peer == peer && !s2.peer_dials[dial].1.by_hand
        }),
{
    let current = s.best_transport(peer)->Some_0;
    let routes = s.routes_to(peer);
    let worth = |r: (u16, Seq<char>)| s.worth_dialling(peer, current, r.0);
    let better = routes.filter(worth);
    routes.lemma_filter_contains(worth, i);
    let k = choose|k: int| 0 <= k < better.len() && better[k] == routes[i];
    assert(better.len() > 0);
    routes.lemma_filter_pred(worth, 0);
    assert(better.contains(better[0]));
    routes.lemma_filter_contains_rev(worth, better[0]);
}

/// A transport that is told of a paired device is kept beside what other transports
/// know of it; of a device that is not paired nothing is kept, and that is said.
pub proof fn an_address_is_kept_for_a_peer<W: Wire>(
    s: State<W>,
    now: u64,
    peer: DeviceId,
    transport: TransportId,
    addr: String,
    s2: State<W>,
    out2: Out,
    other: Seq<char>,
    t: u16,
)
    requires
        s.handled(now, Event::Local(LocalCommand::SetPeerAddress { peer, transport, addr }), s2, out2),
    ensures
        if s.peers.dom().contains(peer@) {
            &&& out2.len() == 0
            &&& s2.addrs.dom().contains(peer@)
            &&& s2.addrs[peer@].dom().contains(transport.0)
            &&& s2.addrs[peer@][transport.0] == addr@
            &&& (other != peer@ || t != transport.0) && s.addrs.dom().contains(other)
                && s.addrs[other].dom().contains(t) ==> s2.addrs.dom().contains(other)
                && s2.addrs[other].dom().contains(t) && s2.addrs[other][t] == s.addrs[other][t]
        } else {
            &&& s2 == s
            &&& out2.len() == 1
            &&& out2[0] matches ActionView::Ui(UiView::Error { peer: p, code, .. }) && p == Some(
                peer@,
            ) && code == ErrorCode::NotPaired
        },
{
}

// ---------------------------------------------------------------------- links

/// A link that is dropped is closed as not allowed, and why goes to the screen, under
/// the peer's name where there was a session; no other link is touched.
pub proof fn a_dropped_link_is_closed_and_said<W: Wire>(
    s: State<W>,
    link: u64,
    why: Seq<char>,
    out: Out,
    other: u64,
)
    ensures
        ({
            let (s2, out2) = s.fail_link(link, why, out);
            &&& out2.len() == out.len() + 2
            &&& out2.take(out.len() as int) == out
            &&& out2[out.len() as int] == (ActionView::Close {
                link,
                reason: ReasonView::Protocol(ErrorCode::NotAllowed),
            })
            &&& out2.last() matches ActionView::Ui(UiView::Error { peer, code, detail }) && code
                == ErrorCode::NotAllowed && detail == why && (peer matches Some(p) ==> carries(
                s.links,
                link,
                p,
            )) && (peer is None ==> !(s.links.dom().contains(link) && s.links[link] is Up))
            &&& !s2.links.dom().contains(link)
            &&& other != link ==> (s2.links.dom().contains(other) <==> s.links.dom().contains(
                other,
            )) && s2.links[other] == s.links[other]
            &&& s2.peers == s.peers
            &&& s2.pairing == s.pairing
        }),
{
    let (s2, out2) = s.fail_link(link, why, out);
    assert(out2.take(out.len() as int) =~= out);
}

/// A link that nobody here dialled says nothing until the far end does, and has its
/// time for that.
pub proof fn an_inbound_link_waits_to_be_spoken_to<W: Wire>(
    s: State<W>,
    now: u64,
    link: LinkId,
    attrs: LinkAttrs,
    s2: State<W>,
    out2: Out,
)
    requires
        s.clock_fits(now),
        s.handled(now, Event::LinkUp { link, attrs, dial: None }, s2, out2),
    ensures
        out2.len() == 0,
        s2.links.dom().contains(link.0),
        s2.links[link.0] matches LinkV::Pending { attrs: a, deadline } && a == attrs && deadline
            == now + s.config.handshake_timeout_ms,
        s2.pairing == s.pairing,
{
}

/// A link that was dialled to pair is spoken to at once, and only there; it remembers
/// where it was dialled.
pub proof fn a_pairing_link_is_spoken_to<W: Wire>(
    s: State<W>,
    now: u64,
    link: LinkId,
    attrs: LinkAttrs,
    dial: DialToken,
    s2: State<W>,
    out2: Out,
)
    requires
        s.clock_fits(now),
        s.pair_dials.dom().contains(dial.0),
        s.handled(now, Event::LinkUp { link, attrs, dial: Some(dial) }, s2, out2),
        s2.links.dom().contains(link.0),
    ensures
        out2.len() == 1,
        out2[0] matches ActionView::LinkSend { link: l, .. } && l == link.0,
        s2.links[link.0] matches LinkV::Handshaking(h) && h.pairing_flow && h.expect is None && h.via
            == Some(s.pair_dials[dial.0]) && h.attrs == attrs && h.deadline == now
            + s.config.handshake_timeout_ms && h.fallback is None,
        !s2.pair_dials.dom().contains(dial.0),
{
}

/// A link that was dialled to reach a peer is spoken to at once, in the name of that
/// peer, and keeps the routes that are left for when it fails.
pub proof fn a_session_link_is_spoken_to<W: Wire>(
    s: State<W>,
    now: u64,
    link: LinkId,
    attrs: LinkAttrs,
    dial: DialToken,
    s2: State<W>,
    out2: Out,
)
    requires
        s.clock_fits(now),
        !s.pair_dials.dom().contains(dial.0),
        s.peer_dials.dom().contains(dial.0),
        s.handled(now, Event::LinkUp { link, attrs, dial: Some(dial) }, s2, out2),
        s2.links.dom().contains(link.0),
    ensures
        out2.len() == 1,
        out2[0] matches ActionView::LinkSend { link: l, .. } && l == link.0,
        s2.links[link.0] matches LinkV::Handshaking(h) && !h.pairing_flow && h.expect == Some(
            s.peer_dials[dial.0].1.peer,
        ) && h.via is None && h.attrs == attrs && h.deadline == now + s.config.handshake_timeout_ms
            && h.fallback == Some(s.peer_dials[dial.0].1),
        !s2.peer_dials.dom().contains(dial.0),
        s.can_open(s.peer_dials[dial.0].1.peer),
{
}

/// A device says of itself who it is, what it is called, what it runs on and what it
/// can do, and when it said so.
pub proof fn a_hello_says_who_we_are<W: Wire>(s: State<W>)
    ensures
        s.hello().v == 1,
        s.hello().ts_ms == s.wall_ms,
        s.hello().device_id == s.own_id,
        s.hello().name == s.config.name,
        s.hello().platform == s.config.platform,
        s.hello().caps_out == s.caps_out,
        s.hello().caps_in == s.caps_in,
{
}

/// A hello that is taken in brings a peer's record up to date and keeps it: what the
/// peer said, and how far its clock has got. Its key and the secret shared with it stay,
/// and so does every other peer.
pub proof fn a_hello_brings_a_record_up_to_date<W: Wire>(
    s: State<W>,
    peer: Seq<char>,
    heard: HeardV,
    out: Out,
    other: Seq<char>,
)
    requires
        s.takes_hello(peer, Some(heard)),
    ensures
        ({
            let (s2, out2, taken) = s.accept_hello(peer, Some(heard), out);
            let (before, after) = (s.peers[peer].record, s2.peers[peer].record);
            &&& taken
            &&& s.peers.dom().contains(peer)
            &&& s2.peers.dom() == s.peers.dom()
            &&& after.name == heard.name
            &&& after.platform == heard.platform
            &&& after.caps_out == heard.caps_out
            &&& after.caps_in == heard.caps_in
            &&& heard.fresh == Ok::<u64, Seq<char>>(after.greatest_seen)
            &&& after.device_id == before.device_id
            &&& after.public_key == before.public_key
            &&& after.session_psk == before.session_psk
            &&& s2.peers[peer].fingerprint == s.peers[peer].fingerprint
            &&& other != peer ==> s2.peers[other] == s.peers[other]
            &&& s2.links == s.links
            &&& out2.len() == out.len() + 1
            &&& out2.last() == (ActionView::Persist {
                key: "peer/"@ + after.device_id,
                value: Some(record_bytes(after)),
                sensitivity: Sensitivity::Secret,
            })
        }),
{
    let (s2, out2, taken) = s.accept_hello(peer, Some(heard), out);
    assert(s2.peers.dom() =~= s.peers.dom());
}

/// A hello that is not taken in changes nothing: one that does not decode, one that is
/// not fresh, and one of nobody who is paired.
pub proof fn a_hello_that_is_not_taken_changes_nothing<W: Wire>(
    s: State<W>,
    peer: Seq<char>,
    heard: Option<HeardV>,
    out: Out,
)
    requires
        heard is None || !s.peers.dom().contains(peer) || heard->Some_0.fresh is Err,
    ensures
        ({
            let (s2, out2, taken) = s.accept_hello(peer, heard, out);
            &&& !taken
            &&& s2 == s
            &&& heard is None ==> out2 == out.push(
                ActionView::Ui(
                    UiView::Error {
                        peer: Some(peer),
                        code: ErrorCode::BadBody,
                        detail: "handshake payload did not decode"@,
                    },
                ),
            )
            &&& heard is Some && s.peers.dom().contains(peer) ==> out2 == out.push(
                ActionView::Ui(
                    UiView::Error {
                        peer: Some(peer),
                        code: ErrorCode::NotAllowed,
                        detail: heard->Some_0.fresh->Err_0,
                    },
                ),
            )
        }),
{
}

/// A session goes by what both ends offer: a capability can be sent where this device
/// sends it and the peer takes it, and received the other way round. It carries what
/// its link can carry, it counts as heard from now, and the peer is said to be
/// reachable by its name.
pub proof fn a_session_goes_by_what_both_offer<W: Wire>(
    s: State<W>,
    now: u64,
    link: u64,
    attrs: LinkAttrs,
    peer: Seq<char>,
    hash: Seq<u8>,
    session: SessionView,
    out: Out,
    c: Seq<char>,
)
    ensures
        ({
            let (s2, out2) = s.session_up(now, link, attrs, peer, hash, session, out);
            let r = s.peers[peer].record;
            &&& s2.links.dom().contains(link)
            &&& s2.links[link] matches LinkV::Up(u) && u.peer == peer && u.session == session
                && u.handshake_hash == hash && u.bulk == attrs.bulk && u.max_message
                == attrs.max_message && u.last_recv_ms == now && u.transport == attrs.transport.0
                && u.kind == attrs.kind && (u.can_send.contains(c) <==> s.caps_out.contains(c)
                && r.caps_in.contains(c)) && (u.can_recv.contains(c) <==> s.caps_in.contains(c)
                && r.caps_out.contains(c))
            &&& !s2.dial_trouble.dom().contains(peer)
            &&& out2 == out.push(ActionView::Ui(UiView::PeerReachable { peer, name: r.name }))
            &&& s2.peers == s.peers
        }),
{
    let r = s.peers[peer].record;
    shared_is_in_both(s.caps_out, r.caps_in, c);
    shared_is_in_both(r.caps_out, s.caps_in, c);
}

/// What one end of a session may send is what the other may receive, where each has
/// recorded what the other offers.
pub proof fn the_two_ends_agree_on_what_may_be_said<W: Wire>(
    a: State<W>,
    b: State<W>,
    pa: Seq<char>,
    pb: Seq<char>,
    c: Seq<char>,
    now: u64,
    link: u64,
    attrs: LinkAttrs,
    hash: Seq<u8>,
    sa: SessionView,
    sb: SessionView,
)
    requires
        a.peers[pb].record.caps_out == b.caps_out,
        a.peers[pb].record.caps_in == b.caps_in,
        b.peers[pa].record.caps_out == a.caps_out,
        b.peers[pa].record.caps_in == a.caps_in,
    ensures
        ({
            let u = a.session_up(now, link, attrs, pb, hash, sa, Seq::empty()).0.links[link]->Up_0;
            let v = b.session_up(now, link, attrs, pa, hash, sb, Seq::empty()).0.links[link]->Up_0;
            &&& u.can_send.contains(c) <==> v.can_recv.contains(c)
            &&& v.can_send.contains(c) <==> u.can_recv.contains(c)
        }),
{
    shared_is_in_both(a.caps_out, b.caps_in, c);
    shared_is_in_both(b.caps_out, a.caps_in, c);
}

/// Of two links to a peer the one heard from later is the better; as late, the one on
/// the lower transport number; and of two on the same transport the newer.
pub proof fn the_better_link_is_the_one_heard_from(a: u64, x: UpV, b: u64, y: UpV)
    ensures
        x.last_recv_ms > y.last_recv_ms ==> better(a, x, b, y) && !better(b, y, a, x),
        x.last_recv_ms == y.last_recv_ms && x.transport < y.transport ==> better(a, x, b, y)
            && !better(b, y, a, x),
        x.last_recv_ms == y.last_recv_ms && x.transport == y.transport && a > b ==> better(
            a,
            x,
            b,
            y,
        ) && !better(b, y, a, x),
{
}

/// The link that a message to a peer takes is one of its sessions, and none of its
/// sessions is better.
pub proof fn a_peer_is_reached_by_its_best_link<W: Wire>(s: State<W>, peer: Seq<char>, l: u64)
    requires
        carries(s.links, l, peer),
    ensures
        s.peer_state(peer) == PeerState::Reachable,
        best(s.links, peer) matches Some(b) && carries(s.links, b, peer) && (b == l || better(
            b,
            s.links[b]->Up_0,
            l,
            s.links[l]->Up_0,
        )),
{
    some_link_is_best(s.links, peer, l);
    let b = best(s.links, peer)->Some_0;
    assert(is_best(s.links, b, peer));
}

/// A peer without a session is being reached where it is dialled or shaken hands with,
/// and is out of reach otherwise.
pub proof fn a_peer_is_where_it_seems<W: Wire>(s: State<W>, peer: Seq<char>)
    requires
        forall|l: u64| !carries(s.links, l, peer),
    ensures
        s.peer_state(peer) == PeerState::Connecting <==> (exists|l: u64|
            #[trigger] s.links.dom().contains(l) && (s.links[l] matches LinkV::Handshaking(h)
                && h.expect == Some(peer))) || (exists|d: u64| #[trigger]
            s.peer_dials.dom().contains(d) && s.peer_dials[d].1.peer == peer),
        s.peer_state(peer) == PeerState::Connecting || s.peer_state(peer) == PeerState::Unreachable,
{
    if best(s.links, peer) is Some {
        assert(carries(s.links, best(s.links, peer)->Some_0, peer));
    }
}

/// Files cannot get to a peer none of whose links opens a side channel; with no link
/// at all that is not known.
pub proof fn files_need_a_side_channel<W: Wire>(s: State<W>, peer: Seq<char>)
    requires
        forall|l: u64|
            #[trigger] carries(s.links, l, peer) ==> s.links[l]->Up_0.bulk
                == BulkSupport::Unsupported,
    ensures
        s.bulk_for(peer) == Some(BulkSupport::Unsupported) || s.bulk_for(peer) is None,
        s.bulk_for(peer) is None <==> best(s.links, peer) is None,
{
    if best(able(s.links), peer) is Some {
        let l = best(able(s.links), peer)->Some_0;
        assert(carries(able(s.links), l, peer));
        assert(carries(s.links, l, peer));
    }
    if best(s.links, peer) is Some {
        let l = best(s.links, peer)->Some_0;
        assert(is_best(s.links, l, peer));
        assert(carries(s.links, l, peer));
    }
}

// ------------------------------------------------------------------- messages

/// A message for a peer with a session goes out on its best link if the link may carry
/// it; else it is said why not: nobody can be reached, the capability was not
/// negotiated, the cipher refused, or it is too long.
pub proof fn a_message_goes_out_or_it_is_said_why<W: Wire>(
    s: State<W>,
    m: SendView,
    sealed: Sealed,
    out: Out,
)
    ensures
        ({
            let (s2, out2) = s.send_step(m, sealed, out);
            match best(s.links, m.peer) {
                None => s2 == s && out2 == out.push(
                    ActionView::Ui(UiView::PeerUnreachable { peer: m.peer }),
                ),
                Some(link) => if !s.links[link]->Up_0.can_send.contains(m.cap) {
                    &&& s2 == s
                    &&& out2.len() == out.len() + 1
                    &&& out2.last() == ActionView::Ui(
                        UiView::Error {
                            peer: Some(m.peer),
                            code: ErrorCode::CapNotNegotiated,
                            detail: m.cap + " is not negotiated with this peer"@,
                        },
                    )
                } else {
                    &&& s2.next_msg_id != s.next_msg_id
                    &&& match sealed {
                        Sealed::Unwritten => out2 == out && s2.links == s.links,
                        Sealed::Failed(words) => s2.links == s.links && out2 == out.push(
                            ActionView::Ui(
                                UiView::Error {
                                    peer: Some(m.peer),
                                    code: ErrorCode::Internal,
                                    detail: words,
                                },
                            ),
                        ),
                        Sealed::Message(msg) => if msg.len() <= s.links[link]->Up_0.max_message {
                            out2 == out.push(ActionView::LinkSend { link, msg })
                        } else {
                            &&& out2.len() == out.len() + 1
                            &&& out2.last() matches ActionView::Ui(
                                UiView::Error { peer, code, detail },
                            ) && peer == Some(m.peer) && code == ErrorCode::TooLarge && detail
                                == decimal(msg.len()) + " bytes does not fit this link, which takes "@
                                + decimal(s.links[link]->Up_0.max_message as nat)
                        },
                    }
                },
            }
        }),
{
    if best(s.links, m.peer) is Some {
        assert(is_best(s.links, best(s.links, m.peer)->Some_0, m.peer));
    }
}

/// What goes to the wire format for a message is the message, under a number that the
/// one before it did not have, in this version of the format.
pub proof fn a_message_goes_out_as_it_is<W: Wire>(s: State<W>, m: SendView)
    ensures
        s.envelope(m).v == 1,
        s.envelope(m).id != s.next_msg_id,
        s.next_msg_id < u32::MAX ==> s.envelope(m).id == s.next_msg_id + 1,
        s.envelope(m).re == m.re,
        s.envelope(m).cap == m.cap,
        s.envelope(m).ty == m.ty,
        s.envelope(m).body == m.body,
{
}

/// What was sealed for a peer opens there to what the wire format wrote of the message.
pub proof fn what_is_sealed_is_the_message<W: Wire>(
    s: State<W>,
    m: SendView,
    msg: Seq<u8>,
    link: u64,
)
    requires
        best(s.links, m.peer) == Some(link),
        s.links[link]->Up_0.can_send.contains(m.cap),
        s.seal_fits(m, Sealed::Message(msg)),
    ensures
        exists|p: Seq<u8>|
            #[trigger] envelope_written(s.wire, s.envelope(m), Some(p)) && joins(
                s.wire,
                FrameKind::Transport,
                s.links[link]->Up_0.session.seal(p),
                msg,
            ),
{
}

/// A frame that opens counts as being heard from, and moves the receiving half of the
/// session on; nothing else of the link changes, and no other link does.
pub proof fn being_heard_from_is_noted<W: Wire>(
    s: State<W>,
    now: u64,
    link: u64,
    u: UpV,
    other: u64,
)
    ensures
        ({
            let s2 = s.heard_from(now, link, u);
            &&& s2.links.dom().contains(link)
            &&& s2.links[link] matches LinkV::Up(v) && v.last_recv_ms == now && v.session
                == u.session.after_opening() && v.peer == u.peer && v.can_send == u.can_send
                && v.can_recv == u.can_recv && v.max_message == u.max_message && v.transport
                == u.transport && v.bulk == u.bulk && v.kind == u.kind && v.handshake_hash
                == u.handshake_hash
            &&& other != link ==> s2.links[other] == s.links[other]
        }),
{
}

/// The plugin that is handed a message is the first that handles its capability.
pub proof fn the_first_that_handles_it_is_handed_it(
    list: Seq<ManifestView>,
    cap: Seq<char>,
    n: int,
    k: int,
)
    requires
        0 <= n <= list.len() <= usize::MAX,
    ensures
        handler(list, cap, n) matches Some(i) ==> i < n && list[i as int].handles(cap) && (0 <= k
            < i ==> !list[k].handles(cap)),
        handler(list, cap, n) is None && 0 <= k < n ==> !list[k].handles(cap),
    decreases n,
{
    if n > 0 {
        the_first_that_handles_it_is_handed_it(list, cap, n - 1, k);
    }
}

/// Something local that no plugin handles is said to have nobody; one that its plugin
/// refuses is said to have been refused, in the plugin's words.
pub proof fn a_local_wish_is_heard_or_it_is_said_why<W: Wire>(
    s: State<W>,
    now: u64,
    peer: DeviceId,
    cap: String,
    ty: String,
    body: Vec<u8>,
    s2: State<W>,
    out2: Out,
    fault: Option<FaultView>,
    o: Out,
)
    requires
        s.handled(now, Event::Local(LocalCommand::Plugin { peer, cap, ty, body }), s2, out2),
    ensures
        handler(s.manifests, cap@, s.manifests.len() as int) is None ==> s2 == s && out2.len() == 1
            && out2[0] == ActionView::Ui(
            UiView::Error {
                peer: Some(peer@),
                code: ErrorCode::UnknownType,
                detail: "no plugin handles "@ + cap@,
            },
        ),
        complained(None, peer@, o) == o,
        fault matches Some(f) ==> complained(fault, peer@, o) == o.push(
            ActionView::Ui(
                UiView::Error { peer: Some(peer@), code: f.code(), detail: f.message() },
            ),
        ),
{
}

// ------------------------------------------------------------- what plugins ask

/// A side channel that a plugin asks for is opened as it asked: the host listens or
/// connects under the plugin's number, for as much as was offered and where the far end
/// said, with the key it was given; a listener has its time. Calling one off needs
/// nothing but its number. Without a session that carries files it is said why not.
pub proof fn a_side_channel_is_opened_as_asked<W: Wire>(
    s: State<W>,
    now: u64,
    b: BulkView,
    key: Seq<u8>,
    out: Out,
)
    requires
        s.clock_fits(now),
    ensures
        ({
            let (s2, out2) = s.bulk_step(now, b, key, out);
            match b {
                BulkView::Cancel { transfer } => s2 == s && out2 == out.push(
                    ActionView::BulkCancel { transfer },
                ),
                BulkView::Listen { peer, transfer, offered_as, expect_bytes } => {
                    &&& best(able(s.links), peer) is Some ==> out2 == out.push(
                        ActionView::BulkListen { transfer, offered_as, key, expect_bytes },
                    ) && s2.bulk_wait.dom().contains(transfer) && s2.bulk_wait[transfer] == now
                        + 30_000
                    &&& best(s.links, peer) is None && best(able(s.links), peer) is None ==> s2 == s
                        && out2.len() == out.len() + 1 && out2.last() == ActionView::Ui(
                        UiView::Error {
                            peer: Some(peer),
                            code: ErrorCode::NotAllowed,
                            detail: "no session with "@ + peer
                                + " to derive a transfer key from"@,
                        },
                    )
                },
                BulkView::Send { peer, transfer, endpoint } => {
                    &&& best(able(s.links), peer) is Some ==> s2 == s && out2 == out.push(
                        ActionView::BulkSend { transfer, endpoint, key },
                    )
                    &&& best(s.links, peer) is None && best(able(s.links), peer) is None ==> s2 == s
                        && out2.len() == out.len() + 1
                },
            }
        }),
{
}

/// The two ends of a transfer draw its key from one thing: the hash of the session
/// between them, and the offerer's id and number for it. The one that sends is the
/// offerer, and the one that listens goes by what it was offered as.
pub proof fn the_two_ends_of_a_transfer_draw_one_key<W: Wire>(
    a: State<W>,
    b: State<W>,
    la: u64,
    lb: u64,
    sends: BulkView,
    listens: BulkView,
    ka: Seq<u8>,
    kb: Seq<u8>,
)
    requires
        sends matches BulkView::Send { peer, .. } && best(able(a.links), peer) == Some(la),
        listens matches BulkView::Listen { peer, .. } && peer == a.own_id && best(
            able(b.links),
            peer,
        ) == Some(lb),
        sends->Send_transfer == listens->offered_as,
        a.links[la]->Up_0.handshake_hash == b.links[lb]->Up_0.handshake_hash,
        a.key_fits(sends, ka),
        b.key_fits(listens, kb),
    ensures
        ({
            let hash = a.links[la]->Up_0.handshake_hash;
            &&& transfer_key(a.wire, hash, a.own_id, sends->Send_transfer, ka)
            &&& transfer_key(b.wire, hash, a.own_id, sends->Send_transfer, kb)
        }),
{
}

/// What a plugin wishes is put out in order: what it shows, then its effects under
/// their numbers, each as it was asked for.
pub proof fn wishes_are_put_out_in_order(cx: CxView, i: int)
    ensures
        shows(cx).len() == cx.ui.len() + cx.effects.len(),
        0 <= i < cx.ui.len() ==> shows(cx)[i] == ActionView::Ui(cx.ui[i]),
        0 <= i < cx.effects.len() ==> shows(cx)[cx.ui.len() + i] == (ActionView::Effect {
            token: cx.effects[i].0,
            effect: cx.effects[i].1,
        }),
{
}

/// A plugin's wishes become actions: all it shows and all its effects follow what was
/// there, and where it asks for no side channel and sends nothing that is all.
pub proof fn a_plugins_wishes_become_actions<W: Wire>(
    s: State<W>,
    now: u64,
    cx: CxView,
    keys: Seq<Seq<u8>>,
    sealed: Seq<Sealed>,
    out: Out,
)
    ensures
        ({
            let (s2, out2) = s.drain(now, cx, keys, sealed, out);
            &&& cx.bulk.len() == 0 && cx.sends.len() == 0 ==> out2 == out + shows(cx) && s2.links
                == s.links
            &&& cx.bulk.len() == 1 && cx.sends.len() == 0 ==> out2 == s.bulk_step(
                now,
                cx.bulk[0],
                keys[0],
                out + shows(cx),
            ).1
            &&& cx.bulk.len() == 0 && cx.sends.len() == 1 ==> out2 == s.send_step(
                cx.sends[0],
                sealed[0],
                out + shows(cx),
            ).1
            &&& cx.bulk.len() == 0 && cx.sends.len() == 2 ==> ({
                let (mid, o) = s.send_step(cx.sends[0], sealed[0], out + shows(cx));
                out2 == mid.send_step(cx.sends[1], sealed[1], o).1
            })
        }),
{
    reveal_with_fuel(State::bulk_steps, 2);
    reveal_with_fuel(State::send_steps, 3);
}

/// A plugin is woken no later than it asked to be, and no later than another had asked.
pub proof fn a_wish_to_be_woken_is_kept<W: Wire>(
    s: State<W>,
    now: u64,
    cx: CxView,
    keys: Seq<Seq<u8>>,
    sealed: Seq<Sealed>,
    out: Out,
)
    requires
        cx.bulk.len() == 0,
        cx.sends.len() == 0,
    ensures
        ({
            let s2 = s.drain(now, cx, keys, sealed, out).0;
            &&& cx.wake_at is None ==> s2.plugin_wake == s.plugin_wake
            &&& cx.wake_at matches Some(w) ==> (s2.plugin_wake matches Some(t) && t <= w && (
            s.plugin_wake matches Some(u) ==> t <= u) && (t == w || Some(t) == s.plugin_wake))
        }),
{
}

/// A plugin is told how its own effects and transfers end: what it asks for is noted
/// under its place among the plugins, and what others asked for stays noted as it was.
pub proof fn a_plugin_owns_what_it_asks_for<W: Wire>(
    s: State<W>,
    idx: usize,
    cx: CxView,
    i: int,
    other: u64,
)
    ensures
        ({
            let s2 = s.remember(Some(idx), cx);
            &&& s2.next_token == cx.next_token
            &&& s2.next_transfer == cx.next_transfer
            &&& 0 <= i < cx.effects.len() ==> s2.effect_owner.dom().contains(cx.effects[i].0)
                && s2.effect_owner[cx.effects[i].0] == idx
            &&& 0 <= i < cx.bulk.len() ==> (cx.bulk[i] matches BulkView::Listen { transfer, .. }
                ==> s2.bulk_owner.dom().contains(transfer) && s2.bulk_owner[transfer] == idx)
            &&& 0 <= i < cx.bulk.len() ==> (cx.bulk[i] matches BulkView::Send { transfer, .. }
                ==> s2.bulk_owner.dom().contains(transfer) && s2.bulk_owner[transfer] == idx)
            &&& (forall|k: int| 0 <= k < cx.effects.len() ==> (#[trigger] cx.effects[k]).0 != other)
                ==> (s2.effect_owner.dom().contains(other) <==> s.effect_owner.dom().contains(
                other,
            )) && s2.effect_owner[other] == s.effect_owner[other]
        }),
{
    effects_are_owned(s.effect_owner, cx.effects, idx, i, other);
    transfers_are_owned(s.bulk_owner, cx.bulk, idx, i);
}

proof fn effects_are_owned(
    m: Map<u64, usize>,
    effects: Seq<(u64, EffectView)>,
    idx: usize,
    i: int,
    other: u64,
)
    ensures
        0 <= i < effects.len() ==> owners_of_effects(m, effects, idx).dom().contains(effects[i].0)
            && owners_of_effects(m, effects, idx)[effects[i].0] == idx,
        (forall|k: int| 0 <= k < effects.len() ==> (#[trigger] effects[k]).0 != other) ==> (
        owners_of_effects(m, effects, idx).dom().contains(other) <==> m.dom().contains(other))
            && owners_of_effects(m, effects, idx)[other] == m[other],
    decreases effects.len(),
{
    if effects.len() > 0 {
        let less = effects.drop_last();
        effects_are_owned(m, less, idx, i, other);
        if forall|k: int| 0 <= k < effects.len() ==> (#[trigger] effects[k]).0 != other {
            assert forall|k: int| 0 <= k < less.len() implies (#[trigger] less[k]).0 != other by {
                assert(less[k] == effects[k]);
            }
            assert(effects[effects.len() - 1].0 != other);
        }
    }
}

proof fn transfers_are_owned(m: Map<u64, usize>, list: Seq<BulkView>, idx: usize, i: int)
    ensures
        0 <= i < list.len() ==> (list[i] matches BulkView::Listen { transfer, .. }
            ==> owners_of_bulk(m, list, idx).dom().contains(transfer) && owners_of_bulk(
            m,
            list,
            idx,
        )[transfer] == idx),
        0 <= i < list.len() ==> (list[i] matches BulkView::Send { transfer, .. } ==> owners_of_bulk(
            m,
            list,
            idx,
        ).dom().contains(transfer) && owners_of_bulk(m, list, idx)[transfer] == idx),
    decreases list.len(),
{
    if list.len() > 0 {
        transfers_are_owned(m, list.drop_last(), idx, i);
    }
}

/// What a plugin is handed says what time it is, what the host can carry out and what
/// the link to its peer can, and holds nothing that another plugin asked for.
pub proof fn a_plugin_is_handed_a_clean_slate<W: Wire>(
    s: State<W>,
    now: u64,
    peer_bulk: Option<BulkSupport>,
)
    ensures
        ({
            let cx = s.context(now, peer_bulk);
            &&& cx.now_ms == now
            &&& cx.next_token == s.next_token
            &&& cx.next_transfer == s.next_transfer
            &&& cx.serves == s.serves
            &&& cx.peer_bulk == peer_bulk
            &&& cx.sends.len() == 0
            &&& cx.effects.len() == 0
            &&& cx.ui.len() == 0
            &&& cx.bulk.len() == 0
            &&& cx.wake_at is None
        }),
{
}

/// The plugin that asked for an effect is told how it went, and only once.
pub proof fn an_effect_is_answered_to_who_asked<W: Wire>(
    s: State<W>,
    now: u64,
    token: EffectToken,
    result: EffectResult,
    s2: State<W>,
    out2: Out,
)
    requires
        s.handled(now, Event::EffectDone { token, result }, s2, out2),
    ensures
        if s.effect_owner.dom().contains(token.0) {
            exists|t: State<W>| #[trigger]
                t.told_one(
                    now,
                    s.effect_owner[token.0],
                    (Told::Answer { token: token.0, result: result@ }),
                    None,
                    Ok(()),
                    Seq::empty(),
                    s2,
                    out2,
                ) && !t.effect_owner.dom().contains(token.0) && t.plugins == s.plugins && t.links
                    == s.links
        } else {
            s2 == s && out2.len() == 0
        },
{
    if s.effect_owner.dom().contains(token.0) {
        let t = State { effect_owner: s.effect_owner.remove(token.0), ..s };
        assert(t.told_one(
            now,
            s.effect_owner[token.0],
            (Told::Answer { token: token.0, result: result@ }),
            None,
            Ok(()),
            Seq::empty(),
            s2,
            out2,
        ));
    }
}

/// The plugin whose transfer it is is told where to connect and how it ended; once it has
/// ended nobody owns it and nobody waits for it.
pub proof fn a_transfer_is_told_to_who_asked<W: Wire>(
    s: State<W>,
    now: u64,
    transfer: TransferId,
    endpoint: String,
    ok: bool,
    detail: String,
    s2: State<W>,
    out2: Out,
    s3: State<W>,
    out3: Out,
    s4: State<W>,
    out4: Out,
)
    requires
        s.handled(now, Event::BulkListening { transfer, endpoint }, s2, out2),
        s.handled(now, Event::BulkFinished { transfer, ok, detail }, s3, out3),
        s.handled(now, Event::BulkStarted { transfer }, s4, out4),
    ensures
        s.bulk_owner.dom().contains(transfer.0) ==> s.told_one(
            now,
            s.bulk_owner[transfer.0],
            (Told::Listening { transfer: transfer.0, endpoint: endpoint@ }),
            None,
            Ok(()),
            Seq::empty(),
            s2,
            out2,
        ),
        s.bulk_owner.dom().contains(transfer.0) ==> exists|mid: State<W>| #[trigger]
            s.told_one(
                now,
                s.bulk_owner[transfer.0],
                (Told::Finished { transfer: transfer.0, ok, detail: detail@ }),
                None,
                Ok(()),
                Seq::empty(),
                mid,
                out3,
            ) && mid.links == s3.links && mid.plugins == s3.plugins,
        !s3.bulk_owner.dom().contains(transfer.0),
        !s3.bulk_wait.dom().contains(transfer.0),
        !s4.bulk_wait.dom().contains(transfer.0),
        s4.bulk_owner == s.bulk_owner,
        out4.len() == 0,
        !s.bulk_owner.dom().contains(transfer.0) ==> out2.len() == 0 && out3.len() == 0,
{
    let told = Told::Finished { transfer: transfer.0, ok, detail: detail@ };
    let out: Out = Seq::empty();
    let mid = choose|mid: State<W>|
        #![trigger s.owner_told(now, transfer.0, told, out, mid, out3)]
        s.owner_told(now, transfer.0, told, out, mid, out3) && s3 == (State {
            bulk_owner: mid.bulk_owner.remove(transfer.0),
            bulk_wait: mid.bulk_wait.remove(transfer.0),
            ..mid
        });
    if s.bulk_owner.dom().contains(transfer.0) {
        assert(s.told_one(
            now,
            s.bulk_owner[transfer.0],
            told,
            None,
            Ok(()),
            Seq::empty(),
            mid,
            out3,
        ));
    }
}

// ----------------------------------------------------------------------- time

/// The core asks to be woken no later than anything falls due: a pairing, a dial, a
/// link that is not up yet, a transfer nobody has connected for, the next round of
/// dialling and a plugin's own wish; and at one of those.
pub proof fn nothing_falls_due_unnoticed<W: Wire>(s: State<W>, wake: Option<u64>, k: u64)
    requires
        s.is_next_deadline(wake),
    ensures
        s.pairing matches Some(w) ==> (wake matches Some(t) && t <= w.deadline),
        s.reconnect_at matches Some(d) ==> (wake matches Some(t) && t <= d),
        s.plugin_wake matches Some(d) ==> (wake matches Some(t) && t <= d),
        s.peer_dials.dom().contains(k) ==> (wake matches Some(t) && t <= s.peer_dials[k].0),
        s.bulk_wait.dom().contains(k) ==> (wake matches Some(t) && t <= s.bulk_wait[k]),
        s.links.dom().contains(k) ==> (s.links[k] matches LinkV::Handshaking(h) ==> (
        wake matches Some(t) && t <= h.deadline)),
        s.links.dom().contains(k) ==> (s.links[k] matches LinkV::Pending { deadline, .. } ==> (
        wake matches Some(t) && t <= deadline)),
        (s.pairing is None && s.reconnect_at is None && s.plugin_wake is None
            && s.peer_dials.dom().is_empty() && s.bulk_wait.dom().is_empty() && forall|l: u64|
            s.links.dom().contains(l) ==> #[trigger] s.links[l] is Up) ==> wake is None,
{
    if s.pairing is Some {
        assert(s.due(s.pairing->Some_0.deadline));
    }
    if s.reconnect_at is Some {
        assert(s.due(s.reconnect_at->Some_0));
    }
    if s.plugin_wake is Some {
        assert(s.due(s.plugin_wake->Some_0));
    }
    if s.peer_dials.dom().contains(k) {
        assert(s.due(s.peer_dials[k].0));
    }
    if s.bulk_wait.dom().contains(k) {
        assert(s.due(s.bulk_wait[k]));
    }
    if s.links.dom().contains(k) && !(s.links[k] is Up) {
        assert(s.due(link_deadline(s.links[k])->Some_0));
    }
}

/// Whom nothing reaches is dialled again when it is time to and not before: every paired
/// device without a session that an address is known for, and nobody else; the next
/// round is then one interval away.
pub proof fn a_round_of_dialling_has_its_time<W: Wire>(
    s: State<W>,
    now: u64,
    out: Out,
    peer: Seq<char>,
)
    requires
        s.clock_fits(now),
        s.peers.dom().finite(),
    ensures
        s.waiting().contains(peer) <==> s.peers.dom().contains(peer) && best(s.links, peer) is None
            && s.addrs.dom().contains(peer),
        s.reconnect_at matches Some(t) && now < t ==> s.reconnect(now, out) == (s, out),
        (s.reconnect_at is None || now >= s.reconnect_at->Some_0) && s.waiting() == seq![peer] ==> {
            let t = State {
                reconnect_at: Some((now + s.config.reconnect_every_ms) as u64),
                ..s
            };
            &&& s.reconnect(now, out) == t.connect_peer(now, peer, false, out)
            &&& t.reconnect_at == Some((now + s.config.reconnect_every_ms) as u64)
        },
{
    each_is_listed_once::<String>(s.peers.dom());
    let all = ascending::<String>(s.peers.dom());
    let idle = |id: Seq<char>| best(s.links, id) is None && s.addrs.dom().contains(id);
    if s.waiting().contains(peer) {
        all.lemma_filter_contains_rev(idle, peer);
        let i = choose|i: int| 0 <= i < s.waiting().len() && s.waiting()[i] == peer;
        all.lemma_filter_pred(idle, i);
        assert(all.contains(peer));
    }
    if s.peers.dom().contains(peer) && idle(peer) {
        assert(all.contains(peer));
        let i = choose|i: int| 0 <= i < all.len() && all[i] == peer;
        all.lemma_filter_contains(idle, i);
    }
    if s.waiting() == seq![peer] {
        let t = State { reconnect_at: Some((now + s.config.reconnect_every_ms) as u64), ..s };
        assert(t.waiting() =~= s.waiting());
        reveal_with_fuel(State::connect_all, 2);
    }
}

/// A pairing whose time is up is called off: its link, if digits were shown, is closed,
/// and it is said that nobody confirmed it.
pub proof fn a_pairing_whose_time_is_up_is_called_off<W: Wire>(s: State<W>, now: u64, out: Out)
    requires
        s.clock_fits(now),
        s.pairing matches Some(w) && now >= w.deadline,
    ensures
        ({
            let (s2, out2) = s.lapse_pairing(now, out);
            &&& s2.pairing is None
            &&& s2.pair_quiet_until == now + s.config.pair_cooldown_ms
            &&& out2.last() == ActionView::Ui(
                UiView::PairingFailed { reason: "nobody confirmed the pairing in time"@ },
            )
            &&& waits(s) ==> out2.len() == out.len() + 2 && out2[out.len() as int] == (
            ActionView::Close {
                link: s.pairing->Some_0.awaiting->Some_0.link,
                reason: ReasonView::Closed,
            }) && !s2.links.dom().contains(s.pairing->Some_0.awaiting->Some_0.link)
            &&& !waits(s) ==> out2.len() == out.len() + 1 && s2.links == s.links
        }),
{
}

/// A link whose time is up is closed, a dial whose time is up is forgotten, and each
/// goes on to the next route; where there is none it is remembered why.
pub proof fn what_has_had_its_time_goes<W: Wire>(
    s: State<W>,
    now: u64,
    link: u64,
    d: u64,
    out: Out,
)
    ensures
        ({
            let (s2, out2) = s.drop_stale(now, link, out);
            &&& !s2.links.dom().contains(link)
            &&& out2.len() > out.len()
            &&& out2[out.len() as int] == (ActionView::Close { link, reason: ReasonView::Closed })
            &&& (s.links.dom().contains(link) && s.links[link] is Handshaking && (
            s.links[link]->Handshaking_0.fallback matches Some(p) && p.routes.len() == 0 && best(
                s.links.remove(link),
                p.peer,
            ) is None)) ==> s2.dial_trouble.dom().contains(
                s.links[link]->Handshaking_0.fallback->Some_0.peer,
            ) && s2.dial_trouble[s.links[link]->Handshaking_0.fallback->Some_0.peer]
                == "got answer that cut off half way"@
        }),
        s.peer_dials.dom().contains(d) && s.peer_dials[d].1.routes.len() == 0 && best(
            s.links,
            s.peer_dials[d].1.peer,
        ) is None ==> ({
            let (s2, out2) = s.expire_dial(now, d, out);
            &&& !s2.peer_dials.dom().contains(d)
            &&& s2.dial_trouble.dom().contains(s.peer_dials[d].1.peer)
            &&& s2.dial_trouble[s.peer_dials[d].1.peer] == "peer didn't answer"@
        }),
{
}

/// A handshake that is cut off by its link going down is remembered as a connection
/// that closed too soon, where no route is left; a pairing on it is given up.
pub proof fn a_handshake_cut_off_is_remembered<W: Wire>(
    s: State<W>,
    now: u64,
    link: LinkId,
    reason: LinkDownReason,
    s2: State<W>,
    out2: Out,
    h: ShakingV,
)
    requires
        s.handled(now, Event::LinkDown { link, reason }, s2, out2),
        s.links.dom().contains(link.0),
        s.links[link.0] == LinkV::Handshaking(h),
    ensures
        s2.links == s.links.remove(link.0),
        h.pairing_flow ==> s2.pairing is None,
        !h.pairing_flow ==> s2.pairing == s.pairing,
        h.fallback matches Some(p) && p.routes.len() == 0 && best(s.links.remove(link.0), p.peer)
            is None ==> s2.dial_trouble.dom().contains(h.fallback->Some_0.peer)
            && s2.dial_trouble[h.fallback->Some_0.peer]
            == "connection closed before session was established"@,
        h.fallback is None ==> out2.len() == 0,
{
}

// -------------------------------------------------------------------- leaving

proof fn closing_goes_on<W: Wire>(
    now: u64,
    list: Seq<u64>,
    reason: ReasonView,
    trace: Seq<(State<W>, Out)>,
    from: int,
    to: int,
)
    requires
        close_trace(now, list, reason, trace),
        0 <= from <= to <= list.len(),
    ensures
        grows(trace[from].1, trace[to].1),
        forall|i: int|
            from <= i < to ==> trace[to].1.contains(
                ActionView::Close { link: #[trigger] list[i], reason },
            ),
    decreases to,
{
    if from < to {
        closing_goes_on(now, list, reason, trace, from, to - 1);
        let (s, out) = trace[to - 1];
        let (s2, out2) = trace[to];
        let link = list[to - 1];
        let said = out.push(ActionView::Close { link, reason });
        let (mid, o, gone) = s.link_down(now, link, said);
        assert(s.closed_one(now, link, reason, out, s2, out2));
        try_next_route_grows(s, now, link, said);
        if left(gone) is Some {
            all_told_ran(mid, now, left(gone)->Some_0, o, s2, out2);
            plugins_reach_no_further(mid, now, None, o, s2, out2);
        }
        assert(grows(said, out2));
        assert(out2[out.len() as int] == said[out.len() as int]);
        assert forall|i: int| from <= i < to implies out2.contains(
            ActionView::Close { link: #[trigger] list[i], reason },
        ) by {
            if i < to - 1 {
                let a = ActionView::Close { link: list[i], reason };
                let k = choose|k: int| 0 <= k < out.len() && out[k] == a;
                assert(said[k] == a);
                assert(out2[k] == a);
            } else {
                assert(out2.contains(out2[out.len() as int]));
            }
        }
        assert forall|k: int| 0 <= k < trace[from].1.len() implies #[trigger] out2[k]
            == trace[from].1[k] by {
            assert(out[k] == trace[from].1[k]);
            assert(said[k] == out[k]);
        }
    }
}

proof fn try_next_route_grows<W: Wire>(s: State<W>, now: u64, link: u64, out: Out)
    ensures
        grows(out, s.link_down(now, link, out).1),
{
}

/// A person who disconnects from a peer has every link to it closed, in the ordinary
/// way; the peer stays paired.
pub proof fn disconnecting_closes_every_link<W: Wire>(
    s: State<W>,
    now: u64,
    peer: DeviceId,
    s2: State<W>,
    out2: Out,
    l: u64,
)
    requires
        s.handled(now, Event::Local(LocalCommand::Disconnect { peer }), s2, out2),
        carries(s.links, l, peer@),
    ensures
        out2.contains(ActionView::Close { link: l, reason: ReasonView::Closed }),
{
    let list = s.links_to(peer@);
    let out: Out = Seq::empty();
    every_link_is_listed(s, peer@, l);
    let trace = choose|trace: Seq<(State<W>, Out)>|
        #[trigger] close_trace(now, list, ReasonView::Closed, trace) && trace[0] == (s, out)
            && trace[list.len() as int] == (s2, out2);
    closing_goes_on(now, list, ReasonView::Closed, trace, 0, list.len() as int);
    let i = choose|i: int| 0 <= i < list.len() && list[i] == l;
    assert(out2.contains(ActionView::Close { link: list[i], reason: ReasonView::Closed }));
}

/// A person who forgets a peer has its kept record taken away first of all, and every
/// link to it closed because it is not paired any more.
pub proof fn forgetting_closes_every_link<W: Wire>(
    s: State<W>,
    now: u64,
    peer: DeviceId,
    s2: State<W>,
    out2: Out,
    l: u64,
)
    requires
        s.handled(now, Event::Local(LocalCommand::Revoke { peer }), s2, out2),
        carries(s.links, l, peer@),
    ensures
        out2[0] == (ActionView::Persist {
            key: "peer/"@ + peer@,
            value: None,
            sensitivity: Sensitivity::Secret,
        }),
        out2.contains(
            ActionView::Close { link: l, reason: ReasonView::Protocol(ErrorCode::NotPaired) },
        ),
        out2.contains(ActionView::Ui(UiView::Revoked { peer: peer@ })),
{
    let t = s.without_peer(peer@);
    let list = t.links_to(peer@);
    let reason = ReasonView::Protocol(ErrorCode::NotPaired);
    let start = unkeep(peer@, Seq::empty());
    every_link_is_listed(t, peer@, l);
    let o = choose|o: Out|
        #![trigger t.closed_down(now, list, reason, start, s2, o)]
        t.closed_down(now, list, reason, start, s2, o) && out2 == if s.peers.dom().contains(
            peer@,
        ) {
            s2.announce(
                s.peers[peer@].fingerprint,
                ui(o, UiView::Revoked { peer: peer@ }),
            )
        } else {
            ui(o, UiView::Revoked { peer: peer@ })
        };
    let trace = choose|trace: Seq<(State<W>, Out)>|
        #[trigger] close_trace(now, list, reason, trace) && trace[0] == (t, start)
            && trace[list.len() as int] == (s2, o);
    closing_goes_on(now, list, reason, trace, 0, list.len() as int);
    let i = choose|i: int| 0 <= i < list.len() && list[i] == l;
    let a = ActionView::Close { link: list[i], reason };
    let k = choose|k: int| 0 <= k < o.len() && o[k] == a;
    assert(out2[k] == a);
    assert(out2[o.len() as int] == ActionView::Ui(UiView::Revoked { peer: peer@ }));
    assert(o[0] == start[0]);
    assert(out2[0] == o[0]);
}

proof fn every_link_is_listed<W: Wire>(s: State<W>, peer: Seq<char>, l: u64)
    requires
        carries(s.links, l, peer),
    ensures
        s.links_to(peer).contains(l),
{
    numbers_are_finite(s.links.dom());
    each_is_listed_once::<u64>(s.links.dom());
    let all = ascending::<u64>(s.links.dom());
    assert(all.contains(l));
    let i = choose|i: int| 0 <= i < all.len() && all[i] == l;
    all.lemma_filter_contains(|x: u64| carries(s.links, x, peer), i);
}

// ------------------------------------------------------------- what can be asked

proof fn what_is_nearby<W: Wire>(s: State<W>, n: int, x: (Seq<char>, Seq<char>, Seq<char>, u16, bool))
    requires
        0 <= n <= ascending::<String>(s.seen.dom()).len(),
    ensures
        s.nearby_up_to(n).contains(x) <==> exists|i: int|
            0 <= i < n && s.is_nearby(#[trigger] ascending::<String>(s.seen.dom())[i])
                && s.shown_nearby(ascending::<String>(s.seen.dom())[i]) == x,
    decreases n,
{
    if n > 0 {
        what_is_nearby(s, n - 1, x);
        let all = ascending::<String>(s.seen.dom());
        let less = s.nearby_up_to(n - 1);
        if s.is_nearby(all[n - 1]) {
            let more = less.push(s.shown_nearby(all[n - 1]));
            if more.contains(x) {
                let k = choose|k: int| 0 <= k < more.len() && more[k] == x;
                if k < less.len() {
                    assert(less.contains(x));
                } else {
                    assert(s.is_nearby(all[n - 1]));
                }
            }
            if less.contains(x) {
                let k = choose|k: int| 0 <= k < less.len() && less[k] == x;
                assert(more[k] == x);
            }
            assert(more[less.len() as int] == s.shown_nearby(all[n - 1]));
            assert(more.contains(more[less.len() as int]));
        }
    }
}

/// What is listed as nearby is every machine that has been seen, is not paired and has an
/// address: under its fingerprint and name, at the best of its addresses, and as open to
/// pairing as it said.
pub proof fn every_stranger_in_sight_is_listed<W: Wire>(c: Core<W>, list: Vec<Nearby>, fp: Seq<char>)
    requires
        call_ensures(Core::<W>::nearby, (&c,), list),
        c@.seen.dom().finite(),
        c@.seen.dom().contains(fp),
        !c@.paired(fp),
        c@.seen[fp].routes.dom().finite(),
        c@.seen[fp].routes.dom().len() > 0,
    ensures
        exists|i: int|
            0 <= i < list.len() && (#[trigger] list@[i]).fingerprint@ == fp && list@[i].name@
                == c@.seen[fp].name && list@[i].pairing == c@.seen[fp].pairing && best_of(
                c@.seen[fp].routes,
                list@[i].transport.0,
                list@[i].addr@,
            ),
{
    let s = c@;
    let shown = list@.map_values(|n: Nearby| nearby_view(n));
    each_is_listed_once::<String>(s.seen.dom());
    the_best_route_comes_first(s.seen[fp].routes);
    let all = ascending::<String>(s.seen.dom());
    assert(all.contains(fp));
    let k = choose|k: int| 0 <= k < all.len() && all[k] == fp;
    assert(s.is_nearby(all[k]));
    what_is_nearby(s, all.len() as int, s.shown_nearby(fp));
    assert(shown.contains(s.shown_nearby(fp)));
    let i = choose|i: int| 0 <= i < shown.len() && shown[i] == s.shown_nearby(fp);
    assert(shown[i] == nearby_view(list@[i]));
}

/// Nobody is listed as nearby who is paired, or who has not been seen.
pub proof fn only_strangers_are_listed<W: Wire>(c: Core<W>, list: Vec<Nearby>, i: int)
    requires
        call_ensures(Core::<W>::nearby, (&c,), list),
        c@.seen.dom().finite(),
        0 <= i < list.len(),
    ensures
        c@.seen.dom().contains(list@[i].fingerprint@),
        !c@.paired(list@[i].fingerprint@),
{
    let s = c@;
    let shown = list@.map_values(|n: Nearby| nearby_view(n));
    each_is_listed_once::<String>(s.seen.dom());
    let all = ascending::<String>(s.seen.dom());
    assert(shown[i] == nearby_view(list@[i]));
    assert(shown.contains(shown[i]));
    what_is_nearby(s, all.len() as int, shown[i]);
    let k = choose|k: int|
        0 <= k < all.len() && s.is_nearby(#[trigger] all[k]) && s.shown_nearby(all[k]) == shown[i];
    assert(all.contains(all[k]));
}

/// The peers that are listed are the records that are kept, one for each, in the order of
/// their ids.
pub proof fn the_peers_listed_are_the_ones_kept<W: Wire>(
    c: Core<W>,
    list: Vec<PeerRecord>,
    id: Seq<char>,
)
    requires
        call_ensures(Core::<W>::peers, (&c,), list),
    ensures
        list.len() == c@.peers.dom().len(),
        c@.peers.dom().contains(id) ==> exists|i: int|
            0 <= i < list.len() && (#[trigger] list@[i])@ == c@.peers[id].record,
        forall|i: int|
            0 <= i < list.len() ==> exists|k: Seq<char>|
                c@.peers.dom().contains(k) && (#[trigger] list@[i])@ == (#[trigger] c@.peers[k]).record,
{
    let s = c@;
    each_is_listed_once::<String>(s.peers.dom());
    let all = ascending::<String>(s.peers.dom());
    let seen = list@.map_values(|p: PeerRecord| p@);
    assert forall|i: int| 0 <= i < list.len() implies exists|k: Seq<char>|
        s.peers.dom().contains(k) && (#[trigger] list@[i])@ == (#[trigger] s.peers[k]).record by {
        assert(seen[i] == list@[i]@);
        assert(s.records()[i] == s.peers[all[i]].record);
        assert(all.contains(all[i]));
    }
    if s.peers.dom().contains(id) {
        assert(all.contains(id));
        let i = choose|i: int| 0 <= i < all.len() && all[i] == id;
        assert(seen[i] == list@[i]@);
        assert(s.records()[i] == s.peers[all[i]].record);
    }
}

/// What is asked of a core about itself and about a peer is what it holds: its id and
/// fingerprint, what it offers, what went wrong on the way to a peer, and which kind of
/// transport carries it now.
pub proof fn a_core_answers_for_itself<W: Wire>(
    c: Core<W>,
    peer: DeviceId,
    id: DeviceId,
    fp: Fingerprint,
    sends: &Vec<String>,
    takes: &Vec<String>,
    serves: &Vec<String>,
    trouble: Option<&str>,
    state: PeerState,
    kind: Option<TransportKind>,
)
    requires
        call_ensures(Core::<W>::device_id, (&c,), id),
        call_ensures(Core::<W>::fingerprint, (&c,), fp),
        call_ensures(Core::<W>::caps_out, (&c,), sends),
        call_ensures(Core::<W>::caps_in, (&c,), takes),
        call_ensures(Core::<W>::caps_served, (&c,), serves),
        call_ensures(Core::<W>::dial_trouble, (&c, &peer), trouble),
        call_ensures(Core::<W>::peer_state, (&c, &peer), state),
        call_ensures(Core::<W>::transport_for, (&c, &peer), kind),
    ensures
        id@ == c@.own_id,
        fp@ == c@.own_fp,
        texts(sends@) == c@.caps_out,
        texts(takes@) == c@.caps_in,
        texts(serves@) == c@.caps_served,
        trouble is Some <==> c@.dial_trouble.dom().contains(peer@),
        trouble matches Some(t) ==> t@ == c@.dial_trouble[peer@],
        state == PeerState::Reachable <==> best(c@.links, peer@) is Some,
        kind is Some <==> state == PeerState::Reachable,
        kind matches Some(k) ==> exists|l: u64|
            is_best(c@.links, l, peer@) && k == (#[trigger] c@.links[l])->Up_0.kind,
{
    if kind is Some {
        let l = best(c@.links, peer@)->Some_0;
        assert(is_best(c@.links, l, peer@));
        assert(kind->Some_0 == c@.links[l]->Up_0.kind);
    }
}

// -------------------------------------------------------------------- refusals

/// A message that is refused is answered on its own request: to its sender, under its
/// capability, as an error that goes by the name of what was wrong.
pub proof fn a_refusal_answers_its_request(
    peer: Seq<char>,
    cap: Seq<char>,
    id: u32,
    code: ErrorCode,
)
    ensures
        ({
            let m = error_answer(peer, cap, id, code);
            &&& m.peer == peer
            &&& m.cap == cap
            &&& m.ty == "err"@
            &&& m.re == Some(id)
            &&& m.body == crate::cbor::text_item(code.name())
        }),
{
}

/// What a plugin refuses is answered with the code of its refusal, to who asked and on
/// what was asked, after whatever the plugin had put out; what it takes is not answered.
pub proof fn a_plugins_refusal_is_answered<W: Wire>(
    fault: Option<FaultView>,
    s: State<W>,
    out: Out,
    sealed: Sealed,
    peer: Seq<char>,
    cap: Seq<char>,
    id: u32,
)
    ensures
        fault is None ==> answered(fault, s, out, sealed, peer, cap, id) == (s, out),
        fault matches Some(f) ==> answered(fault, s, out, sealed, peer, cap, id) == s.send_step(
            SendView {
                peer,
                cap,
                ty: "err"@,
                body: crate::cbor::text_item(f.code().name()),
                re: Some(id),
            },
            sealed,
            out,
        ),
{
}

/// A frame on a session that does not open, or that is no message of a session, ends the
/// link: it is closed as not allowed, why is said under the peer's name, and the peer is
/// said to be gone where that was its last link.
pub proof fn a_frame_that_does_not_open_ends_the_link<W: Wire>(
    s: State<W>,
    now: u64,
    link: u64,
    u: UpV,
    why: Seq<char>,
    out: Out,
)
    requires
        !s.links.dom().contains(link),
    ensures
        ({
            let (s2, out2, news) = s.fail_up_link(now, link, u, why, out);
            &&& s2.links == s.links
            &&& out2.len() == out.len() + 3
            &&& out2[out.len() as int] == (ActionView::Close {
                link,
                reason: ReasonView::Protocol(ErrorCode::NotAllowed),
            })
            &&& out2[out.len() as int + 1] == ActionView::Ui(
                UiView::Error { peer: Some(u.peer), code: ErrorCode::NotAllowed, detail: why },
            )
            &&& best(s.links, u.peer) is None ==> out2.last() == ActionView::Ui(
                UiView::PeerUnreachable { peer: u.peer },
            ) && news == Some(Told::Disconnected { peer: u.peer }) && s2.reconnect_at == Some(0u64)
            &&& best(s.links, u.peer) is Some ==> out2.last() == ActionView::Ui(
                UiView::PeerReachable { peer: u.peer, name: s.name_of(u.peer) },
            ) && news is None
        }),
{
    assert(s.links.insert(link, LinkV::Up(u)).remove(link) =~= s.links);
}

/// A session frame that opens to no message is said to be none, and the link stays; it
/// counts as being heard from.
pub proof fn a_frame_without_a_message_is_said<W: Wire>(
    s: State<W>,
    now: u64,
    link: u64,
    u: UpV,
    out: Out,
    s2: State<W>,
    out2: Out,
)
    requires
        s.transport_frame(now, link, u, FrameKind::Transport, Opened::NoEnvelope, out, s2, out2),
    ensures
        s2.links.dom().contains(link),
        s2.links[link] matches LinkV::Up(v) && v.last_recv_ms == now && v.peer == u.peer,
        out2 == out.push(
            ActionView::Ui(
                UiView::Error {
                    peer: Some(u.peer),
                    code: ErrorCode::BadBody,
                    detail: "envelope did not decode"@,
                },
            ),
        ),
{
}

/// Who calls and cannot have a session is turned away for a reason: it is not known, or its
/// record is of no use; and who is known by a record that is of use is not.
pub proof fn a_caller_is_turned_away_for_a_reason<W: Wire>(s: State<W>, id: Seq<char>)
    ensures
        s.why_no_session(id) is None <==> s.peers.dom().contains(id)
            && s.peers[id].record.session_psk.len() == 32,
        !s.peers.dom().contains(id) ==> s.why_no_session(id) == Some("unknown device"@),
        s.peers.dom().contains(id) && s.peers[id].record.session_psk.len() != 32
            ==> s.why_no_session(id) == Some("corrupt peer record"@),
{
}

/// A session opener that is no good is turned away with its reason, and nobody is told: one
/// that cannot be read, one of a stranger, and one that is not fresh.
pub proof fn a_bad_opener_is_turned_away<W: Wire>(
    s: State<W>,
    now: u64,
    link: u64,
    attrs: LinkAttrs,
    opener: Opener,
    out: Out,
)
    requires
        !s.links.dom().contains(link),
        match opener {
            Opener::Unreadable => true,
            Opener::Unread(_, _) => true,
            Opener::Read(id, heard, _) => s.why_no_session(id) is Some || !s.takes_hello(id, heard),
        },
    ensures
        ({
            let (s2, out2, news) = s.session_opener(now, link, attrs, opener, out);
            &&& news is None
            &&& s2.peers == s.peers
            &&& !s2.links.dom().contains(link)
            &&& out2.len() >= out.len() + 2
            &&& out2[out2.len() - 2] == (ActionView::Close {
                link,
                reason: ReasonView::Protocol(ErrorCode::NotAllowed),
            })
            &&& out2.last() matches ActionView::Ui(UiView::Error { code, detail, .. }) && code
                == ErrorCode::NotAllowed && (opener is Unreadable ==> detail
                == "unreadable session opener"@)
        }),
{
}

/// A link that has said nothing yet is closed where its first frame is one of a session
/// that was never made, and a handshake where a frame of another kind arrives.
pub proof fn frames_come_in_order<W: Wire>(
    s: State<W>,
    now: u64,
    link: u64,
    attrs: LinkAttrs,
    deadline: u64,
    greeted: Greeted,
    opener: Opener,
    h: ShakingV,
    kind: FrameKind,
    turn: Turn,
    out: Out,
)
    requires
        kind != (if h.pairing_flow {
            FrameKind::PairHandshake
        } else {
            FrameKind::SessionHandshake
        }),
    ensures
        ({
            let (s2, out2, news) = s.first_frame(
                now,
                link,
                attrs,
                deadline,
                FrameKind::Transport,
                greeted,
                opener,
                out,
            );
            &&& !s2.links.dom().contains(link) && news is None && out2.len() == out.len() + 2
            &&& out2[out.len() as int] == (ActionView::Close {
                link,
                reason: ReasonView::Protocol(ErrorCode::NotAllowed),
            })
            &&& out2.last() matches ActionView::Ui(UiView::Error { detail, .. }) && detail
                == "transport frame before a handshake"@
        }),
        ({
            let (s2, out2, news) = s.handshake_frame(now, link, h, kind, turn, out);
            &&& !s2.links.dom().contains(link) && news is None && out2.len() == out.len() + 2
            &&& out2[out.len() as int] == (ActionView::Close {
                link,
                reason: ReasonView::Protocol(ErrorCode::NotAllowed),
            })
            &&& out2.last() matches ActionView::Ui(UiView::Error { detail, .. }) && detail
                == "handshake frame of the wrong kind"@
        }),
{
}

// ------------------------------------------------------------- more of discovery

/// A machine that was seen one way only, and whose way is withdrawn, is seen no more; that
/// is said where it had been offered.
pub proof fn a_machine_out_of_sight_is_withdrawn<W: Wire>(
    s: State<W>,
    now: u64,
    transport: TransportId,
    addr: String,
    s2: State<W>,
    out2: Out,
    fp: Seq<char>,
)
    requires
        s.seen.dom().finite(),
        s.handled(now, Event::Undiscovered { transport, addr }, s2, out2),
        s.seen.dom().contains(fp),
        s.seen[fp].routes == map![transport.0 => addr@],
    ensures
        !s2.seen.dom().contains(fp),
        !s.paired(fp) ==> out2.contains(ActionView::Ui(UiView::Undiscovered { fingerprint: fp })),
        s.paired(fp) ==> !out2.contains(ActionView::Ui(UiView::Undiscovered { fingerprint: fp })),
        s2.peers == s.peers,
{
    let routes = s.seen[fp].routes;
    assert(routes.remove(transport.0) =~= Map::<u16, Seq<char>>::empty());
    assert(s.vanishes(fp, transport.0, addr@));
    let all = ascending::<String>(s.seen.dom());
    each_is_listed_once::<String>(s.seen.dom());
    assert(all.contains(fp));
    let test = |f: Seq<char>| s.vanishes(f, transport.0, addr@);
    let i = choose|i: int| 0 <= i < all.len() && all[i] == fp;
    all.lemma_filter_contains(test, i);
    let gone = s.vanished(transport.0, addr@);
    assert(gone.contains(fp));
    who_is_gone_is_said(s, gone, gone.len() as int, Seq::empty(), fp);
}

proof fn who_is_gone_is_said<W: Wire>(
    s: State<W>,
    gone: Seq<Seq<char>>,
    n: int,
    out: Out,
    fp: Seq<char>,
)
    requires
        0 <= n <= gone.len(),
        out.len() == 0,
    ensures
        (exists|i: int| 0 <= i < n && #[trigger] gone[i] == fp) && !s.paired(fp) ==> s.withdraw(
            gone,
            n,
            out,
        ).contains(ActionView::Ui(UiView::Undiscovered { fingerprint: fp })),
        s.paired(fp) ==> !s.withdraw(gone, n, out).contains(
            ActionView::Ui(UiView::Undiscovered { fingerprint: fp }),
        ),
    decreases n,
{
    if n > 0 {
        who_is_gone_is_said(s, gone, n - 1, out, fp);
        let a = ActionView::Ui(UiView::Undiscovered { fingerprint: fp });
        let before = s.withdraw(gone, n - 1, out);
        let after = s.withdraw(gone, n, out);
        if before.contains(a) {
            let k = choose|k: int| 0 <= k < before.len() && before[k] == a;
            assert(after[k] == a);
        }
        if !s.paired(gone[n - 1]) {
            assert(after[before.len() as int] == ActionView::Ui(
                UiView::Undiscovered { fingerprint: gone[n - 1] },
            ));
        }
        if s.paired(fp) && after.contains(a) {
            let k = choose|k: int| 0 <= k < after.len() && after[k] == a;
            if k < before.len() {
                assert(before[k] == a);
            }
        }
    }
}

/// A sighting keeps every other machine in sight as it was, while there is room for them.
pub proof fn a_sighting_keeps_the_others<W: Wire>(
    s: State<W>,
    fp: Seq<char>,
    transport: u16,
    name: Seq<char>,
    addr: Seq<char>,
    pairing: bool,
    other: Seq<char>,
)
    requires
        s.seen.dom().len() < 256,
        other != fp,
    ensures
        s.sight(fp, transport, name, addr, pairing).seen.dom().contains(other)
            <==> s.seen.dom().contains(other),
        s.sight(fp, transport, name, addr, pairing).seen[other] == s.seen[other],
        s.sight(fp, transport, name, addr, pairing).seen[fp].name == name,
        s.sight(fp, transport, name, addr, pairing).seen[fp].pairing == pairing,
{
}

/// A person who asks for routes to be thought over again has every peer tried, in the order
/// of ids, each as if nobody had asked for it.
pub proof fn every_peer_is_tried_again<W: Wire>(
    s: State<W>,
    now: u64,
    s2: State<W>,
    out2: Out,
    a: Seq<char>,
)
    requires
        s.handled(now, Event::Local(LocalCommand::ReconsiderRoutes), s2, out2),
        ascending::<String>(s.peers.dom()) == seq![a],
    ensures
        (s2, out2) == s.connect_peer(now, a, false, Seq::empty()),
{
    reveal_with_fuel(State::connect_all, 2);
}

// ------------------------------------------------------------------ more of time

/// Plugins that asked to be woken are, at their time and not before, all of them, and then
/// have to ask again.
pub proof fn plugins_are_woken_at_their_time<W: Wire>(
    s: State<W>,
    now: u64,
    out: Out,
    s2: State<W>,
    out2: Out,
)
    requires
        s.woke(now, out, s2, out2),
    ensures
        s.plugin_wake matches Some(t) && now >= t ==> exists|u: State<W>| #[trigger]
            u.told_all(now, Told::Tick, out, s2, out2) && u.plugin_wake is None && u.plugins
                == s.plugins,
        (s.plugin_wake is None || now < s.plugin_wake->Some_0) ==> (s2, out2) == (s, out),
{
    if s.plugin_wake is Some && now >= s.plugin_wake->Some_0 {
        let u = State { plugin_wake: None, ..s };
        assert(u.told_all(now, Told::Tick, out, s2, out2));
    }
}

/// A transfer whose sender never came is called off with the host first; then its plugin is
/// told that it failed, and why; and nobody waits for it or owns it any more.
pub proof fn a_sender_that_never_came_is_told<W: Wire>(
    s: State<W>,
    now: u64,
    transfer: u64,
    out: Out,
    s2: State<W>,
    out2: Out,
)
    requires
        s.gave_up(now, transfer, out, s2, out2),
        s.bulk_owner.dom().contains(transfer),
    ensures
        exists|u: State<W>, mid: State<W>| #[trigger]
            u.told_one(
                now,
                s.bulk_owner[transfer],
                (Told::Finished {
                    transfer,
                    ok: false,
                    detail: "the sender never connected"@,
                }),
                None,
                Ok(()),
                out.push(ActionView::BulkCancel { transfer }),
                mid,
                out2,
            ) && !u.bulk_wait.dom().contains(transfer) && u.plugins == s.plugins && mid.plugins
                == s2.plugins,
        !s2.bulk_owner.dom().contains(transfer),
{
    let u = State { bulk_wait: s.bulk_wait.remove(transfer), ..s };
    let told = Told::Finished { transfer, ok: false, detail: "the sender never connected"@ };
    let o = out.push(ActionView::BulkCancel { transfer });
    let mid = choose|mid: State<W>|
        #![trigger u.owner_told(now, transfer, told, o, mid, out2)]
        u.owner_told(now, transfer, told, o, mid, out2) && s2 == (State {
            bulk_owner: mid.bulk_owner.remove(transfer),
            ..mid
        });
    assert(u.told_one(now, s.bulk_owner[transfer], told, None, Ok(()), o, mid, out2));
}

/// A core goes by the host's clocks: everything that follows from an event is counted from
/// the monotonic time, and the wall clock is only what a hello says.
pub proof fn a_core_goes_by_the_hosts_clocks<W: Wire>(
    c: &mut Core<W>,
    now: Now,
    ev: Event,
    out: Outcome,
)
    requires
        call_ensures(Core::<W>::handle, (c, now, ev), out),
        old(c)@.clock_fits(now.monotonic_ms),
    ensures
        exists|s: State<W>| #[trigger]
            s.handled(now.monotonic_ms, ev, final(c)@, out@) && s.hello().ts_ms == now.wall_ms
                && s.links == old(c)@.links && s.peers == old(c)@.peers && s.pairing
                == old(c)@.pairing,
        final(c)@.is_next_deadline(out.next_deadline_ms),
{
    let s = State { wall_ms: now.wall_ms, ..old(c)@ };
    assert(s.handled(now.monotonic_ms, ev, final(c)@, out@));
}

// ------------------------------------------------------------ what a frame holds

/// What is heard on an established link is what the session's cipher gives back: a message
/// that was sealed for it, something sealed that is no message, or nothing where nothing
/// can have been sealed so.
pub proof fn what_is_heard_is_what_was_sealed<W: Wire>(
    s: State<W>,
    u: UpV,
    body: Seq<u8>,
    opened: Opened,
    p: Seq<u8>,
)
    requires
        s.opened_fits(u, body, opened),
        u.session.opens(body, p),
    ensures
        opened !is Sealed,
        opened matches Opened::Message(env) ==> envelope_read(s.wire, p, Some(env)),
        opened is NoEnvelope ==> envelope_read(s.wire, p, None),
{
}

/// A message that does not go out could not be written, or was written and is too much for
/// the cipher; one that could be written and sealed goes out.
pub proof fn a_message_stays_for_a_reason<W: Wire>(
    wire: W,
    session: SessionView,
    env: EnvelopeView,
    sealed: Sealed,
)
    requires
        seals(wire, session, env, sealed),
    ensures
        sealed is Unwritten ==> envelope_written(wire, env, None),
        sealed is Failed ==> exists|p: Seq<u8>|
            #[trigger] envelope_written(wire, env, Some(p)) && !session.can_seal(p),
        sealed is Message ==> exists|p: Seq<u8>|
            #[trigger] envelope_written(wire, env, Some(p)) && session.can_seal(p),
{
}

/// A pairing handshake that is over ends with the far end's hello, with a key and no hello
/// that can be read, or with no key; never with a session.
pub proof fn a_pairing_ends_with_what_was_heard<W: Wire>(
    s: State<W>,
    h: ShakingV,
    payload: Seq<u8>,
    hs: Handshake,
    end: End,
)
    requires
        s.end_fits(h, payload, hs, end),
        h.pairing_flow,
    ensures
        end is NoHello ==> hs.remote() is Some && hello_read(s.wire, payload, None),
        end matches End::Found(f) ==> hs.remote() == Some(f.key),
        hs.remote() is Some ==> end is NoHello || end is Found,
        end is NoKey ==> hs.remote() is None,
{
}

/// A whole message that is no frame, or a frame on a link that is not there, closes the link
/// it came on, and is said to be that.
pub proof fn what_is_no_frame_ends_the_link<W: Wire>(
    s: State<W>,
    now: u64,
    link: u64,
    msg: Seq<u8>,
    frame: Option<(FrameKind, Seq<u8>)>,
    greeted: Greeted,
    opener: Opener,
    turn: Turn,
    opened: Opened,
    out: Out,
    s2: State<W>,
    out2: Out,
)
    requires
        s.received(now, link, msg, frame, greeted, opener, turn, opened, out, s2, out2),
        frame is None || !s.links.dom().contains(link),
    ensures
        splits(s.wire, msg, frame),
        !s2.links.dom().contains(link),
        s2.peers == s.peers,
        out2.len() == out.len() + 2,
        out2[out.len() as int] == (ActionView::Close {
            link,
            reason: ReasonView::Protocol(ErrorCode::NotAllowed),
        }),
        out2.last() matches ActionView::Ui(UiView::Error { code, detail, .. }) && code
            == ErrorCode::NotAllowed && detail == (if frame is None {
            "malformed frame"@
        } else {
            "frame on an unknown link"@
        }),
{
}

/// A transfer that has begun is not waited for any more, and every other still is.
pub proof fn a_transfer_that_begins_is_not_waited_for<W: Wire>(
    s: State<W>,
    now: u64,
    transfer: TransferId,
    s2: State<W>,
    out2: Out,
    other: u64,
)
    requires
        s.handled(now, Event::BulkStarted { transfer }, s2, out2),
    ensures
        out2.len() == 0,
        !s2.bulk_wait.dom().contains(transfer.0),
        other != transfer.0 ==> (s2.bulk_wait.dom().contains(other)
            <==> s.bulk_wait.dom().contains(other)) && s2.bulk_wait[other] == s.bulk_wait[other],
        s2.bulk_owner == s.bulk_owner,
        s2.plugins == s.plugins,
        s2.links == s.links,
{
}

/// An address that is withdrawn is forgotten where it is the one that is held, and one that
/// has taken its place stays; a peer's other transports stay as they are.
pub proof fn only_the_address_that_is_withdrawn_is_forgotten<W: Wire>(
    s: State<W>,
    peer: Seq<char>,
    transport: u16,
    addr: Seq<char>,
    other: u16,
)
    ensures
        ({
            let s2 = s.forget_peer_address(peer, transport, addr);
            &&& s.addrs.dom().contains(peer) && s.addrs[peer].dom().contains(transport)
                && s.addrs[peer][transport] == addr && s2.addrs.dom().contains(peer)
                ==> !s2.addrs[peer].dom().contains(transport)
            &&& s.addrs.dom().contains(peer) && s.addrs[peer].dom().contains(transport)
                && s.addrs[peer][transport] != addr ==> s2 == s
            &&& s.addrs.dom().contains(peer) && s.addrs[peer].dom().contains(other) && other
                != transport ==> s2.addrs.dom().contains(peer)
                && s2.addrs[peer].dom().contains(other) && s2.addrs[peer][other]
                == s.addrs[peer][other]
        }),
{
    if s.addrs.dom().contains(peer) && s.addrs[peer].dom().contains(other) && other != transport {
        let rest = s.addrs[peer].remove(transport);
        assert(rest.dom().contains(other));
        assert(rest != Map::<u16, Seq<char>>::empty());
    }
}

// ------------------------------------------------------------- why it went no further

/// Whether what was put out ends with a link being closed as not allowed, and why.
pub open spec fn ends_with_close(out: Out, link: u64, why: Seq<char>) -> bool {
    &&& out.len() >= 2
    &&& out[out.len() - 2] == (ActionView::Close {
        link,
        reason: ReasonView::Protocol(ErrorCode::NotAllowed),
    })
    &&& out.last() matches ActionView::Ui(UiView::Error { code, detail, .. }) && code
        == ErrorCode::NotAllowed && detail == why
}

/// A handshake that is over and has come to nothing closes its link, and why is said: there
/// is no key, nobody was expected, or the hello is one that was heard before.
pub proof fn a_handshake_that_came_to_nothing_says_why<W: Wire>(
    s: State<W>,
    now: u64,
    link: u64,
    h: ShakingV,
    end: End,
    out: Out,
)
    ensures
        ({
            let (s2, out2, news) = s.handshake_end(now, link, h, end, out);
            &&& h.pairing_flow && end is NoKey ==> news is None && !s2.links.dom().contains(link)
                && ends_with_close(out2, link, "handshake completed without a peer key"@)
            &&& h.pairing_flow && end is NoHello ==> news is None && (s2, out2)
                == s.pairing_attempt_failed(now, link, out)
            &&& !h.pairing_flow && h.expect is None ==> news is None && !s2.links.dom().contains(
                link,
            ) && ends_with_close(out2, link, "session handshake with no expected peer"@)
            &&& end matches End::Session(heard, made) ==> (!h.pairing_flow ==> (h.expect matches
                Some(peer) ==> (!s.takes_hello(peer, heard) ==> news is None
                && !s2.links.dom().contains(link) && ends_with_close(
                out2,
                link,
                "stale or replayed response"@,
            ))))
        }),
{
}

/// A caller that is known and says nothing new is turned away as one that was heard before.
pub proof fn an_old_opener_is_turned_away<W: Wire>(
    s: State<W>,
    now: u64,
    link: u64,
    attrs: LinkAttrs,
    id: Seq<char>,
    heard: Option<HeardV>,
    opener: Opener,
    out: Out,
)
    requires
        opener matches Opener::Read(who, what, _) && who == id && what == heard,
        s.why_no_session(id) is None,
        !s.takes_hello(id, heard),
    ensures
        ends_with_close(
            s.session_opener(now, link, attrs, opener, out).1,
            link,
            "stale or replayed opener"@,
        ),
{
}

/// A session that cannot be begun closes the link that was dialled for it, and why is said.
pub proof fn a_session_that_cannot_begin_says_why<W: Wire>(
    s: State<W>,
    link: u64,
    attrs: LinkAttrs,
    deadline: u64,
    pending: DialV,
    said: crate::engine::model::Said,
    out: Out,
)
    ensures
        ({
            let (s2, out2) = crate::engine::model::session_started(
                s,
                link,
                attrs,
                deadline,
                pending,
                said,
                out,
            );
            &&& !s.peers.dom().contains(pending.peer) ==> !s2.links.dom().contains(link)
                && ends_with_close(out2, link, "no such peer"@)
            &&& s.peers.dom().contains(pending.peer)
                && s.peers[pending.peer].record.session_psk.len() != 32
                ==> !s2.links.dom().contains(link) && ends_with_close(
                out2,
                link,
                "corrupt peer record"@,
            )
        }),
{
}

/// Digits are shown for the pairing that is open, and for one at a time: a handshake that
/// ends with none open, or with one waiting already, closes its link and shows none.
pub proof fn one_pairing_waits_at_a_time<W: Wire>(
    s: State<W>,
    now: u64,
    link: u64,
    attrs: LinkAttrs,
    deadline: u64,
    found: AwaitV,
    out: Out,
)
    ensures
        ({
            let (s2, out2) = s.pairing_completed(now, link, attrs, deadline, found, out);
            &&& s.pairing is None ==> s2.pairing is None && ends_with_close(
                out2,
                link,
                "no pairing is in progress"@,
            )
            &&& s.pairing matches Some(w) ==> (w.awaiting is Some ==> s2.pairing == s.pairing
                && ends_with_close(out2, link, "a confirmation is already waiting"@))
            &&& s.pairing matches Some(w) ==> (w.awaiting is None ==> out2.len() == out.len() + 1
                && s2.links.dom().contains(link) && s2.pairing is Some
                && s2.pairing->Some_0.awaiting == Some(found))
        }),
{
}

/// A pairing request that makes no sense is turned away, and for a while no other is heard.
pub proof fn a_senseless_pairing_request_buys_quiet<W: Wire>(
    s: State<W>,
    now: u64,
    link: u64,
    attrs: LinkAttrs,
    deadline: u64,
    out: Out,
)
    requires
        s.why_not_pair(now) is None,
        now + s.config.pair_cooldown_ms <= u64::MAX,
    ensures
        ({
            let (s2, out2) = s.pair_opener(now, link, attrs, deadline, Greeted::Unread, out);
            &&& s2.pair_quiet_until == now + s.config.pair_cooldown_ms
            &&& s2.pairing == s.pairing
            &&& ends_with_close(out2, link, "malformed pairing handshake"@)
        }),
{
}

/// A peer that has no address is not dialled; a person who asked for it is told so by the
/// peer's name, and that it cannot be reached; nobody is told where nobody asked.
pub proof fn a_peer_without_an_address_is_not_dialled<W: Wire>(
    s: State<W>,
    now: u64,
    peer: Seq<char>,
    by_hand: bool,
    out: Out,
)
    ensures
        ({
            let (s2, out2) = s.dial_first(now, peer, Seq::empty(), by_hand, out);
            &&& s2.peer_dials == s.peer_dials && s2.links == s.links
            &&& s2.dial_trouble.dom().contains(peer)
            &&& !by_hand ==> out2 == out
            &&& by_hand ==> out2.len() == out.len() + 2 && out2.last() == ActionView::Ui(
                UiView::PeerUnreachable { peer },
            )
            &&& by_hand ==> (out2[out.len() as int] matches ActionView::Ui(
                UiView::Error { peer: who, code, detail },
            ) && who == Some(peer) && code == ErrorCode::NotAllowed && ("no address known for "@
                + peer + ". "@).is_prefix_of(detail))
        }),
{
}

/// An address is taken for a paired device alone; for any other it is said that it is none,
/// and nothing is kept.
pub proof fn an_address_needs_a_paired_device<W: Wire>(
    s: State<W>,
    peer: Seq<char>,
    transport: u16,
    addr: Seq<char>,
    out: Out,
)
    ensures
        !s.peers.dom().contains(peer) ==> s.set_peer_address(peer, transport, addr, out) == (
            s,
            out.push(
                ActionView::Ui(
                    UiView::Error {
                        peer: Some(peer),
                        code: ErrorCode::NotPaired,
                        detail: peer + " is not a paired device"@,
                    },
                ),
            ),
        ),
        s.peers.dom().contains(peer) ==> s.set_peer_address(peer, transport, addr, out).1 == out,
{
}

/// A file that no link to the peer can carry is called off: that is said under the peer's
/// name, the host drops the transfer, and nobody owns it any more.
pub proof fn a_file_that_cannot_go_is_called_off<W: Wire>(
    s: State<W>,
    peer: Seq<char>,
    transfer: u64,
    out: Out,
)
    ensures
        ({
            let (s2, out2) = s.bulk_impossible(peer, transfer, out);
            &&& !s2.bulk_owner.dom().contains(transfer)
            &&& out2.len() == out.len() + 2
            &&& out2.last() == (ActionView::BulkCancel { transfer })
            &&& out2[out.len() as int] == ActionView::Ui(
                UiView::Error {
                    peer: Some(peer),
                    code: ErrorCode::NotAllowed,
                    detail: "transport for connection to "@ + peer
                        + " does not support file transfers. change transports and try again."@,
                },
            )
        }),
{
}

/// A person who withdraws an address has that one withdrawn, and nothing else comes of it.
pub proof fn withdrawing_an_address_says_nothing<W: Wire>(
    s: State<W>,
    now: u64,
    peer: DeviceId,
    transport: TransportId,
    addr: String,
    s2: State<W>,
    out2: Out,
)
    requires
        s.handled(
            now,
            Event::Local(LocalCommand::ForgetPeerAddress { peer, transport, addr }),
            s2,
            out2,
        ),
    ensures
        out2.len() == 0,
        s2 == s.forget_peer_address(peer@, transport.0, addr@),
        s2.peers == s.peers,
        s2.links == s.links,
{
}

// ------------------------------------------------------------------- what follows

/// A person who says that the digits differ buys the longer quiet, and nobody is paired; one
/// who says that they agree pairs that device and no other, buys no quiet, and has every
/// peer looked for at once. A pairing that fails by itself buys the shorter quiet.
pub proof fn an_answer_decides_what_follows<W: Wire>(
    s: State<W>,
    now: u64,
    accept: bool,
    s2: State<W>,
    out2: Out,
    other: Seq<char>,
)
    requires
        waits(s),
        s.handled(now, Event::Local(LocalCommand::ConfirmPairing { accept }), s2, out2),
        now + s.config.pair_denied_cooldown_ms <= u64::MAX,
        now + s.config.pair_cooldown_ms <= u64::MAX,
    ensures
        !accept ==> s2.pair_quiet_until == now + s.config.pair_denied_cooldown_ms && s2.peers
            == s.peers,
        accept ==> s2.pair_quiet_until == s.pair_quiet_until && s2.reconnect_at == Some(0u64),
        ({
            let a = s.pairing->Some_0.awaiting->Some_0;
            &&& accept ==> s2.peers.dom().contains(a.id) && s2.peers[a.id].record == a.record
                && s2.peers[a.id].fingerprint == a.fingerprint
            &&& accept && other != a.id ==> (s2.peers.dom().contains(other)
                <==> s.peers.dom().contains(other)) && s2.peers[other] == s.peers[other]
        }),
        s.end_pairing(now, false).pair_quiet_until == now + s.config.pair_cooldown_ms,
{
}

/// A message under what was not agreed on is answered, on its own request, as that; and an
/// error under what was agreed on is shown as it is, and never answered.
pub proof fn what_was_not_agreed_on_is_refused<W: Wire>(
    s: State<W>,
    now: u64,
    u: UpV,
    env: EnvelopeView,
    out: Out,
    s2: State<W>,
    out2: Out,
)
    requires
        s.message(now, u, env, out, s2, out2),
    ensures
        !u.can_recv.contains(env.cap) ==> exists|sealed: Sealed|
            (s2, out2) == #[trigger] s.send_step(
                (SendView {
                    peer: u.peer,
                    cap: env.cap,
                    ty: "err"@,
                    body: crate::cbor::text_item("cap_not_negotiated"@),
                    re: Some(env.id),
                }),
                sealed,
                out,
            ),
        u.can_recv.contains(env.cap) && env.ty == "err"@ ==> s2 == s && out2 == out.push(
            ActionView::Ui(
                UiView::Plugin { peer: u.peer, cap: env.cap, ty: "err"@, body: env.body },
            ),
        ),
{
}

/// A transfer is overdue from the moment its time is up, and only where one waits for it.
pub proof fn a_transfer_is_overdue_when_its_time_is_up<W: Wire>(s: State<W>, now: u64, t: u64)
    requires
        s.bulk_wait.dom().finite(),
    ensures
        s.overdue(now).contains(t) <==> s.bulk_wait.dom().contains(t) && s.bulk_wait[t] <= now,
{
    let all = ascending::<u64>(s.bulk_wait.dom());
    let test = |t: u64| now >= s.bulk_wait[t];
    each_is_listed_once::<u64>(s.bulk_wait.dom());
    if all.contains(t) && test(t) {
        let i = choose|i: int| 0 <= i < all.len() && all[i] == t;
        all.lemma_filter_contains(test, i);
    }
    if s.overdue(now).contains(t) {
        let i = choose|i: int| 0 <= i < s.overdue(now).len() && s.overdue(now)[i] == t;
        all.lemma_filter_pred(test, i);
        all.lemma_filter_contains_rev(test, t);
    }
}

/// A session is made of its own handshake's hash and keys, over a link that loses nothing
/// and keeps the order, and of no handshake that is not over.
pub proof fn a_session_is_made_of_its_handshake(
    hs: Handshake,
    attrs: LinkAttrs,
    made: crate::engine::frames::Made,
)
    requires
        crate::engine::frames::made_fits(hs, attrs, made),
    ensures
        made matches crate::engine::frames::Made::Ready(hash, session) ==> hash == hs.hash()
            && session == hs.session() && hs@.complete() && attrs.reliable && attrs.ordered,
        hs@.complete() && attrs.reliable && attrs.ordered && hs.whole() ==> made is Ready,
{
}

/// A session that was made is up under its peer, and every plugin is told that the peer is
/// there; one that was not made, or whose peer is not known any more, closes its link.
pub proof fn a_session_that_was_made_is_up<W: Wire>(
    s: State<W>,
    now: u64,
    link: u64,
    attrs: LinkAttrs,
    peer: Seq<char>,
    made: crate::engine::frames::Made,
    out: Out,
)
    ensures
        ({
            let (s2, out2, news) = s.finish_session(now, link, attrs, peer, made, out);
            &&& made matches crate::engine::frames::Made::Failed(words) ==> news is None
                && !s2.links.dom().contains(link) && ends_with_close(out2, link, words)
            &&& made is Ready && !s.peers.dom().contains(peer) ==> news is None
                && !s2.links.dom().contains(link) && ends_with_close(
                out2,
                link,
                "peer vanished mid-handshake"@,
            )
            &&& made matches crate::engine::frames::Made::Ready(hash, session) ==> (
            s.peers.dom().contains(peer) ==> news == Some(Told::Connected { peer })
                && s2.links.dom().contains(link) && (s2.links[link] matches LinkV::Up(u)
                && u.peer == peer && u.session == session && u.handshake_hash == hash
                && u.last_recv_ms == now))
        }),
{
}

/// Messages are numbered one after the other, and start over where the numbers are used up.
pub proof fn messages_are_numbered_in_turn(n: u32)
    ensures
        crate::engine::model::after32(n) == (n + 1) % 0x1_0000_0000,
{
}

} // verus!
