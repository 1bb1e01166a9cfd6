//! What the core promises, one event at a time.
use crate::engine::events::unkeep;
use crate::engine::frames::{
    handler, left, made_fits, plugin_answered, End, FoundV, Made, Opened,
};
use crate::engine::laws::{
    all_told_ran, closing_all_leaves_none, plugins_reach_no_further, waits,
};
use crate::engine::model::{
    able, best, better, carries, is_best, ui, DialV, LinkV, Out, Sealed, ShakingV, State, UpV,
};
use crate::ids::DeviceId;
use crate::link::{
    in_preference, BulkSupport, LinkAttrs, LinkDownReason, LinkId, ReasonView, TransportId,
};
use crate::noise::{
    a_finished_handshake_knows_its_far_end, x25519_public, Handshake, Mode, SessionView, TAG_LEN,
};
use crate::peer::PeerState;
use crate::plugin::{after, BulkView, SendView, Told};
use crate::table::{ascending, ascending_lists_the_set, numbers_are_finite};
use crate::vocab::{
    ActionView, DialToken, EffectResult, EffectToken, Event, LocalCommand, TransferId, UiView,
};
use crate::wire::{digits, envelope_read, secret, EnvelopeView, ErrorCode, Wire};
use vstd::prelude::*;

verus! {

// -------------------------------------------------------------------- pairing

/// Refusing the digits pairs nobody, and buys quiet: until the cooldown for a
/// refusal is over, no pairing handshake is answered and none is started.
pub proof fn a_refusal_pairs_nobody_and_buys_quiet<W: Wire>(
    s: State<W>,
    now: u64,
    s2: State<W>,
    out2: Out,
    later: u64,
)
    requires
        s.clock_fits(now),
        waits(s),
        s.handled(now, Event::Local(LocalCommand::ConfirmPairing { accept: false }), s2, out2),
        later < now + s.config.pair_denied_cooldown_ms,
    ensures
        s2.peers == s.peers,
        s2.pairing is None,
        s2.why_not_pair(later) is Some,
{
}

/// Agreeing to the digits makes the device whose digits were shown a peer, keeps
/// its record, and has it dialled at the next tick rather than waiting for it.
pub proof fn agreeing_makes_a_peer<W: Wire>(s: State<W>, now: u64, s2: State<W>, out2: Out)
    requires
        waits(s),
        s.handled(now, Event::Local(LocalCommand::ConfirmPairing { accept: true }), s2, out2),
    ensures
        ({
            let a = s.pairing->Some_0.awaiting->Some_0;
            &&& s2.peers == s.peers.insert(
                a.id,
                (crate::engine::model::PeerV { record: a.record, fingerprint: a.fingerprint }),
            )
            &&& out2[0] == crate::engine::model::keep(Seq::empty(), a.record)[0]
            &&& s2.pairing is None
            &&& s2.reconnect_at == Some(0u64)
            &&& (a.via matches Some(way) ==> s2.addrs[a.id][way.0] == way.1)
        }),
{
}

/// Two machines that pair with each other over one handshake show the digits of one
/// hash, draw the secret they will share from it, and each holds the other's key.
pub proof fn both_ends_show_the_digits_of_one_hash<W: Wire>(
    a: State<W>,
    hs: Handshake,
    payload: Seq<u8>,
    f: FoundV,
    b: State<W>,
    hs2: Handshake,
    payload2: Seq<u8>,
    f2: FoundV,
)
    requires
        a.found_fits(hs, payload, f),
        b.found_fits(hs2, payload2, f2),
        hs.in_step(hs2),
        hs2.in_step(hs),
    ensures
        digits(a.wire, hs.hash(), f.sas),
        digits(b.wire, hs.hash(), f2.sas),
        secret(a.wire, hs.hash(), f.session_psk),
        secret(b.wire, hs.hash(), f2.session_psk),
        f.key == x25519_public(hs2.origin().private),
        f2.key == x25519_public(hs.origin().private),
{
}

/// A pairing handshake that is over has a partner: either their hello does not decode,
/// or they are the one whose digits go to the screen. It is never left without a key.
pub proof fn a_completed_pairing_has_a_partner<W: Wire>(
    s: State<W>,
    h: ShakingV,
    payload: Seq<u8>,
    hs: Handshake,
    end: End,
)
    requires
        h.pairing_flow,
        hs.whole(),
        hs@.mode == Mode::Pair,
        hs@.complete(),
        s.end_fits(h, payload, hs, end),
    ensures
        end is NoHello || end is Found,
{
    a_finished_handshake_knows_its_far_end(hs);
}

/// An answer to digits that nobody is shown changes nothing.
pub proof fn an_answer_to_nothing_does_nothing<W: Wire>(
    s: State<W>,
    now: u64,
    accept: bool,
    s2: State<W>,
    out2: Out,
)
    requires
        !waits(s),
        s.handled(now, Event::Local(LocalCommand::ConfirmPairing { accept }), s2, out2),
    ensures
        s2 == s,
        out2 == Seq::<ActionView>::empty(),
{
}

/// A pairing that a person started answers nobody else's handshake: the slot is
/// taken before the dial goes out. Where the slot is taken already, the person is
/// told why and nothing is dialled.
pub proof fn asking_to_pair_takes_the_slot<W: Wire>(
    s: State<W>,
    now: u64,
    transport: TransportId,
    addr: String,
    s2: State<W>,
    out2: Out,
    later: u64,
)
    requires
        s.handled(
            now,
            Event::Local(LocalCommand::RequestPairing { transport, addr }),
            s2,
            out2,
        ),
    ensures
        match s.why_not_pair(now) {
            None => {
                &&& s2.why_not_pair(later) == Some("a pairing is already in progress"@)
                &&& out2 == seq![
                    ActionView::Dial { transport: transport.0, addr: addr@, dial: after(s.next_dial) },
                ]
            },
            Some(why) => s2 == s && out2 == seq![
                ActionView::Ui(UiView::PairingFailed { reason: why }),
            ],
        },
{
    if s.why_not_pair(now) is None {
        assert(s.config.accept_pair_requests);
        assert(out2 =~= seq![
            ActionView::Dial { transport: transport.0, addr: addr@, dial: after(s.next_dial) },
        ]);
    } else {
        assert(out2 =~= seq![
            ActionView::Ui(UiView::PairingFailed { reason: s.why_not_pair(now)->Some_0 }),
        ]);
    }
}

// --------------------------------------------------------------------- routes

/// A dial that failed goes on to the next route that was kept for it.
pub proof fn a_failed_dial_goes_on_to_the_next_route<W: Wire>(
    s: State<W>,
    now: u64,
    dial: DialToken,
    reason: String,
    s2: State<W>,
    out2: Out,
)
    requires
        s.handled(now, Event::DialFailed { dial, reason }, s2, out2),
        !s.pair_dials.dom().contains(dial.0),
        s.peer_dials.dom().contains(dial.0),
        s.peer_dials[dial.0].1.routes.len() > 0,
        best(s.links, s.peer_dials[dial.0].1.peer) is None,
    ensures
        ({
            let p = s.peer_dials[dial.0].1;
            let d = after(s.next_dial);
            &&& out2 == seq![
                ActionView::Dial { transport: p.routes[0].0, addr: p.routes[0].1, dial: d },
            ]
            &&& s2.peer_dials.dom().contains(d)
            &&& s2.peer_dials[d].1 == (DialV { routes: p.routes.remove(0), ..p })
            &&& s2.dial_trouble == s.dial_trouble
        }),
{
    let p = s.peer_dials[dial.0].1;
    assert(out2 =~= seq![
        ActionView::Dial {
            transport: p.routes[0].0,
            addr: p.routes[0].1,
            dial: after(s.next_dial),
        },
    ]);
}

/// Once the last route has failed, why is remembered; a person is told only if a
/// person asked.
pub proof fn the_last_route_says_why<W: Wire>(
    s: State<W>,
    now: u64,
    dial: DialToken,
    reason: String,
    s2: State<W>,
    out2: Out,
)
    requires
        s.handled(now, Event::DialFailed { dial, reason }, s2, out2),
        !s.pair_dials.dom().contains(dial.0),
        s.peer_dials.dom().contains(dial.0),
        s.peer_dials[dial.0].1.routes.len() == 0,
        best(s.links, s.peer_dials[dial.0].1.peer) is None,
    ensures
        ({
            let p = s.peer_dials[dial.0].1;
            &&& s2.dial_trouble == s.dial_trouble.insert(p.peer, reason@)
            &&& s2.peer_dials == s.peer_dials.remove(dial.0)
            &&& out2 == if p.by_hand {
                seq![ActionView::Ui(UiView::PeerUnreachable { peer: p.peer })]
            } else {
                Seq::empty()
            }
        }),
{
    let p = s.peer_dials[dial.0].1;
    if p.by_hand {
        assert(out2 =~= seq![ActionView::Ui(UiView::PeerUnreachable { peer: p.peer })]);
    }
}

/// Unasked, the core does not dial a peer that it is dialling already, nor one that it
/// is shaking hands with and cannot reach yet.
pub proof fn an_attempt_under_way_is_not_repeated<W: Wire>(
    s: State<W>,
    now: u64,
    peer: Seq<char>,
    out: Out,
)
    requires
        s.dialling(peer) || (s.shaking(peer) && s.peer_state(peer) == PeerState::Connecting),
    ensures
        s.connect_peer(now, peer, false, out) == (s, out),
{
}

/// Asking for a peer that is reachable is answered at once, and dials nothing.
pub proof fn a_reachable_peer_is_answered_at_once<W: Wire>(
    s: State<W>,
    now: u64,
    peer: crate::ids::DeviceId,
    s2: State<W>,
    out2: Out,
)
    requires
        s.peer_state(peer@) == PeerState::Reachable,
        s.handled(now, Event::Local(LocalCommand::Connect { peer }), s2, out2),
    ensures
        s2 == s,
        out2 == seq![
            ActionView::Ui(UiView::PeerReachable { peer: peer@, name: s.name_of(peer@) }),
        ],
{
    assert(out2 =~= seq![
        ActionView::Ui(UiView::PeerReachable { peer: peer@, name: s.name_of(peer@) }),
    ]);
}

/// While a worse transport carries a peer, only a better one is dialled, and that
/// only unasked; and one that is better than every handshake under way.
pub proof fn only_a_better_route_is_dialled_beside_one<W: Wire>(
    s: State<W>,
    now: u64,
    peer: Seq<char>,
    out: Out,
)
    requires
        s.peer_state(peer) == PeerState::Reachable,
        s.best_transport(peer) matches Some(current) && forall|i: int|
            0 <= i < s.routes_to(peer).len() ==> !s.worth_dialling(
                peer,
                current,
                (#[trigger] s.routes_to(peer)[i]).0,
            ),
    ensures
        s.connect_peer(now, peer, false, out) == (s, out),
{
    let current = s.best_transport(peer)->Some_0;
    let routes = s.routes_to(peer);
    let worth = |r: (u16, Seq<char>)| s.worth_dialling(peer, current, r.0);
    let better = routes.filter(worth);
    if better.len() > 0 {
        assert(better.contains(better[0]));
        routes.lemma_filter_contains_rev(worth, better[0]);
        let i = choose|i: int| 0 <= i < routes.len() && routes[i] == better[0];
        routes.lemma_filter_pred(worth, 0);
        assert(!s.worth_dialling(peer, current, routes[i].0));
    }
}

/// An address that is withdrawn is forgotten; a newer one on the same transport,
/// and every other peer's, stays.
pub proof fn only_the_address_named_is_forgotten<W: Wire>(
    s: State<W>,
    peer: Seq<char>,
    transport: u16,
    addr: Seq<char>,
    other: Seq<char>,
    t: u16,
)
    requires
        s.addrs.dom().contains(other),
        s.addrs[other].dom().contains(t),
        !(other == peer && t == transport && s.addrs[other][t] == addr),
    ensures
        s.forget_peer_address(peer, transport, addr).addrs.dom().contains(other),
        s.forget_peer_address(peer, transport, addr).addrs[other].dom().contains(t),
        s.forget_peer_address(peer, transport, addr).addrs[other][t] == s.addrs[other][t],
{
    if other == peer && s.addrs[peer].dom().contains(transport) && s.addrs[peer][transport] == addr {
        assert(s.addrs[peer].remove(transport).dom().contains(t));
    }
}

/// A forgotten address is not dialled.
pub proof fn a_forgotten_address_is_gone<W: Wire>(
    s: State<W>,
    peer: Seq<char>,
    transport: u16,
    addr: Seq<char>,
)
    ensures
        ({
            let s2 = s.forget_peer_address(peer, transport, addr);
            s2.addrs.dom().contains(peer) && s2.addrs[peer].dom().contains(transport)
                ==> s2.addrs[peer][transport] != addr
        }),
{
}

/// The death of a link that is not being paired over cancels no pairing: what is
/// on the screen stays there.
pub proof fn another_links_death_cancels_no_pairing<W: Wire>(
    s: State<W>,
    now: u64,
    link: LinkId,
    reason: LinkDownReason,
    s2: State<W>,
    out2: Out,
)
    requires
        s.handled(now, Event::LinkDown { link, reason }, s2, out2),
        !(s.links.dom().contains(link.0) && (s.links[link.0] matches LinkV::Handshaking(h)
            && h.pairing_flow)),
    ensures
        s2.pairing == s.pairing,
        s2.pair_quiet_until == s.pair_quiet_until,
        s2.peers == s.peers,
{
    let (s1, o, gone) = s.link_down(now, link.0, Seq::empty());
    if left(gone) is Some {
        all_told_ran(s1, now, left(gone)->Some_0, o, s2, out2);
        plugins_reach_no_further(s1, now, None, o, s2, out2);
    }
}

// ------------------------------------------------------------------- discovery

/// A device that is forgotten while it can be seen is said to be forgotten, and is
/// offered again, unless another record has its fingerprint.
pub proof fn a_forgotten_device_is_offered_again<W: Wire>(
    s: State<W>,
    now: u64,
    peer: DeviceId,
    s2: State<W>,
    out2: Out,
)
    requires
        s.sound(),
        s.peers.dom().contains(peer@),
        s.handled(now, Event::Local(LocalCommand::Revoke { peer }), s2, out2),
    ensures
        ({
            let fp = s.peers[peer@].fingerprint;
            &&& s2.seen == s.seen
            &&& if s.seen.dom().contains(fp) && in_preference(s.seen[fp].routes).len() > 0
                && !s2.paired(fp) {
                let way = in_preference(s.seen[fp].routes)[0];
                &&& out2.len() >= 2
                &&& out2[out2.len() - 2] == ActionView::Ui(UiView::Revoked { peer: peer@ })
                &&& out2.last() == ActionView::Ui(
                    UiView::Discovered {
                        fingerprint: fp,
                        name: s.seen[fp].name,
                        addr: way.1,
                        transport: way.0,
                        pairing: s.seen[fp].pairing,
                    },
                )
            } else {
                &&& out2.len() >= 1
                &&& out2.last() == ActionView::Ui(UiView::Revoked { peer: peer@ })
            }
        }),
{
    let t = s.without_peer(peer@);
    let list = t.links_to(peer@);
    let reason = ReasonView::Protocol(ErrorCode::NotPaired);
    let start = unkeep(peer@, Seq::empty());
    let o = choose|o: Out|
        #![trigger t.closed_down(now, list, reason, start, s2, o)]
        t.closed_down(now, list, reason, start, s2, o) && out2 == s2.announce(
            s.peers[peer@].fingerprint,
            ui(o, UiView::Revoked { peer: peer@ }),
        );
    closing_all_leaves_none(t, now, peer@, reason, start, s2, o);
}

/// A machine that is already paired is not offered, and its leaving is not
/// announced as a stranger's.
pub proof fn a_paired_machine_is_not_offered<W: Wire>(s: State<W>, fp: Seq<char>, out: Out)
    requires
        s.paired(fp),
    ensures
        s.announce(fp, out) == out,
        !s.is_nearby(fp),
{
}

/// A withdrawal that names an older address leaves a newer one alone.
pub proof fn a_newer_sighting_outlives_a_withdrawal<W: Wire>(
    s: State<W>,
    now: u64,
    transport: TransportId,
    addr: String,
    s2: State<W>,
    out2: Out,
    fp: Seq<char>,
)
    requires
        s.handled(now, Event::Undiscovered { transport, addr }, s2, out2),
        s.seen.dom().contains(fp),
        !(s.seen[fp].routes.dom().contains(transport.0) && s.seen[fp].routes[transport.0] == addr@),
    ensures
        s2.seen.dom().contains(fp),
        s2.seen[fp] == s.seen[fp],
{
}

/// A machine seen two ways stays listed while either can see it.
pub proof fn one_way_to_see_it_is_enough<W: Wire>(
    s: State<W>,
    now: u64,
    transport: TransportId,
    addr: String,
    s2: State<W>,
    out2: Out,
    fp: Seq<char>,
    other: u16,
)
    requires
        s.handled(now, Event::Undiscovered { transport, addr }, s2, out2),
        s.seen.dom().contains(fp),
        other != transport.0,
        s.seen[fp].routes.dom().contains(other),
    ensures
        s2.seen.dom().contains(fp),
        s2.seen[fp].routes.dom().contains(other),
        s2.seen[fp].routes[other] == s.seen[fp].routes[other],
{
    assert(s.seen[fp].routes.remove(transport.0).dom().contains(other));
}

/// A sighting on one transport does not evict what another has shown.
pub proof fn a_sighting_evicts_no_other_route<W: Wire>(
    s: State<W>,
    fp: Seq<char>,
    transport: u16,
    name: Seq<char>,
    addr: Seq<char>,
    pairing: bool,
    other: u16,
)
    requires
        s.seen.dom().contains(fp),
        other != transport,
        s.seen[fp].routes.dom().contains(other),
    ensures
        s.sight(fp, transport, name, addr, pairing).seen[fp].routes[transport] == addr,
        s.sight(fp, transport, name, addr, pairing).seen[fp].routes.dom().contains(other),
        s.sight(fp, transport, name, addr, pairing).seen[fp].routes[other]
            == s.seen[fp].routes[other],
{
}

// ----------------------------------------------------------------------- links

/// Where a peer has an established link at all, one of them is the best.
pub proof fn some_link_is_best(links: Map<u64, LinkV>, peer: Seq<char>, link: u64)
    requires
        carries(links, link, peer),
    ensures
        best(links, peer) is Some,
    decreases links.dom().len(),
{
    numbers_are_finite(links.dom());
    let rest = links.remove(link);
    if exists|l: u64| carries(rest, l, peer) {
        let l = choose|l: u64| carries(rest, l, peer);
        some_link_is_best(rest, peer, l);
        let b = choose|b: u64| is_best(rest, b, peer);
        assert(carries(rest, b, peer));
        if better(link, links[link]->Up_0, b, links[b]->Up_0) {
            assert forall|x: u64| #[trigger] carries(links, x, peer) implies x == link || better(
                link,
                links[link]->Up_0,
                x,
                links[x]->Up_0,
            ) by {
                if x != link {
                    assert(carries(rest, x, peer));
                }
            }
            assert(is_best(links, link, peer));
        } else {
            assert forall|x: u64| #[trigger] carries(links, x, peer) implies x == b || better(
                b,
                links[b]->Up_0,
                x,
                links[x]->Up_0,
            ) by {
                if x != link {
                    assert(carries(rest, x, peer));
                }
            }
            assert(is_best(links, b, peer));
        }
    } else {
        assert forall|x: u64| #[trigger] carries(links, x, peer) implies x == link by {
            if x != link {
                assert(carries(rest, x, peer));
            }
        }
        assert(is_best(links, link, peer));
    }
}

/// Files can get to a peer as soon as one of its links can carry them, whichever
/// link a message would take.
pub proof fn one_link_is_enough_for_files<W: Wire>(s: State<W>, peer: Seq<char>, link: u64)
    requires
        carries(s.links, link, peer),
        s.links[link]->Up_0.bulk == BulkSupport::SideChannel,
    ensures
        s.bulk_for(peer) == Some(BulkSupport::SideChannel),
{
    numbers_are_finite(s.links.dom());
    let some = able(s.links);
    assert(some.dom().subset_of(s.links.dom()));
    vstd::set_lib::lemma_len_subset(some.dom(), s.links.dom());
    assert(carries(some, link, peer));
    some_link_is_best(some, peer, link);
}

/// Where no link to a peer can carry files, a transfer with it is refused, in
/// words and by telling the host to let go of it.
pub proof fn a_link_that_cannot_carry_files_refuses<W: Wire>(
    s: State<W>,
    now: u64,
    b: BulkView,
    key: Seq<u8>,
    out: Out,
)
    requires
        b matches BulkView::Listen { peer, .. } ==> s.bulk_for(peer) == Some(
            BulkSupport::Unsupported,
        ),
        b matches BulkView::Send { peer, .. } ==> s.bulk_for(peer) == Some(
            BulkSupport::Unsupported,
        ),
        !(b is Cancel),
    ensures
        ({
            let transfer = match b {
                BulkView::Listen { transfer, .. } => transfer,
                BulkView::Send { transfer, .. } => transfer,
                BulkView::Cancel { transfer } => transfer,
            };
            let (s2, out2) = s.bulk_step(now, b, key, out);
            &&& out2.len() == out.len() + 2
            &&& out2[out.len() as int] is Ui
            &&& out2[out.len() as int + 1] == (ActionView::BulkCancel { transfer })
            &&& !s2.bulk_owner.dom().contains(transfer)
            &&& s2.bulk_wait == s.bulk_wait
        }),
{
}

/// Losing one of two links is not losing the peer: it is still reachable, and no
/// plugin hears of it.
pub proof fn losing_one_of_two_links_keeps_the_peer<W: Wire>(
    s: State<W>,
    now: u64,
    link: LinkId,
    reason: LinkDownReason,
    s2: State<W>,
    out2: Out,
    other: u64,
)
    requires
        s.sound(),
        s.handled(now, Event::LinkDown { link, reason }, s2, out2),
        s.links.dom().contains(link.0),
        s.links[link.0] is Up,
        other != link.0,
        carries(s.links, other, s.links[link.0]->Up_0.peer),
    ensures
        ({
            let peer = s.links[link.0]->Up_0.peer;
            &&& out2 == seq![ActionView::Ui(UiView::PeerReachable { peer, name: s.name_of(peer) })]
            &&& s2 == s.without_link(link.0)
            &&& best(s2.links, peer) is Some
        }),
{
    let peer = s.links[link.0]->Up_0.peer;
    let rest = s.links.remove(link.0);
    assert(carries(rest, other, peer));
    some_link_is_best(rest, peer, other);
    assert(out2 =~= seq![ActionView::Ui(UiView::PeerReachable { peer, name: s.name_of(peer) })]);
}

/// Losing the last link to a peer is said first of all; the plugins are told, and
/// the peer is dialled again at the next tick.
pub proof fn losing_the_last_link_is_said<W: Wire>(
    s: State<W>,
    now: u64,
    link: LinkId,
    reason: LinkDownReason,
    s2: State<W>,
    out2: Out,
)
    requires
        s.handled(now, Event::LinkDown { link, reason }, s2, out2),
        s.links.dom().contains(link.0),
        s.links[link.0] is Up,
        best(s.links.remove(link.0), s.links[link.0]->Up_0.peer) is None,
    ensures
        ({
            let peer = s.links[link.0]->Up_0.peer;
            &&& out2.len() > 0
            &&& out2[0] == ActionView::Ui(UiView::PeerUnreachable { peer })
            &&& s2.reconnect_at == Some(0u64)
            &&& s.link_down(now, link.0, Seq::empty()).0.told_all(
                now,
                (Told::Disconnected { peer }),
                s.link_down(now, link.0, Seq::empty()).1,
                s2,
                out2,
            )
        }),
{
    let (mid, o, gone) = s.link_down(now, link.0, Seq::empty());
    all_told_ran(mid, now, left(gone)->Some_0, o, s2, out2);
    plugins_reach_no_further(mid, now, None, o, s2, out2);
}

/// A message goes out on the best link to the peer it is for, and on no other.
pub proof fn a_message_goes_to_its_peer<W: Wire>(s: State<W>, m: SendView, sealed: Sealed, out: Out)
    ensures
        ({
            let out2 = s.send_step(m, sealed, out).1;
            out2.len() > out.len() ==> (out2.last() matches ActionView::LinkSend { link, msg } ==> {
                &&& is_best(s.links, link, m.peer)
                &&& s.links[link]->Up_0.can_send.contains(m.cap)
                &&& msg.len() <= s.links[link]->Up_0.max_message
                &&& sealed == Sealed::Message(msg)
            })
        }),
{
    if best(s.links, m.peer) is Some {
        assert(is_best(s.links, best(s.links, m.peer)->Some_0, m.peer));
    }
}

/// Two sessions that come of one handshake are each other's mirror image, and their
/// handshake hashes are the same.
pub proof fn two_ends_share_a_session(
    hs: Handshake,
    attrs: LinkAttrs,
    made: Made,
    hs2: Handshake,
    attrs2: LinkAttrs,
    made2: Made,
)
    requires
        made_fits(hs, attrs, made),
        made_fits(hs2, attrs2, made2),
        made is Ready,
        made2 is Ready,
        hs.in_step(hs2),
    ensures
        made->Ready_0 == made2->Ready_0,
        made->Ready_1.sending == made2->Ready_1.receiving,
        made->Ready_1.receiving == made2->Ready_1.sending,
{
}


/// What one end seals the other opens: where the receiving half of a link's
/// session is at the key and the counter that the sender's sending half was at,
/// the frame does not fail to open, and the message in it is what the wire format
/// reads the sender's plaintext as.
pub proof fn what_was_sealed_is_opened<W: Wire>(
    s: State<W>,
    from: SessionView,
    u: UpV,
    plaintext: Seq<u8>,
    opened: Opened,
)
    requires
        from.can_seal(plaintext),
        u.session.receiving == from.sending,
        from.seal(plaintext).len() == plaintext.len() + TAG_LEN,
        s.opened_fits(u, from.seal(plaintext), opened),
    ensures
        match opened {
            Opened::Sealed(_) => false,
            Opened::NoEnvelope => envelope_read(s.wire, plaintext, None),
            Opened::Message(env) => envelope_read(s.wire, plaintext, Some(env)),
        },
{
    assert(u.session.opens(from.seal(plaintext), plaintext));
}

// -------------------------------------------------------------------- messages

/// An error is shown, and never answered: nothing goes back, and no plugin hears
/// of it.
pub proof fn an_error_is_shown_and_never_answered<W: Wire>(
    s: State<W>,
    now: u64,
    u: UpV,
    env: EnvelopeView,
    out: Out,
    s2: State<W>,
    out2: Out,
)
    requires
        u.can_recv.contains(env.cap),
        env.ty == "err"@,
        s.message(now, u, env, out, s2, out2),
    ensures
        s2 == s,
        out2 == out.push(
            ActionView::Ui(
                UiView::Plugin { peer: u.peer, cap: env.cap, ty: env.ty, body: env.body },
            ),
        ),
{
}

/// What was not negotiated reaches no plugin; the sender is answered that it was
/// not.
pub proof fn what_was_not_negotiated_reaches_no_plugin<W: Wire>(
    s: State<W>,
    now: u64,
    u: UpV,
    env: EnvelopeView,
    out: Out,
    s2: State<W>,
    out2: Out,
)
    requires
        !u.can_recv.contains(env.cap),
        s.message(now, u, env, out, s2, out2),
    ensures
        s2.plugins == s.plugins,
        s2.effect_owner == s.effect_owner,
        s2.bulk_owner == s.bulk_owner,
        s.refused(u.peer, env, out, s2, out2),
{
}

/// A negotiated message that is no error reaches the first plugin that handles
/// its capability, and only that one.
pub proof fn a_negotiated_message_reaches_its_plugin<W: Wire>(
    s: State<W>,
    now: u64,
    u: UpV,
    env: EnvelopeView,
    out: Out,
    s2: State<W>,
    out2: Out,
    idx: usize,
)
    requires
        u.can_recv.contains(env.cap),
        env.ty != "err"@,
        handler(s.manifests, env.cap, s.manifests.len() as int) == Some(idx),
        s.message(now, u, env, out, s2, out2),
    ensures
        plugin_answered(s, now, idx, u.peer, env, out, s2, out2),
{
}

/// The answer to an effect that nobody waits for does nothing.
pub proof fn an_answer_nobody_waits_for_does_nothing<W: Wire>(
    s: State<W>,
    now: u64,
    token: EffectToken,
    result: EffectResult,
    s2: State<W>,
    out2: Out,
)
    requires
        !s.effect_owner.dom().contains(token.0),
        s.handled(now, Event::EffectDone { token, result }, s2, out2),
    ensures
        s2 == s,
        out2 == Seq::<ActionView>::empty(),
{
}

/// Once bytes move, a transfer is not given up on: there is nothing left to time
/// out.
pub proof fn a_transfer_under_way_is_not_given_up_on<W: Wire>(
    s: State<W>,
    now: u64,
    transfer: TransferId,
    s2: State<W>,
    out2: Out,
    later: u64,
)
    requires
        s.handled(now, Event::BulkStarted { transfer }, s2, out2),
    ensures
        !s2.overdue(later).contains(transfer.0),
        out2 == Seq::<ActionView>::empty(),
{
    numbers_are_finite(s.bulk_wait.dom());
    let all = ascending::<u64>(s2.bulk_wait.dom());
    if s2.overdue(later).contains(transfer.0) {
        all.lemma_filter_contains_rev(|t: u64| later >= s2.bulk_wait[t], transfer.0);
        ascending_lists_the_set::<u64>(s2.bulk_wait.dom());
        assert(all.to_set().contains(transfer.0));
    }
}

} // verus!
