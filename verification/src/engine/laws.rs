//! What holds of the core whatever happens.
use crate::engine::events::{close_trace, complained, give_up_trace, unkeep};
use crate::engine::frames::{answered, ends, handler, left, verdict, Opened, Opener, Turn};
use crate::engine::model::{
    best, best_is_unique, better, carries, is_best, ui, DialV, Greeted, HeardV, LinkV, Out, Said,
    Sealed, State, UpV, MAX_SEEN,
};
use crate::engine::sends::error_answer;
use crate::link::{BulkSupport, LinkAttrs, ReasonView};
use crate::noise::{
    a_whole_handshake_reads_on, a_whole_handshake_writes_on, no_psk, Handshake, Mode, SessionView,
};
use crate::peer::RecordView;
use crate::plugin::{BulkView, CxView, FaultView, Registered, SendView, Told};
use crate::table::{ascending, ascending_lists_the_set, numbers_are_finite};
use crate::vocab::{ActionView, Event, LocalCommand, UiView};
use crate::wire::{
    hello_written, joins, shared_is_in_both, EnvelopeView, ErrorCode, FrameKind, Wire,
};
use vstd::prelude::*;

verus! {

// -------------------------------------------------------------- what plugins do

/// Whether two links differ in nothing but how far a session has got.
pub open spec fn same_link(x: LinkV, y: LinkV) -> bool {
    x == y || (x matches LinkV::Up(u) && (y matches LinkV::Up(v) && v == (UpV {
        session: v.session,
        ..u
    })))
}

/// Whether the same links are there, and differ in nothing but how far their
/// sessions have got.
pub open spec fn alike(a: Map<u64, LinkV>, b: Map<u64, LinkV>) -> bool {
    &&& a.dom() == b.dom()
    &&& forall|l: u64| #[trigger] a.dom().contains(l) ==> same_link(a[l], b[l])
}

proof fn best_of_alike(a: Map<u64, LinkV>, b: Map<u64, LinkV>, link: u64, peer: Seq<char>)
    requires
        alike(a, b),
        is_best(a, link, peer),
    ensures
        is_best(b, link, peer),
{
    assert(a.dom().contains(link));
    assert forall|l: u64| #[trigger] carries(b, l, peer) implies l == link || better(
        link,
        b[link]->Up_0,
        l,
        b[l]->Up_0,
    ) by {
        assert(a.dom().contains(l));
        assert(carries(a, l, peer));
    }
}

/// Alike links carry messages alike.
proof fn alike_links_carry_alike(a: Map<u64, LinkV>, b: Map<u64, LinkV>, peer: Seq<char>)
    requires
        alike(a, b),
    ensures
        best(a, peer) == best(b, peer),
{
    assert(alike(b, a)) by {
        assert forall|l: u64| #[trigger] b.dom().contains(l) implies same_link(b[l], a[l]) by {
            assert(a.dom().contains(l));
        }
    }
    if exists|l: u64| is_best(a, l, peer) {
        let x = choose|l: u64| is_best(a, l, peer);
        best_of_alike(a, b, x, peer);
        let y = choose|l: u64| is_best(b, l, peer);
        best_is_unique(b, x, y, peer);
    } else if exists|l: u64| is_best(b, l, peer) {
        let y = choose|l: u64| is_best(b, l, peer);
        best_of_alike(b, a, y, peer);
    }
}

/// Whether `b` differs from `a` in nothing but what plugins may bring about:
/// how far sessions have got, the plugins themselves, the counters they draw on,
/// who is told how their effects and transfers end, and when they are woken.
pub open spec fn within_reach<W: Wire>(a: State<W>, b: State<W>) -> bool {
    &&& alike(a.links, b.links)
    &&& b.plugins.len() == a.plugins.len()
    &&& b == (State {
        links: b.links,
        plugins: b.plugins,
        next_token: b.next_token,
        next_transfer: b.next_transfer,
        effect_owner: b.effect_owner,
        bulk_owner: b.bulk_owner,
        bulk_wait: b.bulk_wait,
        next_msg_id: b.next_msg_id,
        plugin_wake: b.plugin_wake,
        ..a
    })
}

/// Whether an action is one that a plugin's wishes may lead to. Messages go out
/// on the best established link to their peer, and only such as fit it.
pub open spec fn may_follow<W: Wire>(s: State<W>, a: ActionView) -> bool {
    match a {
        ActionView::Ui(_) => true,
        ActionView::Effect { .. } => true,
        ActionView::BulkCancel { .. } => true,
        ActionView::BulkListen { .. } => true,
        ActionView::BulkSend { .. } => true,
        ActionView::LinkSend { link, msg } => s.links.dom().contains(link)
            && (s.links[link] matches LinkV::Up(u) && best(s.links, u.peer) == Some(link)
            && msg.len() <= u.max_message),
        _ => false,
    }
}

/// Whether `b` is `a` and then more: what has been put out stays.
pub open spec fn grows(a: Out, b: Out) -> bool {
    a.len() <= b.len() && forall|i: int| 0 <= i < a.len() ==> a[i] == b[i]
}

/// Whether `b` is `a` and then only actions that a plugin's wishes may lead to.
pub open spec fn only_adds<W: Wire>(s: State<W>, a: Out, b: Out) -> bool {
    &&& grows(a, b)
    &&& forall|i: int| a.len() <= i < b.len() ==> may_follow(s, #[trigger] b[i])
}

proof fn bulk_steps_reach<W: Wire>(
    s: State<W>,
    now: u64,
    list: Seq<BulkView>,
    keys: Seq<Seq<u8>>,
    n: int,
    out: Out,
)
    ensures
        within_reach(s, s.bulk_steps(now, list, keys, n, out).0),
        only_adds(s, out, s.bulk_steps(now, list, keys, n, out).1),
    decreases n,
{
    if n > 0 {
        bulk_steps_reach(s, now, list, keys, n - 1, out);
    }
}

proof fn best_carries<W: Wire>(s: State<W>, peer: Seq<char>)
    requires
        best(s.links, peer) is Some,
    ensures
        carries(s.links, best(s.links, peer)->Some_0, peer),
{
    assert(is_best(s.links, best(s.links, peer)->Some_0, peer));
}

proof fn send_step_reaches<W: Wire>(s: State<W>, m: SendView, sealed: Sealed, out: Out)
    ensures
        within_reach(s, s.send_step(m, sealed, out).0),
        only_adds(s, out, s.send_step(m, sealed, out).1),
{
    if best(s.links, m.peer) is Some {
        best_carries(s, m.peer);
        assert(s.send_step(m, sealed, out).0.links.dom() =~= s.links.dom());
    }
}

/// What may follow from one state may follow from one that plugins can reach.
proof fn reach_allows_alike<W: Wire>(s: State<W>, mid: State<W>, a: Out, b: Out)
    requires
        within_reach(s, mid),
        only_adds(mid, a, b),
    ensures
        only_adds(s, a, b),
{
    assert forall|i: int| a.len() <= i < b.len() implies may_follow(s, #[trigger] b[i]) by {
        assert(may_follow(mid, b[i]));
        match b[i] {
            ActionView::LinkSend { link, msg } => {
                assert(s.links.dom().contains(link));
                alike_links_carry_alike(s.links, mid.links, s.links[link]->Up_0.peer);
            },
            _ => {},
        }
    }
}

proof fn send_steps_reach<W: Wire>(
    s: State<W>,
    list: Seq<SendView>,
    sealed: Seq<Sealed>,
    n: int,
    out: Out,
)
    ensures
        within_reach(s, s.send_steps(list, sealed, n, out).0),
        only_adds(s, out, s.send_steps(list, sealed, n, out).1),
    decreases n,
{
    if n > 0 {
        send_steps_reach(s, list, sealed, n - 1, out);
        let (mid, o) = s.send_steps(list, sealed, n - 1, out);
        send_step_reaches(mid, list[n - 1], sealed[n - 1], o);
        reach_allows_alike(s, mid, o, s.send_steps(list, sealed, n, out).1);
    }
}

/// Whatever plugins ask for, they change no peer, no pairing and no route, and no
/// link but for how far its session has got; they neither dial, close nor store
/// anything; what they send goes out on the best established link to its peer and
/// fits it.
pub proof fn plugins_reach_no_further<W: Wire>(
    s: State<W>,
    now: u64,
    idx: Option<usize>,
    out: Out,
    s2: State<W>,
    out2: Out,
)
    requires
        s.plugins_ran(now, idx, out, s2, out2),
    ensures
        within_reach(s, s2),
        only_adds(s, out, out2),
{
    let (cx, plugins) = choose|cx: CxView, plugins: Seq<Registered>|
        #![trigger s.with_plugins(plugins).drained(now, idx, cx, out, s2, out2)]
        plugins.len() == s.plugins.len() && s.with_plugins(plugins).drained(
            now,
            idx,
            cx,
            out,
            s2,
            out2,
        );
    let start = s.with_plugins(plugins);
    let (keys, sealed) = choose|keys: Seq<Seq<u8>>, sealed: Seq<Sealed>|
        #![trigger start.remember(idx, cx).drain(now, cx, keys, sealed, out)]
        start.remember(idx, cx).answers_fit(now, cx, keys, sealed, out) && (s2, out2)
            == start.remember(idx, cx).drain(now, cx, keys, sealed, out);
    let r = start.remember(idx, cx);
    let shown = out + crate::engine::model::shows(cx);
    assert(only_adds(s, out, shown));
    bulk_steps_reach(r, now, cx.bulk, keys, cx.bulk.len() as int, shown);
    let (b, o) = r.bulk_steps(now, cx.bulk, keys, cx.bulk.len() as int, shown);
    send_steps_reach(b, cx.sends, sealed, cx.sends.len() as int, o);
    reach_allows_alike(s, b, o, out2);
}

pub(crate) proof fn one_told_ran<W: Wire>(
    s: State<W>,
    now: u64,
    idx: usize,
    told: Told,
    bulk: Option<BulkSupport>,
    r: Result<(), FaultView>,
    out: Out,
    s2: State<W>,
    out2: Out,
)
    requires
        s.told_one(now, idx, told, bulk, r, out, s2, out2),
    ensures
        s.plugins_ran(now, Some(idx), out, s2, out2),
{
    let (cx, plugins) = choose|cx: CxView, plugins: Seq<Registered>|
        #![trigger s.with_plugins(plugins).drained(now, Some(idx), cx, out, s2, out2)]
        s.one_heard(idx, told, s.context(now, bulk), cx, r, plugins) && s.with_plugins(
            plugins,
        ).drained(now, Some(idx), cx, out, s2, out2);
    assert(s.with_plugins(plugins).drained(now, Some(idx), cx, out, s2, out2));
}

pub(crate) proof fn all_told_ran<W: Wire>(
    s: State<W>,
    now: u64,
    told: Told,
    out: Out,
    s2: State<W>,
    out2: Out,
)
    requires
        s.told_all(now, told, out, s2, out2),
    ensures
        s.plugins_ran(now, None, out, s2, out2),
{
    let (cx, plugins) = choose|cx: CxView, plugins: Seq<Registered>|
        #![trigger s.with_plugins(plugins).drained(now, None, cx, out, s2, out2)]
        plugins.len() == s.plugins.len() && s.all_heard(told, s.context(now, None), cx, plugins)
            && s.with_plugins(plugins).drained(now, None, cx, out, s2, out2);
    assert(s.with_plugins(plugins).drained(now, None, cx, out, s2, out2));
}

/// A message whose capability was not negotiated with its peer is not sent, and
/// costs nothing but a line on the screen.
pub proof fn only_what_was_negotiated_is_sent<W: Wire>(
    s: State<W>,
    m: SendView,
    sealed: Sealed,
    out: Out,
)
    requires
        best(s.links, m.peer) matches Some(l) ==> !s.links[l]->Up_0.can_send.contains(m.cap),
    ensures
        s.send_step(m, sealed, out).0 == s,
        s.send_step(m, sealed, out).1.len() == out.len() + 1,
        s.send_step(m, sealed, out).1.drop_last() == out,
        s.send_step(m, sealed, out).1.last() is Ui,
{
    assert(s.send_step(m, sealed, out).1.drop_last() =~= out);
}

// ------------------------------------------------------------- what every step keeps

/// What a core is and offers.
pub open spec fn steady<W: Wire>(a: State<W>, b: State<W>) -> bool {
    &&& b.wire == a.wire
    &&& b.own_secret == a.own_secret
    &&& b.own_key == a.own_key
    &&& b.own_id == a.own_id
    &&& b.own_fp == a.own_fp
    &&& b.config == a.config
    &&& b.manifests == a.manifests
    &&& b.plugins.len() == a.plugins.len()
    &&& b.caps_out == a.caps_out
    &&& b.caps_in == a.caps_in
    &&& b.caps_served == a.caps_served
    &&& b.serves == a.serves
}

impl<W: Wire> State<W> {
    /// Whether an established link is with a paired peer, and negotiated within
    /// what this device offers.
    pub open spec fn link_sound(self, u: UpV) -> bool {
        &&& self.peers.dom().contains(u.peer)
        &&& forall|c: Seq<char>| u.can_send.contains(c) ==> self.caps_out.contains(c)
        &&& forall|c: Seq<char>| u.can_recv.contains(c) ==> self.caps_in.contains(c)
    }

    /// Whether a record is that of a paired device.
    pub open spec fn remembers(self, r: RecordView) -> bool {
        exists|id: Seq<char>| #[trigger] self.peers.dom().contains(id) && self.peers[id].record == r
    }

    /// The state without a link.
    pub open spec fn without_link(self, link: u64) -> State<W> {
        State { links: self.links.remove(link), ..self }
    }

    /// The state with a link.
    pub open spec fn with_link(self, link: u64, l: LinkV) -> State<W> {
        State { links: self.links.insert(link, l), ..self }
    }

    /// What holds of every state a core can get into: every session is with a
    /// paired peer and stays within what was negotiated, no handshake that failed is
    /// kept, what discovery showed does not pile up, and every plugin has its
    /// manifest.
    pub open spec fn sound(self) -> bool {
        &&& self.plugins.len() == self.manifests.len()
        &&& self.links.dom().finite()
        &&& self.peers.dom().finite()
        &&& self.addrs.dom().finite()
        &&& self.seen.dom().finite()
        &&& self.seen.dom().len() <= MAX_SEEN
        &&& forall|l: u64|
            #[trigger] self.links.dom().contains(l) && self.links[l] is Up ==> self.link_sound(
                self.links[l]->Up_0,
            )
        &&& forall|l: u64|
            #[trigger] self.links.dom().contains(l) && self.links[l] is Handshaking
                ==> self.links[l]->Handshaking_0.hs.whole()
    }
}

/// What every step keeps that neither starts nor settles a pairing.
pub open spec fn step<W: Wire>(a: State<W>, b: State<W>) -> bool {
    &&& steady(a, b)
    &&& b.peers.dom().subset_of(a.peers.dom())
    &&& (b.pairing == a.pairing || b.pairing is None)
    &&& (a.sound() ==> b.sound())
}

proof fn ends_step<W: Wire>(
    s: State<W>,
    out: Out,
    news: Option<Told>,
    now: u64,
    s2: State<W>,
    out2: Out,
)
    requires
        ends(s, out, news, now, s2, out2),
    ensures
        within_reach(s, s2),
        grows(out, out2),
        s.sound() ==> s2.sound(),
{
    if news is Some {
        all_told_ran(s, now, news->Some_0, out, s2, out2);
        plugins_reach_no_further(s, now, None, out, s2, out2);
    }
    reach_is_sound(s, s2);
}

proof fn reach_is_sound<W: Wire>(s: State<W>, s2: State<W>)
    requires
        within_reach(s, s2),
    ensures
        s.sound() ==> s2.sound(),
{
    if s.sound() {
        assert forall|l: u64|
            #[trigger] s2.links.dom().contains(l) && s2.links[l] is Up implies s2.link_sound(
            s2.links[l]->Up_0,
        ) by {
            assert(s.link_sound(s.links[l]->Up_0));
        }
    }
}

proof fn fail_link_step<W: Wire>(s: State<W>, link: u64, detail: Seq<char>, out: Out)
    ensures
        step(s, s.fail_link(link, detail, out).0),
{
    links_fewer(s, State { links: s.links.remove(link), ..s });
}

/// Whether a link of `s2` that shakes hands is whole, or did so in `s` already.
spec fn shakes_soundly<W: Wire>(s: State<W>, s2: State<W>, l: u64) -> bool {
    s2.links[l] is Handshaking ==> s2.links[l]->Handshaking_0.hs.whole() || (
    s.links.dom().contains(l) && s.links[l] is Handshaking && s.links[l]->Handshaking_0.hs
        == s2.links[l]->Handshaking_0.hs)
}

/// Fewer links, or others in place of some that are not established: sound as
/// before.
proof fn links_fewer<W: Wire>(s: State<W>, s2: State<W>)
    requires
        s2 == (State { links: s2.links, ..s }),
        s.links.dom().finite() ==> s2.links.dom().finite(),
        forall|l: u64|
            #[trigger] s2.links.dom().contains(l) && s2.links[l] is Up ==> s.links.dom().contains(l)
                && s2.links[l] == s.links[l],
        forall|l: u64| #[trigger] s2.links.dom().contains(l) ==> shakes_soundly(s, s2, l),
    ensures
        step(s, s2),
{
    if s.sound() {
        assert forall|l: u64|
            #[trigger] s2.links.dom().contains(l) && s2.links[l] is Up implies s2.link_sound(
            s2.links[l]->Up_0,
        ) by {
            assert(s.link_sound(s.links[l]->Up_0));
        }
        assert forall|l: u64|
            #[trigger] s2.links.dom().contains(l) && s2.links[l] is Handshaking implies
            s2.links[l]->Handshaking_0.hs.whole() by {
            assert(shakes_soundly(s, s2, l));
        }
    }
}

proof fn next_route_step<W: Wire>(s: State<W>, now: u64, p: DialV, why: Seq<char>, out: Out)
    ensures
        step(s, s.try_next_route(now, p, why, out).0),
        s.try_next_route(now, p, why, out).0.links == s.links,
        s.try_next_route(now, p, why, out).0.pairing == s.pairing,
        s.try_next_route(now, p, why, out).0.peers == s.peers,
{
    links_fewer(s, s);
    let s2 = s.try_next_route(now, p, why, out).0;
    same_links_step(s, s2);
}

/// A step that leaves links, peers and sightings alone.
proof fn same_links_step<W: Wire>(s: State<W>, s2: State<W>)
    requires
        steady(s, s2),
        s2.links == s.links,
        s2.peers == s.peers,
        s2.seen == s.seen,
        s.addrs.dom().finite() ==> s2.addrs.dom().finite(),
        s2.pairing == s.pairing || s2.pairing is None,
    ensures
        step(s, s2),
{
    if s.sound() {
        assert forall|l: u64|
            #[trigger] s2.links.dom().contains(l) && s2.links[l] is Up implies s2.link_sound(
            s2.links[l]->Up_0,
        ) by {
            assert(s.link_sound(s.links[l]->Up_0));
        }
    }
}

proof fn connect_step<W: Wire>(s: State<W>, now: u64, peer: Seq<char>, by_hand: bool, out: Out)
    ensures
        step(s, s.connect_peer(now, peer, by_hand, out).0),
        s.connect_peer(now, peer, by_hand, out).0.peers == s.peers,
        s.connect_peer(now, peer, by_hand, out).0.pairing == s.pairing,
{
    let s2 = s.connect_peer(now, peer, by_hand, out).0;
    if s2.links == s.links {
        same_links_step(s, s2);
    } else {
        assert(s2 == s.adopt_attempt(peer));
        assert(s2.links.dom() =~= s.links.dom());
        links_fewer(s, State { links: s2.links, ..s });
        same_links_step(State { links: s2.links, ..s }, s2);
    }
}

proof fn connect_all_step<W: Wire>(s: State<W>, now: u64, peers: Seq<Seq<char>>, n: int, out: Out)
    ensures
        step(s, s.connect_all(now, peers, n, out).0),
        s.connect_all(now, peers, n, out).0.peers == s.peers,
        s.connect_all(now, peers, n, out).0.pairing == s.pairing,
    decreases n,
{
    if n > 0 {
        connect_all_step(s, now, peers, n - 1, out);
        let (mid, o) = s.connect_all(now, peers, n - 1, out);
        connect_step(mid, now, peers[n - 1], false, o);
    }
}

proof fn dial_failed_step<W: Wire>(s: State<W>, now: u64, dial: u64, reason: Seq<char>, out: Out)
    ensures
        step(s, s.dial_failed(now, dial, reason, out).0),
{
    let s2 = s.dial_failed(now, dial, reason, out).0;
    same_links_step(s, s2);
}

proof fn sight_step<W: Wire>(
    s: State<W>,
    fp: Seq<char>,
    transport: u16,
    name: Seq<char>,
    addr: Seq<char>,
    pairing: bool,
)
    ensures
        step(s, s.sight(fp, transport, name, addr, pairing)),
{
    let s2 = s.sight(fp, transport, name, addr, pairing);
    if s.sound() {
        assert(s2.seen.dom().finite() && s2.seen.dom().len() <= MAX_SEEN) by {
            if s.seen.dom().len() >= MAX_SEEN && !s.seen.dom().contains(fp) {
                assert(s2.seen.dom() =~= Set::<Seq<char>>::empty().insert(fp));
            } else {
                assert(s2.seen.dom() =~= s.seen.dom().insert(fp));
            }
        }
        assert forall|l: u64|
            #[trigger] s2.links.dom().contains(l) && s2.links[l] is Up implies s2.link_sound(
            s2.links[l]->Up_0,
        ) by {
            assert(s.link_sound(s.links[l]->Up_0));
        }
    }
}

proof fn discovered_step<W: Wire>(
    s: State<W>,
    now: u64,
    transport: u16,
    fp: Option<Seq<char>>,
    name: Seq<char>,
    addr: Seq<char>,
    pairing: bool,
    out: Out,
)
    ensures
        step(s, s.discovered(now, transport, fp, name, addr, pairing, out).0),
{
    match fp {
        None => {
            same_links_step(s, s);
        },
        Some(fp) => {
            sight_step(s, fp, transport, name, addr, pairing);
            let seen = s.sight(fp, transport, name, addr, pairing);
            match seen.peer_with(fp) {
                Some(id) => {
                    let noted = seen.note_addr(id, transport, addr);
                    same_links_step(seen, noted);
                    connect_step(noted, now, id, false, out);
                },
                None => {},
            }
        },
    }
}

proof fn undiscovered_step<W: Wire>(s: State<W>, transport: u16, addr: Seq<char>, out: Out)
    ensures
        step(s, s.undiscovered(transport, addr, out).0),
{
    let s2 = s.undiscovered(transport, addr, out).0;
    if s.sound() {
        assert(s2.seen.dom().subset_of(s.seen.dom()));
        vstd::set_lib::lemma_len_subset(s2.seen.dom(), s.seen.dom());
        assert forall|l: u64|
            #[trigger] s2.links.dom().contains(l) && s2.links[l] is Up implies s2.link_sound(
            s2.links[l]->Up_0,
        ) by {
            assert(s.link_sound(s.links[l]->Up_0));
        }
    }
}

/// A handshake that has said something is as whole as it was before.
proof fn says_whole<W: Wire>(
    s: State<W>,
    hs: Handshake,
    kind: FrameKind,
    payload: Seq<u8>,
    msg: Seq<u8>,
    after: Handshake,
)
    requires
        hs.whole(),
        s.says(hs, kind, payload, msg, after),
    ensures
        after.whole(),
        after@ == hs@.passed(false),
{
    let raw = choose|raw: Seq<u8>|
        #[trigger] hs.has_written(payload, raw, after) && joins(s.wire, kind, raw, msg);
    a_whole_handshake_writes_on(hs, payload, raw, after);
}

/// A handshake that has said hello is as whole as it was before.
pub(crate) proof fn says_hello_whole<W: Wire>(
    s: State<W>,
    hs: Handshake,
    kind: FrameKind,
    msg: Seq<u8>,
    after: Handshake,
)
    requires
        hs.whole(),
        s.says_hello(hs, kind, msg, after),
    ensures
        after.whole(),
        after@ == hs@.passed(false),
{
    let payload = choose|payload: Seq<u8>|
        #[trigger] hello_written(s.wire, s.hello(), payload) && s.says(hs, kind, payload, msg, after);
    says_whole(s, hs, kind, payload, msg, after);
}

proof fn link_up_step<W: Wire>(
    s: State<W>,
    now: u64,
    link: u64,
    attrs: LinkAttrs,
    dial: Option<u64>,
    said: Said,
    out: Out,
)
    requires
        s.said_fits(dial, said),
    ensures
        step(s, s.link_up(now, link, attrs, dial, said, out).0),
{
    let s2 = s.link_up(now, link, attrs, dial, said, out).0;
    if dial is Some && said is Message {
        let d = dial->Some_0;
        let (msg, hs) = (said->Message_0, said->Message_1);
        if s.pair_dials.dom().contains(d) {
            let start = choose|start: Handshake|
                #[trigger] start.starts(Mode::Pair, s.own_secret, no_psk(), None, true) && s.says(
                    start,
                    FrameKind::PairHandshake,
                    Seq::empty(),
                    msg,
                    hs,
                );
            says_whole(s, start, FrameKind::PairHandshake, Seq::empty(), msg, hs);
        } else if s.peer_dials.dom().contains(d) && s.can_open(s.peer_dials[d].1.peer) {
            let r = s.peers[s.peer_dials[d].1.peer].record;
            let start = choose|start: Handshake|
                #[trigger] start.starts(
                    Mode::Session,
                    s.own_secret,
                    r.session_psk,
                    Some(r.public_key),
                    true,
                ) && s.says_hello(start, FrameKind::SessionHandshake, msg, hs);
            says_hello_whole(s, start, FrameKind::SessionHandshake, msg, hs);
        }
    }
    links_fewer(s, State { links: s2.links, ..s });
    same_links_step(State { links: s2.links, ..s }, s2);
}

proof fn link_down_step<W: Wire>(s: State<W>, now: u64, link: u64, out: Out)
    ensures
        step(s, s.link_down(now, link, out).0),
        grows(out, s.link_down(now, link, out).1),
        s.link_down(now, link, out).0.links == s.links.remove(link),
        s.link_down(now, link, out).0.peers == s.peers,
{
    let s2 = s.link_down(now, link, out).0;
    let less = State { links: s.links.remove(link), ..s };
    links_fewer(s, less);
    assert(!s.links.dom().contains(link) ==> s.links.remove(link) =~= s.links);
    same_links_step(less, s2);
}

/// Whether a pairing waits for a person to compare the digits.
pub open spec fn waits<W: Wire>(s: State<W>) -> bool {
    s.pairing matches Some(w) && w.awaiting is Some
}

/// What every step keeps that does not settle a pairing: one that waits for a
/// person is left as it is, or given up.
pub open spec fn cautious<W: Wire>(a: State<W>, b: State<W>) -> bool {
    &&& steady(a, b)
    &&& b.peers.dom().subset_of(a.peers.dom())
    &&& (waits(a) ==> b.pairing == a.pairing || b.pairing is None)
    &&& (a.sound() ==> b.sound())
}

proof fn accept_hello_step<W: Wire>(s: State<W>, peer: Seq<char>, heard: Option<HeardV>, out: Out)
    ensures
        step(s, s.accept_hello(peer, heard, out).0),
        s.accept_hello(peer, heard, out).0.links == s.links,
        s.accept_hello(peer, heard, out).0.pairing == s.pairing,
        s.accept_hello(peer, heard, out).0.peers.dom() == s.peers.dom(),
{
    let s2 = s.accept_hello(peer, heard, out).0;
    assert(s2.peers.dom() =~= s.peers.dom());
    if s.sound() {
        assert forall|l: u64|
            #[trigger] s2.links.dom().contains(l) && s2.links[l] is Up implies s2.link_sound(
            s2.links[l]->Up_0,
        ) by {
            assert(s.link_sound(s.links[l]->Up_0));
        }
    }
}

proof fn session_up_step<W: Wire>(
    s: State<W>,
    now: u64,
    link: u64,
    attrs: LinkAttrs,
    peer: Seq<char>,
    hash: Seq<u8>,
    session: SessionView,
    out: Out,
)
    requires
        s.peers.dom().contains(peer),
    ensures
        step(s, s.session_up(now, link, attrs, peer, hash, session, out).0),
{
    let s2 = s.session_up(now, link, attrs, peer, hash, session, out).0;
    let r = s.peers[peer].record;
    if s.sound() {
        assert forall|l: u64|
            #[trigger] s2.links.dom().contains(l) && s2.links[l] is Up implies s2.link_sound(
            s2.links[l]->Up_0,
        ) by {
            if l == link {
                let u = s2.links[l]->Up_0;
                assert forall|c: Seq<char>| u.can_send.contains(c) implies s2.caps_out.contains(
                    c,
                ) by {
                    shared_is_in_both(s.caps_out, r.caps_in, c);
                }
                assert forall|c: Seq<char>| u.can_recv.contains(c) implies s2.caps_in.contains(
                    c,
                ) by {
                    shared_is_in_both(r.caps_out, s.caps_in, c);
                }
            } else {
                assert(s.link_sound(s.links[l]->Up_0));
            }
        }
    }
}

proof fn finish_session_step<W: Wire>(
    s: State<W>,
    now: u64,
    link: u64,
    attrs: LinkAttrs,
    peer: Seq<char>,
    made: crate::engine::frames::Made,
    out: Out,
)
    ensures
        step(s, s.finish_session(now, link, attrs, peer, made, out).0),
{
    match made {
        crate::engine::frames::Made::Failed(words) => {
            fail_link_step(s, link, words, out);
        },
        crate::engine::frames::Made::Ready(hash, session) => {
            if s.peers.dom().contains(peer) {
                session_up_step(s, now, link, attrs, peer, hash, session, out);
            } else {
                fail_link_step(s, link, "peer vanished mid-handshake"@, out);
            }
        },
    }
}

proof fn session_opener_step<W: Wire>(
    s: State<W>,
    now: u64,
    link: u64,
    attrs: LinkAttrs,
    opener: Opener,
    out: Out,
)
    ensures
        step(s, s.session_opener(now, link, attrs, opener, out).0),
{
    links_fewer(s, State { links: s.links.remove(link), ..s });
    match opener {
        Opener::Read(id, heard, reply) => {
            if s.why_no_session(id) is None {
                accept_hello_step(s, id, heard, out);
                let (mid, o, fresh) = s.accept_hello(id, heard, out);
                links_fewer(mid, State { links: mid.links.remove(link), ..mid });
                match reply {
                    crate::engine::frames::Reply::Message(msg, made) => {
                        finish_session_step(
                            mid,
                            now,
                            link,
                            attrs,
                            id,
                            made,
                            o.push(ActionView::LinkSend { link, msg }),
                        );
                    },
                    _ => {},
                }
            }
        },
        _ => {},
    }
}

proof fn pair_opener_step<W: Wire>(
    s: State<W>,
    now: u64,
    link: u64,
    attrs: LinkAttrs,
    deadline: u64,
    body: Seq<u8>,
    greeted: Greeted,
    out: Out,
)
    requires
        s.why_not_pair(now) is None ==> s.greeting_fits(body, greeted),
    ensures
        cautious(s, s.pair_opener(now, link, attrs, deadline, greeted, out).0),
{
    let s2 = s.pair_opener(now, link, attrs, deadline, greeted, out).0;
    match greeted {
        Greeted::Answered(msg, hs) => {
            if s.why_not_pair(now) is None {
                let (start, payload, mid) = choose|
                    start: Handshake,
                    payload: Seq<u8>,
                    mid: Handshake,
                |
                    s.answers_pairing(start) && #[trigger] start.has_read(body, payload, mid)
                        && s.says_hello(mid, FrameKind::PairHandshake, msg, hs);
                says_hello_whole(s, mid, FrameKind::PairHandshake, msg, hs);
            }
        },
        _ => {},
    }
    links_fewer(s, State { links: s2.links, ..s });
    let t = State { links: s2.links, ..s };
    if t.sound() {
        assert forall|l: u64|
            #[trigger] s2.links.dom().contains(l) && s2.links[l] is Up implies s2.link_sound(
            s2.links[l]->Up_0,
        ) by {
            assert(t.link_sound(t.links[l]->Up_0));
        }
    }
}

proof fn handshake_end_step<W: Wire>(
    s: State<W>,
    now: u64,
    link: u64,
    h: crate::engine::model::ShakingV,
    end: crate::engine::frames::End,
    out: Out,
)
    ensures
        cautious(s, s.handshake_end(now, link, h, end, out).0),
{
    let s2 = s.handshake_end(now, link, h, end, out).0;
    if h.pairing_flow {
        let t = State { links: s2.links, ..s };
        links_fewer(s, t);
        if t.sound() {
            assert forall|l: u64|
                #[trigger] s2.links.dom().contains(l) && s2.links[l] is Up implies s2.link_sound(
                s2.links[l]->Up_0,
            ) by {
                assert(t.link_sound(t.links[l]->Up_0));
            }
        }
    } else {
        links_fewer(s, State { links: s.links.remove(link), ..s });
        if h.expect is Some {
            let peer = h.expect->Some_0;
            match end {
                crate::engine::frames::End::Session(heard, made) => {
                    accept_hello_step(s, peer, heard, out);
                    let (mid, o, fresh) = s.accept_hello(peer, heard, out);
                    links_fewer(mid, State { links: mid.links.remove(link), ..mid });
                    finish_session_step(mid, now, link, h.attrs, peer, made, o);
                },
                _ => {},
            }
        }
    }
}

proof fn handshake_frame_step<W: Wire>(
    s: State<W>,
    now: u64,
    link: u64,
    h: crate::engine::model::ShakingV,
    kind: FrameKind,
    body: Seq<u8>,
    turn: Turn,
    out: Out,
)
    requires
        h.hs.whole(),
        kind == h.kind() ==> s.turn_fits(h, body, turn),
    ensures
        cautious(s, s.handshake_frame(now, link, h, kind, turn, out).0),
{
    let s2 = s.handshake_frame(now, link, h, kind, turn, out).0;
    links_fewer(s, State { links: s.links.remove(link), ..s });
    if kind != h.kind() {
        fail_link_step(s, link, "handshake frame of the wrong kind"@, out);
    } else {
        match turn {
            Turn::Went(said, hs, end) => {
                let (payload, mid) = choose|payload: Seq<u8>, mid: Handshake|
                    #[trigger] h.hs.has_read(body, payload, mid) && s.went_fits(
                        h,
                        payload,
                        mid,
                        said,
                        hs,
                        end,
                    );
                a_whole_handshake_reads_on(h.hs, body, payload, mid);
                if h.pairing_flow && !mid@.complete() && mid@.my_turn {
                    says_hello_whole(s, mid, FrameKind::PairHandshake, said->Some_0, hs);
                }
                let o = match said {
                    Some(msg) => out.push(ActionView::LinkSend { link, msg }),
                    None => out,
                };
                handshake_end_step(s, now, link, h, end, o);
                links_fewer(
                    s,
                    State {
                        links: s.links.insert(
                            link,
                            LinkV::Handshaking(
                                crate::engine::model::ShakingV { hs, ..h },
                            ),
                        ),
                        ..s
                    },
                );
            },
            _ => {
                let t = State { links: s2.links, ..s };
                links_fewer(s, t);
                if t.sound() {
                    assert forall|l: u64|
                        #[trigger] s2.links.dom().contains(l) && s2.links[l] is Up implies s2.link_sound(
                        s2.links[l]->Up_0,
                    ) by {
                        assert(t.link_sound(t.links[l]->Up_0));
                    }
                }
            },
        }
    }
}

pub(crate) proof fn message_step<W: Wire>(
    s: State<W>,
    now: u64,
    u: UpV,
    env: EnvelopeView,
    out: Out,
    s2: State<W>,
    out2: Out,
)
    requires
        s.message(now, u, env, out, s2, out2),
    ensures
        within_reach(s, s2),
{
    let idx = handler(s.manifests, env.cap, s.manifests.len() as int);
    let answer = error_answer(u.peer, env.cap, env.id, ErrorCode::CapNotNegotiated);
    if !u.can_recv.contains(env.cap) || (env.ty != "err"@ && idx is None) {
        let sealed = choose|sealed: Sealed|
            (s2, out2) == #[trigger] s.send_step(answer, sealed, out) && s.seal_fits(
                answer,
                sealed,
            );
        send_step_reaches(s, answer, sealed, out);
    } else if env.ty != "err"@ {
        let i = idx->Some_0;
        let told = Told::Message { peer: u.peer, env };
        let bulk = s.bulk_for(u.peer);
        let (fault, mid, out1, sealed) = choose|
            fault: Option<FaultView>,
            mid: State<W>,
            out1: Out,
            sealed: Sealed,
        |
            #![trigger s.told_one(now, i, told, bulk, verdict(fault), out, mid, out1), answered(fault, mid, out1, sealed, u.peer, env.cap, env.id)]
            s.told_one(now, i, told, bulk, verdict(fault), out, mid, out1) && (s2, out2)
                == answered(fault, mid, out1, sealed, u.peer, env.cap, env.id) && (fault matches Some(
                f,
            ) ==> mid.seal_fits(error_answer(u.peer, env.cap, env.id, f.code()), sealed));
        one_told_ran(s, now, i, told, bulk, verdict(fault), out, mid, out1);
        plugins_reach_no_further(s, now, Some(i), out, mid, out1);
        if fault is Some {
            send_step_reaches(
                mid,
                error_answer(u.peer, env.cap, env.id, fault->Some_0.code()),
                sealed,
                out1,
            );
        }
    }
}

proof fn heard_step<W: Wire>(s: State<W>, now: u64, link: u64, u: UpV)
    requires
        s.links.dom().contains(link),
        s.links[link] == LinkV::Up(u),
    ensures
        step(s, s.without_link(link).heard_from(now, link, u)),
        step(s, s.without_link(link).with_link(link, LinkV::Up(u))),
{
    let s2 = State { links: s.links.remove(link), ..s }.heard_from(now, link, u);
    let s3 = State { links: s.links.remove(link).insert(link, LinkV::Up(u)), ..s };
    if s.sound() {
        assert(s.link_sound(u));
        assert forall|l: u64|
            #[trigger] s2.links.dom().contains(l) && s2.links[l] is Up implies s2.link_sound(
            s2.links[l]->Up_0,
        ) by {
            assert(s.links.dom().contains(l));
            assert(s.link_sound(s.links[l]->Up_0));
        }
        assert forall|l: u64|
            #[trigger] s3.links.dom().contains(l) && s3.links[l] is Up implies s3.link_sound(
            s3.links[l]->Up_0,
        ) by {
            assert(s.links.dom().contains(l));
            assert(s.link_sound(s.links[l]->Up_0));
        }
    }
}

proof fn transport_frame_step<W: Wire>(
    s: State<W>,
    now: u64,
    link: u64,
    u: UpV,
    kind: FrameKind,
    opened: Opened,
    out: Out,
    s2: State<W>,
    out2: Out,
)
    requires
        s.links.dom().contains(link),
        s.links[link] == LinkV::Up(u),
        s.without_link(link).transport_frame(
            now,
            link,
            u,
            kind,
            opened,
            out,
            s2,
            out2,
        ),
    ensures
        cautious(s, s2),
{
    let less = State { links: s.links.remove(link), ..s };
    heard_step(s, now, link, u);
    let back = State { links: less.links.insert(link, LinkV::Up(u)), ..less };
    let detail = match opened {
        Opened::Sealed(words) => words,
        _ => "handshake frame on an established link"@,
    };
    let detail = if kind != FrameKind::Transport {
        "handshake frame on an established link"@
    } else {
        detail
    };
    let o = out.push(
        ActionView::Close { link, reason: ReasonView::Protocol(ErrorCode::NotAllowed) },
    );
    let o = crate::engine::model::error(o, Some(u.peer), ErrorCode::NotAllowed, detail);
    link_down_step(back, now, link, o);
    let (s1, o1, gone) = back.link_down(now, link, o);
    if kind != FrameKind::Transport || opened is Sealed {
        ends_step(s1, o1, left(gone), now, s2, out2);
    } else {
        match opened {
            Opened::Message(env) => {
                let heard = less.heard_from(now, link, u);
                message_step(heard, now, u, env, out, s2, out2);
                reach_is_sound(heard, s2);
            },
            _ => {},
        }
    }
}

proof fn received_step<W: Wire>(
    s: State<W>,
    now: u64,
    link: u64,
    msg: Seq<u8>,
    frame: Option<(FrameKind, Seq<u8>)>,
    greeted: Greeted,
    opener: Opener,
    turn: Turn,
    opened: Opened,
    out: Out,
    s2: State<W>,
    out2: Out,
)
    requires
        s.sound(),
        s.received(now, link, msg, frame, greeted, opener, turn, opened, out, s2, out2),
    ensures
        cautious(s, s2),
{
    match frame {
        None => {
            fail_link_step(s, link, "malformed frame"@, out);
        },
        Some((kind, body)) => {
            if !s.links.dom().contains(link) {
                fail_link_step(s, link, "frame on an unknown link"@, out);
            } else {
                let less = State { links: s.links.remove(link), ..s };
                links_fewer(s, less);
                match s.links[link] {
                    LinkV::Pending { attrs, deadline } => {
                        let (s1, o, news) = less.first_frame(
                            now,
                            link,
                            attrs,
                            deadline,
                            kind,
                            greeted,
                            opener,
                            out,
                        );
                        if kind == FrameKind::PairHandshake {
                            pair_opener_step(
                                less,
                                now,
                                link,
                                attrs,
                                deadline,
                                body,
                                greeted,
                                out,
                            );
                        }
                        session_opener_step(less, now, link, attrs, opener, out);
                        fail_link_step(less, link, "transport frame before a handshake"@, out);
                        ends_step(s1, o, news, now, s2, out2);
                    },
                    LinkV::Handshaking(h) => {
                        let (s1, o, news) = less.handshake_frame(now, link, h, kind, turn, out);
                        handshake_frame_step(less, now, link, h, kind, body, turn, out);
                        ends_step(s1, o, news, now, s2, out2);
                    },
                    LinkV::Up(u) => {
                        transport_frame_step(s, now, link, u, kind, opened, out, s2, out2);
                    },
                }
            }
        },
    }
}

proof fn drop_all_stale_step<W: Wire>(s: State<W>, now: u64, links: Seq<u64>, n: int, out: Out)
    ensures
        step(s, s.drop_all_stale(now, links, n, out).0),
    decreases n,
{
    if n > 0 {
        drop_all_stale_step(s, now, links, n - 1, out);
        let (mid, o) = s.drop_all_stale(now, links, n - 1, out);
        let link = links[n - 1];
        let less = mid.without_link(link);
        links_fewer(mid, less);
        let o2 = o.push(ActionView::Close { link, reason: ReasonView::Closed });
        if mid.links.dom().contains(link) {
            match mid.links[link] {
                LinkV::Handshaking(h) => {
                    if h.fallback is Some {
                        next_route_step(
                            less,
                            now,
                            h.fallback->Some_0,
                            "got answer that cut off half way"@,
                            o2,
                        );
                    }
                },
                _ => {},
            }
        }
    } else {
        same_links_step(s, s);
    }
}

proof fn expire_all_step<W: Wire>(s: State<W>, now: u64, dials: Seq<u64>, n: int, out: Out)
    ensures
        step(s, s.expire_all(now, dials, n, out).0),
    decreases n,
{
    if n > 0 {
        expire_all_step(s, now, dials, n - 1, out);
        let (mid, o) = s.expire_all(now, dials, n - 1, out);
        let d = dials[n - 1];
        same_links_step(mid, mid.expire_dial(now, d, o).0);
    } else {
        same_links_step(s, s);
    }
}

proof fn tidy_step<W: Wire>(s: State<W>, now: u64, out: Out)
    ensures
        step(s, s.tidy(now, out).0),
{
    let stale = s.stale_links(now);
    drop_all_stale_step(s, now, stale, stale.len() as int, out);
    let (s1, o1) = s.drop_all_stale(now, stale, stale.len() as int, out);
    let expired = s1.expired_dials(now);
    expire_all_step(s1, now, expired, expired.len() as int, o1);
    let (s2, o2) = s1.expire_all(now, expired, expired.len() as int, o1);
    if s2.reconnect_at is None || now >= s2.reconnect_at->Some_0 {
        let t = State {
            reconnect_at: Some((now + s2.config.reconnect_every_ms) as u64),
            ..s2
        };
        same_links_step(s2, t);
        let list = t.waiting();
        connect_all_step(t, now, list, list.len() as int, o2);
    }
}

pub(crate) proof fn owner_told_step<W: Wire>(
    s: State<W>,
    now: u64,
    transfer: u64,
    told: Told,
    out: Out,
    s2: State<W>,
    out2: Out,
)
    requires
        s.owner_told(now, transfer, told, out, s2, out2),
    ensures
        within_reach(s, s2),
{
    if s.bulk_owner.dom().contains(transfer) {
        let idx = s.bulk_owner[transfer];
        one_told_ran(s, now, idx, told, None, Ok(()), out, s2, out2);
        plugins_reach_no_further(s, now, Some(idx), out, s2, out2);
    }
}

proof fn gave_up_step<W: Wire>(
    s: State<W>,
    now: u64,
    transfer: u64,
    out: Out,
    s2: State<W>,
    out2: Out,
)
    requires
        s.gave_up(now, transfer, out, s2, out2),
    ensures
        within_reach(s, s2),
{
    let t = State { bulk_wait: s.bulk_wait.remove(transfer), ..s };
    let o = out.push(ActionView::BulkCancel { transfer });
    let told = Told::Finished { transfer, ok: false, detail: "the sender never connected"@ };
    let mid = choose|mid: State<W>|
        #![trigger t.owner_told(now, transfer, told, o, mid, out2)]
        t.owner_told(now, transfer, told, o, mid, out2) && s2 == (State {
            bulk_owner: mid.bulk_owner.remove(transfer),
            ..mid
        });
    owner_told_step(t, now, transfer, told, o, mid, out2);
}

pub(crate) proof fn give_up_trace_step<W: Wire>(
    now: u64,
    list: Seq<u64>,
    trace: Seq<(State<W>, Out)>,
    n: int,
)
    requires
        give_up_trace(now, list, trace),
        0 <= n <= list.len(),
    ensures
        within_reach(trace[0].0, trace[n].0),
    decreases n,
{
    if n > 0 {
        give_up_trace_step(now, list, trace, n - 1);
        let before = trace[n - 1];
        assert(before.0.gave_up(now, list[n - 1], before.1, trace[n].0, trace[n].1));
        gave_up_step(before.0, now, list[n - 1], before.1, trace[n].0, trace[n].1);
    }
}

proof fn lapse_step<W: Wire>(s: State<W>, now: u64, out: Out)
    ensures
        step(s, s.lapse_pairing(now, out).0),
{
    let s2 = s.lapse_pairing(now, out).0;
    let t = State { links: s2.links, ..s };
    links_fewer(s, t);
    same_links_step(t, s2);
}

proof fn ticked_step<W: Wire>(s: State<W>, now: u64, out: Out, s2: State<W>, out2: Out)
    requires
        s.ticked(now, out, s2, out2),
    ensures
        step(s, s2),
{
    lapse_step(s, now, out);
    let (s1, o1) = s.lapse_pairing(now, out);
    let list = s1.overdue(now);
    let (mid, om) = choose|mid: State<W>, o2: Out|
        #![trigger s1.gave_up_all(now, list, o1, mid, o2)]
        s1.gave_up_all(now, list, o1, mid, o2) && {
            let (t, o3) = mid.tidy(now, o2);
            t.woke(now, o3, s2, out2)
        };
    let trace = choose|trace: Seq<(State<W>, Out)>|
        #[trigger] give_up_trace(now, list, trace) && trace[0] == (s1, o1)
            && trace[list.len() as int] == (mid, om);
    give_up_trace_step(now, list, trace, list.len() as int);
    reach_is_sound(s1, mid);
    tidy_step(mid, now, om);
    let (t, o3) = mid.tidy(now, om);
    if t.plugin_wake is Some && now >= t.plugin_wake->Some_0 {
        let w = State { plugin_wake: None, ..t };
        all_told_ran(w, now, Told::Tick, o3, s2, out2);
        plugins_reach_no_further(w, now, None, o3, s2, out2);
        reach_is_sound(t, s2);
    }
}

pub(crate) proof fn close_trace_step<W: Wire>(
    now: u64,
    links: Seq<u64>,
    reason: ReasonView,
    trace: Seq<(State<W>, Out)>,
    n: int,
)
    requires
        close_trace(now, links, reason, trace),
        0 <= n <= links.len(),
    ensures
        step(trace[0].0, trace[n].0),
        trace[n].0.peers == trace[0].0.peers,
        trace[n].0.addrs == trace[0].0.addrs,
        trace[n].0.seen == trace[0].0.seen,
        grows(trace[0].1, trace[n].1),
        forall|l: u64| #[trigger]
            trace[n].0.links.dom().contains(l) <==> trace[0].0.links.dom().contains(l)
                && !links.take(n).contains(l),
        forall|l: u64| #[trigger]
            trace[n].0.links.dom().contains(l) ==> same_link(
                trace[0].0.links[l],
                trace[n].0.links[l],
            ),
    decreases n,
{
    if n > 0 {
        close_trace_step(now, links, reason, trace, n - 1);
        let before = trace[n - 1];
        let link = links[n - 1];
        assert(before.0.closed_one(now, link, reason, before.1, trace[n].0, trace[n].1));
        let o = before.1.push(ActionView::Close { link, reason });
        link_down_step(before.0, now, link, o);
        let (s1, o1, gone) = before.0.link_down(now, link, o);
        ends_step(s1, o1, left(gone), now, trace[n].0, trace[n].1);
        assert forall|l: u64| #[trigger]
            trace[n].0.links.dom().contains(l) <==> trace[0].0.links.dom().contains(l)
                && !links.take(n).contains(l) by {
            let fewer = links.take(n - 1);
            let more = links.take(n);
            assert(more =~= fewer.push(link));
            if fewer.contains(l) {
                let i = choose|i: int| 0 <= i < fewer.len() && fewer[i] == l;
                assert(more[i] == l);
            }
            assert(more[n - 1] == link);
            if more.contains(l) && l != link {
                let i = choose|i: int| 0 <= i < more.len() && more[i] == l;
                assert(fewer[i] == l);
            }
            assert(before.0.links.dom().contains(l) <==> trace[0].0.links.dom().contains(l)
                && !links.take(n - 1).contains(l));
        }
        assert forall|l: u64| #[trigger]
            trace[n].0.links.dom().contains(l) implies same_link(
            trace[0].0.links[l],
            trace[n].0.links[l],
        ) by {
            assert(s1.links.dom().contains(l));
            assert(before.0.links.dom().contains(l));
        }
    } else {
        same_links_step(trace[0].0, trace[0].0);
        assert(links.take(0) =~= Seq::empty());
    }
}

proof fn links_to_lists<W: Wire>(s: State<W>, peer: Seq<char>, l: u64)
    requires
        carries(s.links, l, peer),
    ensures
        s.links_to(peer).contains(l),
{
    numbers_are_finite(s.links.dom());
    let all = ascending::<u64>(s.links.dom());
    ascending_lists_the_set::<u64>(s.links.dom());
    assert(all.to_set().contains(l));
    let i = choose|i: int| 0 <= i < all.len() && all[i] == l;
    all.lemma_filter_contains(|x: u64| carries(s.links, x, peer), i);
}

/// Once the links to a peer are closed, none is left, and the others are as
/// they were.
pub(crate) proof fn closing_all_leaves_none<W: Wire>(
    s: State<W>,
    now: u64,
    peer: Seq<char>,
    reason: ReasonView,
    out: Out,
    s2: State<W>,
    out2: Out,
)
    requires
        s.closed_down(now, s.links_to(peer), reason, out, s2, out2),
    ensures
        step(s, s2),
        s2.peers == s.peers,
        s2.addrs == s.addrs,
        s2.seen == s.seen,
        grows(out, out2),
        forall|l: u64| !#[trigger] carries(s2.links, l, peer),
        forall|l: u64| #[trigger]
            s2.links.dom().contains(l) ==> s.links.dom().contains(l) && same_link(
                s.links[l],
                s2.links[l],
            ),
{
    numbers_are_finite(s.links.dom());
    let list = s.links_to(peer);
    let trace = choose|trace: Seq<(State<W>, Out)>|
        #[trigger] close_trace(now, list, reason, trace) && trace[0] == (s, out)
            && trace[list.len() as int] == (s2, out2);
    close_trace_step(now, list, reason, trace, list.len() as int);
    assert(list.take(list.len() as int) =~= list);
    assert forall|l: u64| !#[trigger] carries(s2.links, l, peer) by {
        if carries(s2.links, l, peer) {
            assert(s2.links.dom().contains(l));
            assert(carries(s.links, l, peer));
            links_to_lists(s, peer, l);
        }
    }
}

proof fn revoked_step<W: Wire>(
    s: State<W>,
    now: u64,
    peer: Seq<char>,
    out: Out,
    s2: State<W>,
    out2: Out,
)
    requires
        s.revoked(now, peer, out, s2, out2),
    ensures
        step(s, s2),
        s2.peers == s.peers.remove(peer),
        s2.addrs == s.addrs.remove(peer),
        grows(unkeep(peer, out), out2),
        out2.contains(ActionView::Ui(UiView::Revoked { peer })),
        forall|l: u64| !#[trigger] carries(s2.links, l, peer),
{
    numbers_are_finite(s.links.dom());
    let t = s.without_peer(peer);
    let list = t.links_to(peer);
    let reason = ReasonView::Protocol(ErrorCode::NotPaired);
    let o = choose|o: Out|
        #![trigger t.closed_down(now, list, reason, unkeep(peer, out), s2, o)]
        t.closed_down(now, list, reason, unkeep(peer, out), s2, o) && out2
            == if s.peers.dom().contains(peer) {
            s2.announce(s.peers[peer].fingerprint, ui(o, UiView::Revoked { peer }))
        } else {
            ui(o, UiView::Revoked { peer })
        };
    closing_all_leaves_none(t, now, peer, reason, unkeep(peer, out), s2, o);
    assert(out2[o.len() as int] == ActionView::Ui(UiView::Revoked { peer }));
    if s.sound() {
        assert(s2.links.dom().subset_of(s.links.dom()));
        vstd::set_lib::lemma_len_subset(s2.links.dom(), s.links.dom());
        assert forall|l: u64|
            #[trigger] s2.links.dom().contains(l) && s2.links[l] is Up implies s2.link_sound(
            s2.links[l]->Up_0,
        ) by {
            assert(s.link_sound(s.links[l]->Up_0));
            assert(!carries(s2.links, l, peer));
        }
    }
}

// ---------------------------------------------------------------- what holds always

proof fn confirm_step<W: Wire>(s: State<W>, now: u64, accept: bool, out: Out)
    ensures
        steady(s, s.confirm_pairing(now, accept, out).0),
        s.sound() ==> s.confirm_pairing(now, accept, out).0.sound(),
{
    let s2 = s.confirm_pairing(now, accept, out).0;
    let t = State { links: s2.links, ..s };
    links_fewer(s, t);
    if s.sound() {
        assert forall|l: u64|
            #[trigger] s2.links.dom().contains(l) && s2.links[l] is Up implies s2.link_sound(
            s2.links[l]->Up_0,
        ) by {
            assert(t.link_sound(t.links[l]->Up_0));
        }
    }
}

proof fn commanded_step<W: Wire>(
    s: State<W>,
    now: u64,
    cmd: LocalCommand,
    out: Out,
    s2: State<W>,
    out2: Out,
)
    requires
        s.sound(),
        s.commanded(now, cmd, out, s2, out2),
        !(cmd is ConfirmPairing),
    ensures
        cautious(s, s2),
{
    match cmd {
        LocalCommand::RequestPairing { transport, addr } => {
            let t = State { pairing: s.pairing, ..s2 };
            same_links_step(s, t);
            if t.sound() {
                assert forall|l: u64|
                    #[trigger] s2.links.dom().contains(l) && s2.links[l] is Up implies s2.link_sound(
                    s2.links[l]->Up_0,
                ) by {
                    assert(t.link_sound(t.links[l]->Up_0));
                }
            }
        },
        LocalCommand::ConfirmPairing { .. } => {},
        LocalCommand::SetPeerAddress { .. } => {
            same_links_step(s, s2);
        },
        LocalCommand::ForgetPeerAddress { .. } => {
            same_links_step(s, s2);
        },
        LocalCommand::Connect { peer } => {
            connect_step(s, now, peer@, true, out);
        },
        LocalCommand::ReconsiderRoutes => {
            let list = ascending::<String>(s.peers.dom());
            connect_all_step(s, now, list, list.len() as int, out);
        },
        LocalCommand::Disconnect { peer } => {
            closing_all_leaves_none(s, now, peer@, ReasonView::Closed, out, s2, out2);
        },
        LocalCommand::Revoke { peer } => {
            revoked_step(s, now, peer@, out, s2, out2);
        },
        LocalCommand::Plugin { peer, cap, ty, body } => {
            match handler(s.manifests, cap@, s.manifests.len() as int) {
                None => {
                    same_links_step(s, s);
                },
                Some(idx) => {
                    let told = Told::Local { peer: peer@, ty: ty@, body: body@ };
                    let bulk = s.bulk_for(peer@);
                    let (fault, o) = choose|fault: Option<FaultView>, o: Out|
                        #![trigger s.told_one(now, idx, told, bulk, verdict(fault), out, s2, o), complained(fault, peer@, o)]
                        s.told_one(now, idx, told, bulk, verdict(fault), out, s2, o) && out2
                            == complained(fault, peer@, o);
                    one_told_ran(s, now, idx, told, bulk, verdict(fault), out, s2, o);
                    plugins_reach_no_further(s, now, Some(idx), out, s2, o);
                    reach_is_sound(s, s2);
                },
            }
        },
    }
}

proof fn handled_step<W: Wire>(s: State<W>, now: u64, ev: Event, s2: State<W>, out2: Out)
    requires
        s.sound(),
        s.handled(now, ev, s2, out2),
        !(ev matches Event::Local(cmd) && cmd is ConfirmPairing),
    ensures
        cautious(s, s2),
{
    let out: Out = Seq::empty();
    match ev {
        Event::LinkUp { link, attrs, dial } => {
            let token = crate::engine::events::token_of(dial);
            let said = choose|said: Said|
                (s2, out2) == #[trigger] s.link_up(now, link.0, attrs, token, said, out)
                    && s.said_fits(token, said);
            link_up_step(s, now, link.0, attrs, token, said, out);
        },
        Event::LinkRecv { link, msg } => {
            let (frame, greeted, opener, turn, opened) = choose|
                frame: Option<(FrameKind, Seq<u8>)>,
                greeted: Greeted,
                opener: Opener,
                turn: Turn,
                opened: Opened,
            | #[trigger]
                s.received(now, link.0, msg@, frame, greeted, opener, turn, opened, out, s2, out2);
            received_step(s, now, link.0, msg@, frame, greeted, opener, turn, opened, out, s2, out2);
        },
        Event::LinkDown { link, reason } => {
            link_down_step(s, now, link.0, out);
            let (s1, o, gone) = s.link_down(now, link.0, out);
            ends_step(s1, o, left(gone), now, s2, out2);
        },
        Event::DialFailed { dial, reason } => {
            dial_failed_step(s, now, dial.0, reason@, out);
        },
        Event::Discovered { transport, peer } => {
            discovered_step(
                s,
                now,
                transport.0,
                match peer.fingerprint {
                    Some(fp) => Some(fp@),
                    None => None,
                },
                peer.name@,
                peer.addr@,
                peer.pairing,
                out,
            );
        },
        Event::Undiscovered { transport, addr } => {
            undiscovered_step(s, transport.0, addr@, out);
        },
        Event::Tick => {
            ticked_step(s, now, out, s2, out2);
        },
        Event::BulkListening { transfer, endpoint } => {
            let told = Told::Listening { transfer: transfer.0, endpoint: endpoint@ };
            owner_told_step(s, now, transfer.0, told, out, s2, out2);
            reach_is_sound(s, s2);
        },
        Event::BulkStarted { transfer } => {
            reach_is_sound(s, s2);
        },
        Event::BulkFinished { transfer, ok, detail } => {
            let n = transfer.0;
            let told = Told::Finished { transfer: n, ok, detail: detail@ };
            let mid = choose|mid: State<W>|
                #![trigger s.owner_told(now, n, told, out, mid, out2)]
                s.owner_told(now, n, told, out, mid, out2) && s2 == (State {
                    bulk_owner: mid.bulk_owner.remove(n),
                    bulk_wait: mid.bulk_wait.remove(n),
                    ..mid
                });
            owner_told_step(s, now, n, told, out, mid, out2);
            reach_is_sound(s, s2);
        },
        Event::Local(cmd) => {
            commanded_step(s, now, cmd, out, s2, out2);
        },
        Event::EffectDone { token, result } => {
            if s.effect_owner.dom().contains(token.0) {
                let t = State { effect_owner: s.effect_owner.remove(token.0), ..s };
                let idx = s.effect_owner[token.0];
                let told = Told::Answer { token: token.0, result: result@ };
                one_told_ran(t, now, idx, told, None, Ok(()), out, s2, out2);
                plugins_reach_no_further(t, now, Some(idx), out, s2, out2);
            }
            reach_is_sound(s, s2);
        },
    }
}

/// A core that has just been built is sound.
pub proof fn a_new_core_is_sound<W: Wire>(plan: crate::engine::builder::Plan, s: State<W>)
    requires
        plan.built(s),
    ensures
        s.sound(),
{
}

/// Whatever arrives, every session stays one with a paired peer and within what
/// this device offers, what was seen nearby stays bounded, and what the core is
/// and offers does not change.
pub proof fn soundness_is_kept<W: Wire>(s: State<W>, now: u64, ev: Event, s2: State<W>, out2: Out)
    requires
        s.sound(),
        s.handled(now, ev, s2, out2),
    ensures
        s2.sound(),
        steady(s, s2),
{
    match ev {
        Event::Local(cmd) => match cmd {
            LocalCommand::ConfirmPairing { accept } => {
                confirm_step(s, now, accept, Seq::empty());
            },
            _ => {
                handled_step(s, now, ev, s2, out2);
            },
        },
        _ => {
            handled_step(s, now, ev, s2, out2);
        },
    }
}

/// Every paired device is on the list of them, and nobody else is.
pub proof fn every_peer_is_listed<W: Wire>(s: State<W>)
    requires
        s.sound(),
    ensures
        forall|id: Seq<char>| #[trigger]
            s.peers.dom().contains(id) ==> s.records().contains(s.peers[id].record),
        forall|k: int| 0 <= k < s.records().len() ==> s.remembers(#[trigger] s.records()[k]),
{
    let ids = ascending::<String>(s.peers.dom());
    ascending_lists_the_set::<String>(s.peers.dom());
    assert forall|id: Seq<char>| #[trigger] s.peers.dom().contains(id) implies s.records().contains(
        s.peers[id].record,
    ) by {
        assert(ids.to_set().contains(id));
        let k = choose|k: int| 0 <= k < ids.len() && ids[k] == id;
        assert(s.records()[k] == s.peers[id].record);
    }
    assert forall|k: int| 0 <= k < s.records().len() implies s.remembers(
        #[trigger] s.records()[k],
    ) by {
        assert(ids.to_set().contains(ids[k]));
        assert(s.peers.dom().contains(ids[k]));
    }
}

/// Nobody becomes a peer but by a person agreeing to the digits, and then it is
/// the device whose digits were shown.
pub proof fn only_a_person_pairs<W: Wire>(
    s: State<W>,
    now: u64,
    ev: Event,
    s2: State<W>,
    out2: Out,
    id: Seq<char>,
)
    requires
        s.sound(),
        s.handled(now, ev, s2, out2),
        s2.peers.dom().contains(id),
        !s.peers.dom().contains(id),
    ensures
        ev == Event::Local(LocalCommand::ConfirmPairing { accept: true }),
        waits(s),
        s.pairing->Some_0.awaiting->Some_0.id == id,
        s2.peers[id].record == s.pairing->Some_0.awaiting->Some_0.record,
{
    match ev {
        Event::Local(cmd) => match cmd {
            LocalCommand::ConfirmPairing { accept } => {},
            _ => {
                handled_step(s, now, ev, s2, out2);
            },
        },
        _ => {
            handled_step(s, now, ev, s2, out2);
        },
    }
}

/// A pairing that waits for a person is never replaced by another and never
/// gets more time: it stays as it is until it is settled or given up.
pub proof fn a_waiting_pairing_is_not_replaced<W: Wire>(
    s: State<W>,
    now: u64,
    ev: Event,
    s2: State<W>,
    out2: Out,
)
    requires
        s.sound(),
        s.handled(now, ev, s2, out2),
        waits(s),
    ensures
        s2.pairing == s.pairing || s2.pairing is None,
{
    match ev {
        Event::Local(cmd) => match cmd {
            LocalCommand::ConfirmPairing { accept } => {},
            _ => {
                handled_step(s, now, ev, s2, out2);
            },
        },
        _ => {
            handled_step(s, now, ev, s2, out2);
        },
    }
}

/// A forgotten peer leaves no record, no address and no session behind, and the
/// host is told to forget the record.
pub proof fn a_revoked_peer_leaves_nothing<W: Wire>(
    s: State<W>,
    now: u64,
    peer: crate::ids::DeviceId,
    s2: State<W>,
    out2: Out,
)
    requires
        s.sound(),
        s.handled(now, Event::Local(LocalCommand::Revoke { peer }), s2, out2),
    ensures
        s2.peers == s.peers.remove(peer@),
        s2.addrs == s.addrs.remove(peer@),
        best(s2.links, peer@) is None,
        out2.len() > 0,
        out2[0] == unkeep(peer@, Seq::empty())[0],
        out2.contains(ActionView::Ui(UiView::Revoked { peer: peer@ })),
{
    revoked_step(s, now, peer@, Seq::empty(), s2, out2);
    assert(unkeep(peer@, Seq::empty()).len() == 1);
    if best(s2.links, peer@) is Some {
        best_carries(s2, peer@);
    }
}

/// A peer that was disconnected has no session.
pub proof fn a_disconnected_peer_has_no_session<W: Wire>(
    s: State<W>,
    now: u64,
    peer: crate::ids::DeviceId,
    s2: State<W>,
    out2: Out,
)
    requires
        s.sound(),
        s.handled(now, Event::Local(LocalCommand::Disconnect { peer }), s2, out2),
    ensures
        s2.peers == s.peers,
        best(s2.links, peer@) is None,
{
    closing_all_leaves_none(s, now, peer@, ReasonView::Closed, Seq::empty(), s2, out2);
    if best(s2.links, peer@) is Some {
        best_carries(s2, peer@);
    }
}

} // verus!
