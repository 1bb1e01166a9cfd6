//! Finding peers and dialling them.
use crate::engine::model::{adopted, nowhere, DialV, LinkV, SightingV, State, MAX_SEEN};
use crate::engine::{Core, HandshakingLink, LinkState, PeerDial, Sighting};
use crate::ids::{DeviceId, Fingerprint};
use crate::link::{route_views, Routes, TransportId};
use crate::peer::PeerState;
use crate::table::{ascending, sorted, Table};
use crate::text::{join2, join3};
use crate::vocab::{Action, DialToken, DiscoveredPeer, Outcome, UiEvent};
use crate::wire::{ErrorCode, Wire};
use vstd::prelude::*;

verus! {

impl<W: Wire> Core<W> {
    /// Start a dial to a peer.
    fn dial(
        &mut self,
        now_ms: u64,
        transport: TransportId,
        addr: String,
        rest: PeerDial,
        out: &mut Outcome,
    )
        requires
            old(self)@.clock_fits(now_ms),
        ensures
            (final(self)@, final(out)@) == old(self)@.dial(
                now_ms,
                (transport.0, addr@),
                rest@,
                old(out)@,
            ),
    {
        self.next_dial = self.next_dial.wrapping_add(1);
        let d: u64 = self.next_dial;
        self.pending_peer_dials.insert(d, (now_ms + self.config.dial_timeout_ms, rest));
        out.push(Action::Dial { transport, addr, dial: DialToken(d) });
    }

    /// Try the next address for a peer, or record that it cannot be reached.
    /// Reached when a dial fails and when a connected dial's handshake times out.
    pub(crate) fn try_next_route(
        &mut self,
        now_ms: u64,
        pending: PeerDial,
        why: &str,
        out: &mut Outcome,
    )
        requires
            old(self)@.clock_fits(now_ms),
        ensures
            (final(self)@, final(out)@) == old(self)@.try_next_route(
                now_ms,
                pending@,
                why@,
                old(out)@,
            ),
    {
        let PeerDial { peer, routes, by_hand } = pending;
        let mut routes = routes;
        // Something else got there while this was failing.
        if self.best_link(&peer).is_some() {
            return;
        }
        assert(route_views(routes@).len() == routes@.len());
        if routes.len() == 0 {
            self.dial_trouble.insert(peer.text(), why.to_owned());
            // Announced only when a person asked; automatic attempts run on
            // every sighting and would flicker "unreachable".
            if by_hand {
                out.ui(UiEvent::PeerUnreachable { peer });
            }
            return;
        }
        let ghost all = routes@;
        let (transport, addr) = routes.remove(0);
        proof {
            assert(route_views(all)[0] == (transport.0, addr@));
            assert(route_views(routes@) =~= route_views(all).remove(0));
        }
        self.dial(now_ms, transport, addr, PeerDial { peer, routes, by_hand }, out);
    }

    /// Make an attempt already under way count as one a person asked for, so
    /// its end is announced.
    fn adopt_attempt(&mut self, peer: &DeviceId)
        ensures
            final(self)@ == old(self)@.adopt_attempt(peer@),
    {
        let ghost want = |v: (u64, DialV)|
            if v.1.peer == peer@ {
                (v.0, DialV { by_hand: true, ..v.1 })
            } else {
                v
            };
        let mut fresh: Table<u64, (u64, PeerDial)> = Table::new();
        let ghost all = self.pending_peer_dials@;
        let ghost goal = all.map_values(want);
        assert(fresh@.union_prefer_right(self.pending_peer_dials@.map_values(want)) =~= goal);
        loop
            invariant
                want == (|v: (u64, DialV)|
                    if v.1.peer == peer@ {
                        (v.0, DialV { by_hand: true, ..v.1 })
                    } else {
                        v
                    }),
                fresh@.union_prefer_right(self.pending_peer_dials@.map_values(want)) == goal,
                self@ == (State { peer_dials: self.pending_peer_dials@, ..old(self)@ }),
            ensures
                fresh@ == goal,
                self@ == (State { peer_dials: self.pending_peer_dials@, ..old(self)@ }),
            decreases self.pending_peer_dials@.dom().len(),
        {
            let _ = self.pending_peer_dials.len();
            let ghost rest = self.pending_peer_dials@;
            let ghost so_far = fresh@;
            match self.pending_peer_dials.pop_first() {
                Some((k, v)) => {
                    let (deadline, mut p) = v;
                    if p.peer.is(peer) {
                        p.by_hand = true;
                    }
                    fresh.insert(k, (deadline, p));
                    assert(fresh@.union_prefer_right(
                        self.pending_peer_dials@.map_values(want),
                    ) =~= so_far.union_prefer_right(rest.map_values(want)));
                },
                None => {
                    assert(fresh@ =~= so_far.union_prefer_right(rest.map_values(want)));
                    break ;
                },
            }
        }
        self.pending_peer_dials = fresh;
        let ghost wish = |l: LinkV| adopted(l, peer@);
        let mut links: Table<u64, LinkState> = Table::new();
        let ghost goal = self.links@.map_values(wish);
        let ghost mid = self@;
        assert(links@.union_prefer_right(self.links@.map_values(wish)) =~= goal);
        loop
            invariant
                wish == (|l: LinkV| adopted(l, peer@)),
                links@.union_prefer_right(self.links@.map_values(wish)) == goal,
                self@ == (State { links: self.links@, ..mid }),
            ensures
                links@ == goal,
                self@ == (State { links: self.links@, ..mid }),
            decreases self.links@.dom().len(),
        {
            let _ = self.links.len();
            let ghost rest = self.links@;
            let ghost so_far = links@;
            match self.links.pop_first() {
                Some((k, v)) => {
                    let v = match v {
                        LinkState::Handshaking(h) => {
                            let mut h = h;
                            match &h.fallback {
                                Some(p) => {
                                    if p.peer.is(peer) {
                                        Self::ask_for(&mut h);
                                    }
                                },
                                None => {},
                            }
                            LinkState::Handshaking(h)
                        },
                        other => other,
                    };
                    links.insert(k, v);
                    assert(links@.union_prefer_right(self.links@.map_values(wish))
                        =~= so_far.union_prefer_right(rest.map_values(wish)));
                },
                None => {
                    assert(links@ =~= so_far.union_prefer_right(rest.map_values(wish)));
                    break ;
                },
            }
        }
        self.links = links;
    }

    /// Marks the rest of a link's routes as asked for by a person.
    fn ask_for(h: &mut HandshakingLink)
        requires
            old(h)@.fallback is Some,
        ensures
            final(h)@ == (crate::engine::model::ShakingV {
                fallback: Some(DialV { by_hand: true, ..old(h)@.fallback->Some_0 }),
                ..old(h)@
            }),
    {
        match h.fallback.take() {
            Some(p) => {
                let PeerDial { peer, routes, by_hand: _ } = p;
                h.fallback = Some(PeerDial { peer, routes, by_hand: true });
            },
            None => {},
        }
    }

    /// Every address known for a peer, best first: what last worked, else what
    /// discovery has shown.
    fn routes_to(&self, peer: &DeviceId) -> (r: Vec<(TransportId, String)>)
        ensures
            route_views(r@) == self@.routes_to(peer@),
    {
        match self.addrs.get(&peer.text()) {
            Some(known) => {
                return known.in_preference_order();
            },
            None => {},
        }
        match self.peers.get(&peer.text()) {
            Some(k) => match self.seen.get(&k.fingerprint.text()) {
                Some(s) => {
                    return s.routes.in_preference_order();
                },
                None => {},
            },
            None => {},
        }
        let none: Vec<(TransportId, String)> = Vec::new();
        assert(route_views(none@) =~= Seq::empty());
        none
    }

    /// The transport that a route has to better to be worth dialling beside the one
    /// in use.
    fn bar_for(&self, peer: &DeviceId, current: TransportId) -> (bar: TransportId)
        ensures
            forall|t: u16| t < bar.0 <==> #[trigger] self@.worth_dialling(peer@, current.0, t),
    {
        let mut bar: TransportId = current;
        let n = self.links.len();
        let ghost keys = self.links.keys();
        for i in 0..n
            invariant
                keys == self.links.keys(),
                n == keys.len(),
                keys.to_set() == self@.links.dom(),
                bar.0 <= current.0,
                bar == current || (exists|k: int|
                    0 <= k < i && (self@.links[#[trigger] keys[k]] matches LinkV::Handshaking(h)
                        && h.expect == Some(peer@) && h.attrs.transport == bar)),
                forall|k: int|
                    0 <= k < i ==> (self@.links[#[trigger] keys[k]] matches LinkV::Handshaking(h)
                        ==> (h.expect == Some(peer@) ==> bar.0 <= h.attrs.transport.0)),
        {
            match self.links.value_at(i) {
                LinkState::Handshaking(h) => {
                    match &h.expect {
                        Some(e) => {
                            if e.is(peer) && h.attrs.transport.0 < bar.0 {
                                bar = h.attrs.transport;
                            }
                        },
                        None => {},
                    }
                },
                _ => {},
            }
        }
        proof {
            assert forall|t: u16| t < bar.0 <==> #[trigger] self@.worth_dialling(
                peer@,
                current.0,
                t,
            ) by {
                if t < bar.0 {
                    assert forall|l: u64| #[trigger] self@.links.dom().contains(l) && (
                    self@.links[l] matches LinkV::Handshaking(h) && h.expect == Some(peer@)) implies t
                        < self@.links[l]->Handshaking_0.attrs.transport.0 by {
                        assert(keys.to_set().contains(l));
                        let k = choose|k: int| 0 <= k < keys.len() && keys[k] == l;
                        assert(self@.links[keys[k]] is Handshaking);
                    }
                } else if bar != current {
                    let k = choose|k: int|
                        0 <= k < n && (self@.links[#[trigger] keys[k]] matches LinkV::Handshaking(h)
                            && h.expect == Some(peer@) && h.attrs.transport == bar);
                    assert(keys.to_set().contains(keys[k]));
                    assert(self@.links.dom().contains(keys[k]));
                }
            }
        }
        bar
    }

    /// The routes on a strictly better transport than the one in use.
    fn better_routes(routes: Vec<(TransportId, String)>, current: TransportId) -> (r: Vec<
        (TransportId, String),
    >)
        ensures
            route_views(r@) == route_views(routes@).filter(
                |x: (u16, Seq<char>)| x.0 < current.0,
            ),
    {
        let ghost keep = |x: (u16, Seq<char>)| x.0 < current.0;
        let ghost all = route_views(routes@);
        let mut out: Vec<(TransportId, String)> = Vec::new();
        proof {
            reveal(Seq::filter);
            assert(all.take(0) =~= Seq::empty());
            assert(route_views(out@) =~= all.take(0).filter(keep));
        }
        for i in 0..routes.len()
            invariant
                keep == (|x: (u16, Seq<char>)| x.0 < current.0),
                all == route_views(routes@),
                route_views(out@) == all.take(i as int).filter(keep),
        {
            let ghost so_far = route_views(out@);
            let ghost before = out@;
            proof {
                reveal(Seq::filter);
                assert(all.take(i + 1).drop_last() =~= all.take(i as int));
                assert(all.take(i + 1).last() == all[i as int]);
                assert(all[i as int] == (routes@[i as int].0.0, routes@[i as int].1@));
            }
            if routes[i].0.0 < current.0 {
                out.push((routes[i].0, routes[i].1.clone()));
                assert(route_views(out@) =~= so_far.push(all[i as int]));
            }
        }
        assert(all.take(all.len() as int) =~= all);
        out
    }

    /// Dials the first of some routes, or says that there is none.
    fn dial_first(
        &mut self,
        now_ms: u64,
        peer: DeviceId,
        routes: Vec<(TransportId, String)>,
        by_hand: bool,
        out: &mut Outcome,
    )
        requires
            old(self)@.clock_fits(now_ms),
        ensures
            (final(self)@, final(out)@) == old(self)@.dial_first(
                now_ms,
                peer@,
                route_views(routes@),
                by_hand,
                old(out)@,
            ),
    {
        let mut routes = routes;
        assert(route_views(routes@).len() == routes@.len());
        if routes.len() == 0 {
            // Worded for a phone screen as much as a terminal.
            let nowhere =
                "Device is asleep or unreachable. It might be off or on another network.";
            self.dial_trouble.insert(peer.text(), nowhere.to_owned());
            if by_hand {
                let detail = join3(
                    join2("no address known for ", peer.as_str()).as_str(),
                    ". ",
                    nowhere,
                );
                out.ui(
                    UiEvent::Error {
                        peer: Some(peer.clone()),
                        code: ErrorCode::NotAllowed,
                        detail,
                    },
                );
                out.ui(UiEvent::PeerUnreachable { peer });
            }
            return;
        }
        let ghost all = routes@;
        let (transport, addr) = routes.remove(0);
        proof {
            assert(route_views(all)[0] == (transport.0, addr@));
            assert(route_views(routes@) =~= route_views(all).remove(0));
        }
        self.dial(now_ms, transport, addr, PeerDial { peer, routes, by_hand }, out);
    }

    pub(crate) fn connect_peer(
        &mut self,
        now_ms: u64,
        peer: DeviceId,
        out: &mut Outcome,
        by_hand: bool,
    )
        requires
            old(self)@.clock_fits(now_ms),
        ensures
            (final(self)@, final(out)@) == old(self)@.connect_peer(
                now_ms,
                peer@,
                by_hand,
                old(out)@,
            ),
    {
        if !by_hand && self.dialling(&peer) {
            return;
        }
        // Last-working address first, then whatever discovery has shown.
        let routes = self.routes_to(&peer);
        match self.peer_state(&peer) {
            PeerState::Unreachable => {
                self.dial_first(now_ms, peer, routes, by_hand, out);
            },
            // Let the attempt in flight finish, but adopt it for a person who
            // asked, so it says how it ended.
            PeerState::Connecting => {
                if by_hand {
                    self.adopt_attempt(&peer);
                }
            },
            PeerState::Reachable => {
                // A strictly better transport is still worth dialling (a phone
                // finds Bluetooth before mDNS resolves): the better link wins
                // by existing, the worse one stays as fallback.
                if by_hand {
                    let name = self.name_of(&peer);
                    out.ui(UiEvent::PeerReachable { peer, name });
                    return;
                }
                match self.best_link_transport(&peer) {
                    None => {},
                    Some(current) => {
                        let ghost all = route_views(routes@);
                        // Nor is the better one dialled again while its handshake runs.
                        let bar = self.bar_for(&peer, current);
                        let better = Self::better_routes(routes, bar);
                        proof {
                            let s = self@;
                            let p = peer@;
                            assert((|x: (u16, Seq<char>)| x.0 < bar.0) =~= (|r: (u16, Seq<char>)|
                                s.worth_dialling(p, current.0, r.0)));
                            assert(route_views(better@) == all.filter(
                                |r: (u16, Seq<char>)| s.worth_dialling(p, current.0, r.0),
                            ));
                        }
                        assert(route_views(better@).len() == better@.len());
                        if better.len() > 0 {
                            self.dial_first(now_ms, peer, better, by_hand, out);
                        }
                    },
                }
            },
        }
    }

    /// Tries to reach each of some peers, unasked.
    pub(crate) fn connect_all(&mut self, now_ms: u64, peers: &Vec<String>, out: &mut Outcome)
        requires
            old(self)@.clock_fits(now_ms),
        ensures
            (final(self)@, final(out)@) == old(self)@.connect_all(
                now_ms,
                crate::text::texts(peers@),
                peers@.len() as int,
                old(out)@,
            ),
    {
        let ghost list = crate::text::texts(peers@);
        for i in 0..peers.len()
            invariant
                list == crate::text::texts(peers@),
                (self@, out@) == old(self)@.connect_all(now_ms, list, i as int, old(out)@),
                self@.clock_fits(now_ms),
        {
            assert(list[i as int] == peers@[i as int]@);
            self.connect_peer(now_ms, DeviceId::new(peers[i].clone()), out, false);
        }
    }

    /// The ids of all peers, in order.
    pub(crate) fn peer_ids(&self) -> (r: Vec<String>)
        ensures
            crate::text::texts(r@) == ascending::<String>(self@.peers.dom()),
    {
        let mut out: Vec<String> = Vec::new();
        let n = self.peers.len();
        for i in 0..n
            invariant
                n == self.peers.keys().len(),
                out.len() == i,
                forall|k: int| 0 <= k < i ==> (#[trigger] out@[k])@ == self.peers.keys()[k],
        {
            out.push(self.peers.key_at(i).clone());
        }
        assert(crate::text::texts(out@) =~= self.peers.keys());
        out
    }

    pub(crate) fn on_dial_failed(
        &mut self,
        now_ms: u64,
        dial: DialToken,
        reason: String,
        out: &mut Outcome,
    )
        requires
            old(self)@.clock_fits(now_ms),
        ensures
            (final(self)@, final(out)@) == old(self)@.dial_failed(
                now_ms,
                dial.0,
                reason@,
                old(out)@,
            ),
    {
        // Answered only by the table holding the token: a late answer
        // must not report a pairing failure to someone who was not pairing.
        let ghost start = self@;
        if self.pending_pair_dials.remove(&dial.0).is_some() {
            // Give the pairing slot back, without cooldown: nobody was
            // bothered by a dial that never came up.
            self.pairing = None;
            out.ui(UiEvent::PairingFailed { reason });
        } else {
            assert(self@.pair_dials =~= start.pair_dials);
            match self.pending_peer_dials.remove(&dial.0) {
                Some((_, pending)) => {
                    self.try_next_route(now_ms, pending, reason.as_str(), out);
                },
                None => {
                    assert(self@.peer_dials =~= start.peer_dials);
                },
            }
        }
    }

    /// Note an address for a peer.
    pub(crate) fn note_addr(&mut self, id: &DeviceId, transport: TransportId, addr: String)
        ensures
            final(self)@ == old(self)@.note_addr(id@, transport.0, addr@),
    {
        let mut routes = match self.addrs.remove(&id.text()) {
            Some(r) => r,
            None => Routes::new(),
        };
        routes.set(transport, addr);
        self.addrs.insert(id.text(), routes);
        assert(self@.addrs =~= old(self)@.note_addr(id@, transport.0, addr@).addrs);
    }

    /// Note what discovery saw of a machine.
    fn sight(
        &mut self,
        fp: &Fingerprint,
        transport: TransportId,
        name: String,
        addr: String,
        pairing: bool,
    )
        ensures
            final(self)@ == old(self)@.sight(fp@, transport.0, name@, addr@, pairing),
    {
        // Cleared rather than evicted at the cap: anything still
        // present is advertised again within seconds, and paired
        // addresses live in `addrs`.
        if self.seen.len() >= MAX_SEEN && !self.seen.has(&fp.text()) {
            self.seen.clear();
        }
        let ghost kept = self.seen@;
        let mut routes = match self.seen.remove(&fp.text()) {
            Some(s) => s.routes,
            None => Routes::new(),
        };
        routes.set(transport, addr);
        // Newest answer wins: names and `pair=` both change.
        self.seen.insert(fp.text(), Sighting { routes, name, pairing });
        assert(self@.seen =~= old(self)@.sight(fp@, transport.0, name@, addr@, pairing).seen);
    }

    pub(crate) fn on_discovered(
        &mut self,
        now_ms: u64,
        transport: TransportId,
        peer: DiscoveredPeer,
        out: &mut Outcome,
    )
        requires
            old(self)@.clock_fits(now_ms),
        ensures
            (final(self)@, final(out)@) == old(self)@.discovered(
                now_ms,
                transport.0,
                match peer.fingerprint {
                    Some(fp) => Some(fp@),
                    None => None,
                },
                peer.name@,
                peer.addr@,
                peer.pairing,
                old(out)@,
            ),
    {
        let DiscoveredPeer { fingerprint, name, addr, pairing } = peer;
        match fingerprint {
            Some(fp) => {
                self.sight(&fp, transport, name, addr.clone(), pairing);
                match self.peer_with(&fp) {
                    Some(id) => {
                        self.note_addr(&id, transport, addr);
                        // Dial a paired peer the moment it is sighted; a peer
                        // already reachable is skipped, so a better transport
                        // only wins once the current session ends.
                        self.connect_peer(now_ms, id, out, false);
                    },
                    None => {
                        // Announce the best route, not the one that just
                        // arrived: Bluetooth repeats, and would replace a
                        // working Wi-Fi address on screen.
                        self.announce(&fp, out);
                    },
                }
            },
            None => {},
        }
    }

    /// The fingerprints of all machines seen, in order.
    fn seen_fps(&self) -> (r: Vec<String>)
        ensures
            crate::text::texts(r@) == ascending::<String>(self@.seen.dom()),
            sorted::<String>(crate::text::texts(r@)),
            crate::text::texts(r@).to_set() == self@.seen.dom(),
    {
        let mut out: Vec<String> = Vec::new();
        let n = self.seen.len();
        for i in 0..n
            invariant
                n == self.seen.keys().len(),
                out.len() == i,
                forall|k: int| 0 <= k < i ==> (#[trigger] out@[k])@ == self.seen.keys()[k],
        {
            out.push(self.seen.key_at(i).clone());
        }
        let _ = self.seen.len();
        assert(crate::text::texts(out@) =~= self.seen.keys());
        out
    }

    /// Forgets one address of every machine seen; the machines that have none
    /// left go.
    fn forget_address(&mut self, transport: TransportId, addr: &str) -> (gone: Vec<String>)
        ensures
            crate::text::texts(gone@) == old(self)@.vanished(transport.0, addr@),
            final(self)@ == old(self)@.undiscovered(transport.0, addr@, Seq::empty()).0,
    {
        let ghost start = self@;
        let fps = self.seen_fps();
        let ghost keys = crate::text::texts(fps@);
        let ghost gone_if = |fp: Seq<char>| start.vanishes(fp, transport.0, addr@);
        let mut gone: Vec<String> = Vec::new();
        proof {
            reveal(Seq::filter);
            assert(keys.take(0) =~= Seq::empty());
            assert(crate::text::texts(gone@) =~= keys.take(0).filter(gone_if));
            assert(self@.seen =~= partly(start, keys.take(0), transport.0, addr@));
        }
        for i in 0..fps.len()
            invariant
                keys == crate::text::texts(fps@),
                sorted::<String>(keys),
                keys.to_set() == start.seen.dom(),
                gone_if == (|fp: Seq<char>| start.vanishes(fp, transport.0, addr@)),
                crate::text::texts(gone@) == keys.take(i as int).filter(gone_if),
                self@ == (State {
                    seen: partly(start, keys.take(i as int), transport.0, addr@),
                    ..start
                }),
        {
            let ghost fp = keys[i as int];
            let ghost done = keys.take(i as int);
            let ghost more = keys.take(i + 1);
            proof {
                reveal(Seq::filter);
                assert(more.drop_last() =~= done);
                assert(more.last() == fp);
                assert(keys.to_set().contains(fp));
                assert(!done.contains(fp)) by {
                    if done.contains(fp) {
                        let j = choose|j: int| 0 <= j < done.len() && done[j] == fp;
                        assert(crate::text::before(keys[j], keys[i as int]));
                        crate::text::before_irreflexive(fp);
                    }
                }
                assert forall|x: Seq<char>| more.contains(x) <==> done.contains(x) || x == fp by {
                    if done.contains(x) {
                        let j = choose|j: int| 0 <= j < done.len() && done[j] == x;
                        assert(more[j] == x);
                    }
                    assert(more[i as int] == fp);
                    if more.contains(x) && x != fp {
                        let j = choose|j: int| 0 <= j < more.len() && more[j] == x;
                        assert(done[j] == x);
                    }
                }
            }
            match self.seen.remove(&fps[i]) {
                Some(s) => {
                    let Sighting { routes, name, pairing } = s;
                    let mut routes = routes;
                    if routes.forget(transport, addr) && routes.is_empty() {
                        let ghost before = gone@;
                        gone.push(fps[i].clone());
                        assert(crate::text::texts(gone@) =~= crate::text::texts(before).push(fp));
                    } else {
                        self.seen.insert(fps[i].clone(), Sighting { routes, name, pairing });
                    }
                    assert(self@.seen =~= partly(start, more, transport.0, addr@));
                },
                None => {},
            }
        }
        proof {
            assert(keys.take(keys.len() as int) =~= keys);
            assert(keys =~= ascending::<String>(start.seen.dom()));
            assert(self@.seen =~= start.undiscovered(transport.0, addr@, Seq::empty()).0.seen);
        }
        gone
    }

    pub(crate) fn on_undiscovered(&mut self, transport: TransportId, addr: &str, out: &mut Outcome)
        ensures
            (final(self)@, final(out)@) == old(self)@.undiscovered(
                transport.0,
                addr@,
                old(out)@,
            ),
    {
        // Clears `seen`, never `addrs`: a lapsed mDNS record does not
        // mean a paired peer's last-known address stopped working.
        let ghost start = self@;
        let gone = self.forget_address(transport, addr);
        let ghost list = crate::text::texts(gone@);
        for i in 0..gone.len()
            invariant
                list == crate::text::texts(gone@),
                start.peers == self@.peers,
                out@ == start.withdraw(list, i as int, old(out)@),
        {
            assert(list[i as int] == gone@[i as int]@);
            let fp = Fingerprint::new(gone[i].clone());
            // Said only for machines that were offered; a paired peer
            // never was.
            if self.peer_with(&fp).is_none() {
                out.ui(UiEvent::Undiscovered { fingerprint: fp });
            }
        }
    }

    pub(crate) fn set_peer_address(
        &mut self,
        peer: &DeviceId,
        transport: TransportId,
        addr: String,
        out: &mut Outcome,
    )
        ensures
            (final(self)@, final(out)@) == old(self)@.set_peer_address(
                peer@,
                transport.0,
                addr@,
                old(out)@,
            ),
    {
        if self.peers.has(&peer.text()) {
            self.note_addr(peer, transport, addr);
        } else {
            out.ui(
                UiEvent::Error {
                    peer: Some(peer.clone()),
                    code: ErrorCode::NotPaired,
                    detail: join2(peer.as_str(), " is not a paired device"),
                },
            );
        }
    }

    pub(crate) fn forget_peer_address(
        &mut self,
        peer: &DeviceId,
        transport: TransportId,
        addr: &str,
    )
        ensures
            final(self)@ == old(self)@.forget_peer_address(peer@, transport.0, addr@),
    {
        match self.addrs.remove(&peer.text()) {
            Some(mut routes) => {
                let gone = routes.forget(transport, addr);
                if !gone || !routes.is_empty() {
                    self.addrs.insert(peer.text(), routes);
                }
                assert(self@.addrs =~= old(self)@.forget_peer_address(
                    peer@,
                    transport.0,
                    addr@,
                ).addrs);
            },
            None => {
                assert(self@.addrs =~= old(self)@.addrs);
            },
        }
    }
}

/// The machines seen when the address has been withdrawn from some of them.
spec fn partly<W: Wire>(s: State<W>, done: Seq<Seq<char>>, transport: u16, addr: Seq<char>) -> Map<
    Seq<char>,
    SightingV,
> {
    Map::new(
        |fp: Seq<char>|
            s.seen.dom().contains(fp) && !(done.contains(fp) && s.vanishes(fp, transport, addr)),
        |fp: Seq<char>|
            if done.contains(fp) {
                s.unsight(fp, transport, addr)
            } else {
                s.seen[fp]
            },
    )
}

} // verus!
