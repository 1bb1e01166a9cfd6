//! What the core remembers, as the contracts see it, and the steps it takes.
//!
//! Every step is a function from the state and what had been put out so far to
//! the next state and what has been put out then. Where a step needs something
//! that only a cipher, the wire format or a plugin can say, that answer is one of
//! its arguments.
use crate::link::{in_preference, BulkSupport, LinkAttrs, ReasonView, TransportKind};
use crate::noise::{no_psk, Handshake, Mode, SessionView};
use crate::peer::{record_bytes, PeerState, RecordView};
use crate::plugin::{
    after, sooner, BulkView, CxView, FaultView, ManifestView, Plugin, Registered, SendView, Told,
};
use crate::table::ascending;
use crate::text::decimal;
use crate::vocab::{ActionView, EffectSet, EffectView, Sensitivity, UiView};
use crate::wire::{
    envelope_written, hello_written, joins, shared, transfer_key, EnvelopeView, ErrorCode,
    FrameKind, HelloView, Wire, WIRE_VERSION,
};
use vstd::prelude::*;

verus! {

/// Cap on remembered unpaired sightings, so the map cannot leak on a
/// long-running daemon.
pub const MAX_SEEN: usize = 256;

/// How long to hold a bulk listener open for a sender that never dials;
/// cleared by `Event::BulkStarted`, so it bounds the wait, not the transfer.
pub const BULK_DIAL_WAIT_MS: u64 = 30_000;

/// What has been put out so far.
pub type Out = Seq<ActionView>;

/// A paired peer.
pub struct PeerV {
    pub record: RecordView,
    pub fingerprint: Seq<char>,
}

/// A dial in flight: target, routes not yet tried, whether a person asked.
pub struct DialV {
    pub peer: Seq<char>,
    pub routes: Seq<(u16, Seq<char>)>,
    pub by_hand: bool,
}

/// An established link.
pub struct UpV {
    pub session: SessionView,
    pub peer: Seq<char>,
    pub handshake_hash: Seq<u8>,
    pub bulk: BulkSupport,
    pub max_message: u32,
    pub last_recv_ms: u64,
    pub transport: u16,
    pub kind: TransportKind,
    pub can_send: Seq<Seq<char>>,
    pub can_recv: Seq<Seq<char>>,
}

/// A link on its way to a session.
pub struct ShakingV {
    pub hs: Handshake,
    pub attrs: LinkAttrs,
    pub deadline: u64,
    pub expect: Option<Seq<char>>,
    pub pairing_flow: bool,
    pub via: Option<(u16, Seq<char>)>,
    pub fallback: Option<DialV>,
}

/// A link.
pub enum LinkV {
    Pending { attrs: LinkAttrs, deadline: u64 },
    Handshaking(ShakingV),
    Up(UpV),
}

/// A pairing handshake that finished and is waiting on a human.
pub struct AwaitV {
    pub link: u64,
    pub id: Seq<char>,
    pub record: RecordView,
    pub fingerprint: Seq<char>,
    pub sas: Seq<char>,
    pub via: Option<(u16, Seq<char>)>,
}

/// A pairing in flight.
pub struct WindowV {
    pub deadline: u64,
    pub awaiting: Option<AwaitV>,
}

/// A machine discovery has shown us.
pub struct SightingV {
    pub routes: Map<u16, Seq<char>>,
    pub name: Seq<char>,
    pub pairing: bool,
}

/// The tunables.
pub struct ConfigV {
    pub name: Seq<char>,
    pub platform: Seq<char>,
    pub pairing_window_ms: u64,
    pub accept_pair_requests: bool,
    pub pair_cooldown_ms: u64,
    pub pair_denied_cooldown_ms: u64,
    pub reconnect_every_ms: u64,
    pub handshake_timeout_ms: u64,
    pub dial_timeout_ms: u64,
}

/// All that the core remembers.
pub struct State<W: Wire> {
    /// Where the wire format's own computations are asked for.
    pub wire: W,
    /// The private half of this device's identity.
    pub own_secret: Seq<u8>,
    /// The public half of this device's identity, and what it is known by.
    pub own_key: Seq<u8>,
    pub own_id: Seq<char>,
    pub own_fp: Seq<char>,
    pub config: ConfigV,
    pub peers: Map<Seq<char>, PeerV>,
    pub links: Map<u64, LinkV>,
    pub addrs: Map<Seq<char>, Map<u16, Seq<char>>>,
    pub seen: Map<Seq<char>, SightingV>,
    pub pairing: Option<WindowV>,
    pub pair_quiet_until: u64,
    pub pair_dials: Map<u64, (u16, Seq<char>)>,
    pub peer_dials: Map<u64, (u64, DialV)>,
    pub dial_trouble: Map<Seq<char>, Seq<char>>,
    pub reconnect_at: Option<u64>,
    pub plugins: Seq<Registered>,
    pub manifests: Seq<ManifestView>,
    pub effect_owner: Map<u64, usize>,
    pub bulk_owner: Map<u64, usize>,
    pub next_transfer: u64,
    pub bulk_wait: Map<u64, u64>,
    pub caps_out: Seq<Seq<char>>,
    pub caps_in: Seq<Seq<char>>,
    pub caps_served: Seq<Seq<char>>,
    pub serves: EffectSet,
    pub next_token: u64,
    pub next_dial: u64,
    pub next_msg_id: u32,
    pub wall_ms: u64,
    pub plugin_wake: Option<u64>,
}

/// A line for the screen.
pub open spec fn ui(out: Out, e: UiView) -> Out {
    out.push(ActionView::Ui(e))
}

/// An error for the screen.
pub open spec fn error(
    out: Out,
    peer: Option<Seq<char>>,
    code: ErrorCode,
    detail: Seq<char>,
) -> Out {
    ui(out, UiView::Error { peer, code, detail })
}

/// Keeping a record under the peer's name.
pub open spec fn keep(out: Out, r: RecordView) -> Out {
    out.push(
        ActionView::Persist {
            key: "peer/"@ + r.device_id,
            value: Some(record_bytes(r)),
            sensitivity: Sensitivity::Secret,
        },
    )
}

/// The number after `n`; the counter starts over when it is used up.
pub open spec fn after32(n: u32) -> u32 {
    if n == u32::MAX {
        0
    } else {
        (n + 1) as u32
    }
}

// ------------------------------------------------------------------ which link

/// Whether link `a` is a better way to a peer than link `b`: heard from later,
/// or as late and on a lower transport number, or all that and the newer link.
pub open spec fn better(a: u64, x: UpV, b: u64, y: UpV) -> bool {
    ||| x.last_recv_ms > y.last_recv_ms
    ||| x.last_recv_ms == y.last_recv_ms && x.transport < y.transport
    ||| x.last_recv_ms == y.last_recv_ms && x.transport == y.transport && a > b
}

/// Whether a link is an established one to `peer`.
pub open spec fn carries(links: Map<u64, LinkV>, link: u64, peer: Seq<char>) -> bool {
    links.dom().contains(link) && (links[link] matches LinkV::Up(u) && u.peer == peer)
}

/// Whether a link carries to `peer` and none carries better.
pub open spec fn is_best(links: Map<u64, LinkV>, link: u64, peer: Seq<char>) -> bool {
    &&& carries(links, link, peer)
    &&& forall|l: u64|
        #[trigger] carries(links, l, peer) ==> l == link || better(
            link,
            links[link]->Up_0,
            l,
            links[l]->Up_0,
        )
}

/// The link a message to this peer would take.
pub open spec fn best(links: Map<u64, LinkV>, peer: Seq<char>) -> Option<u64> {
    if exists|l: u64| is_best(links, l, peer) {
        Some(choose|l: u64| is_best(links, l, peer))
    } else {
        None
    }
}

/// The established links that can open a side channel for files.
pub open spec fn able(links: Map<u64, LinkV>) -> Map<u64, LinkV> {
    links.restrict(
        Set::new(
            |l: u64|
                links.dom().contains(l) && (links[l] matches LinkV::Up(u) && u.bulk
                    == BulkSupport::SideChannel),
        ),
    )
}

/// No two links are both the best.
pub proof fn best_is_unique(links: Map<u64, LinkV>, a: u64, b: u64, peer: Seq<char>)
    requires
        is_best(links, a, peer),
        is_best(links, b, peer),
    ensures
        a == b,
{
    assert(carries(links, a, peer));
    assert(carries(links, b, peer));
}

/// A text that stands for nothing known.
pub open spec fn nowhere() -> Seq<char> {
    "Device is asleep or unreachable. It might be off or on another network."@
}

// --------------------------------------------------------------------- answers

/// What came of building a handshake and writing its first message: the message
/// to send and the handshake then, or the words of what failed.
pub enum Said {
    Message(Seq<u8>, Handshake),
    Failed(Seq<char>),
}

/// What came of answering a pairing opener.
pub enum Greeted {
    /// The opener did not read.
    Unread,
    /// The answer could not be written.
    Unsaid(Seq<char>),
    /// The answer, and the handshake then.
    Answered(Seq<u8>, Handshake),
}

/// A hello that decoded, and whether it is fresh: the new watermark, or why not.
pub struct HeardV {
    pub name: Seq<char>,
    pub platform: Seq<char>,
    pub caps_out: Seq<Seq<char>>,
    pub caps_in: Seq<Seq<char>>,
    pub fresh: Result<u64, Seq<char>>,
}

/// What came of sealing a message.
pub enum Sealed {
    /// The envelope could not be written.
    Unwritten,
    /// The cipher refused.
    Failed(Seq<char>),
    /// The framed ciphertext.
    Message(Seq<u8>),
}

impl<W: Wire> State<W> {
    // ------------------------------------------------------------------ asking

    /// Whether some paired peer has this fingerprint.
    pub open spec fn paired(self, fp: Seq<char>) -> bool {
        exists|id: Seq<char>|
            #[trigger] self.peers.dom().contains(id) && self.peers[id].fingerprint == fp
    }

    /// The first peer, in the order of ids, with this fingerprint.
    pub open spec fn peer_with(self, fp: Seq<char>) -> Option<Seq<char>> {
        first_with(self.peers, ascending::<String>(self.peers.dom()), fp, self.peers.dom().len() as int)
    }

    /// Whether a peer can be reached: it can where a session with it is up, on
    /// whatever link, and it is being reached where a handshake or a dial is under
    /// way.
    pub open spec fn peer_state(self, peer: Seq<char>) -> PeerState {
        if best(self.links, peer) is Some {
            PeerState::Reachable
        } else if self.shaking(peer) || self.dialling(peer) {
            PeerState::Connecting
        } else {
            PeerState::Unreachable
        }
    }

    /// Whether a handshake that expects this peer is under way.
    pub open spec fn shaking(self, peer: Seq<char>) -> bool {
        exists|l: u64|
            #[trigger] self.links.dom().contains(l) && (self.links[l] matches LinkV::Handshaking(h)
                && h.expect == Some(peer))
    }

    /// Whether a dial to this peer is in flight.
    pub open spec fn dialling(self, peer: Seq<char>) -> bool {
        exists|d: u64| #[trigger] self.peer_dials.dom().contains(d) && self.peer_dials[d].1.peer == peer
    }

    /// The name a peer goes by; empty for one that is not known.
    pub open spec fn name_of(self, peer: Seq<char>) -> Seq<char> {
        if self.peers.dom().contains(peer) {
            self.peers[peer].record.name
        } else {
            Seq::empty()
        }
    }

    /// Whether files can get to a peer: one link that can carry them is enough,
    /// even where a message would take another.
    pub open spec fn bulk_for(self, peer: Seq<char>) -> Option<BulkSupport> {
        if best(able(self.links), peer) is Some {
            Some(BulkSupport::SideChannel)
        } else {
            match best(self.links, peer) {
                Some(l) => Some(self.links[l]->Up_0.bulk),
                None => None,
            }
        }
    }

    /// Why a pairing handshake will not be answered, or `None` to answer it.
    pub open spec fn why_not_pair(self, now: u64) -> Option<Seq<char>> {
        if !self.config.accept_pair_requests {
            Some("this device is not accepting pairing requests"@)
        } else {
            match self.pairing {
                Some(w) => if w.awaiting is Some {
                    Some("already confirming a pairing with somebody else"@)
                } else {
                    Some("a pairing is already in progress"@)
                },
                None => if now < self.pair_quiet_until {
                    Some("too soon after the last pairing attempt"@)
                } else {
                    None
                },
            }
        }
    }

    /// The records of every paired device, in the order of ids.
    pub open spec fn records(self) -> Seq<RecordView> {
        crate::table::ascending::<String>(self.peers.dom()).map_values(
            |id: Seq<char>| self.peers[id].record,
        )
    }

    /// Whether every deadline counted from `now` fits the clock.
    pub open spec fn clock_fits(self, now: u64) -> bool {
        &&& now + self.config.pairing_window_ms <= u64::MAX
        &&& now + self.config.pair_cooldown_ms <= u64::MAX
        &&& now + self.config.pair_denied_cooldown_ms <= u64::MAX
        &&& now + self.config.reconnect_every_ms <= u64::MAX
        &&& now + self.config.handshake_timeout_ms <= u64::MAX
        &&& now + self.config.dial_timeout_ms <= u64::MAX
        &&& now + BULK_DIAL_WAIT_MS <= u64::MAX
    }

    /// Every moment at which something falls due.
    pub open spec fn due(self, d: u64) -> bool {
        ||| self.plugin_wake == Some(d)
        ||| self.reconnect_at == Some(d)
        ||| exists|k: u64| #[trigger] self.peer_dials.dom().contains(k) && self.peer_dials[k].0 == d
        ||| self.pairing matches Some(w) && w.deadline == d
        ||| exists|k: u64| #[trigger] self.bulk_wait.dom().contains(k) && self.bulk_wait[k] == d
        ||| exists|k: u64|
            #[trigger] self.links.dom().contains(k) && link_deadline(self.links[k]) == Some(d)
    }

    /// The moment the host has to wake the core: the first of those due.
    pub open spec fn is_next_deadline(self, r: Option<u64>) -> bool {
        match r {
            Some(d) => self.due(d) && forall|x: u64| #[trigger] self.due(x) ==> d <= x,
            None => forall|x: u64| !#[trigger] self.due(x),
        }
    }

    // ------------------------------------------------------------- small steps

    /// Offers a machine that discovery has seen and that is not paired.
    pub open spec fn announce(self, fp: Seq<char>, out: Out) -> Out {
        if self.seen.dom().contains(fp) && in_preference(self.seen[fp].routes).len() > 0
            && !self.paired(fp) {
            let s = self.seen[fp];
            let r = in_preference(s.routes)[0];
            ui(
                out,
                UiView::Discovered {
                    fingerprint: fp,
                    name: s.name,
                    addr: r.1,
                    transport: r.0,
                    pairing: s.pairing,
                },
            )
        } else {
            out
        }
    }

    /// Claims the pairing slot.
    pub open spec fn begin_pairing(self, now: u64) -> State<W> {
        State {
            pairing: Some(
                WindowV { deadline: (now + self.config.pairing_window_ms) as u64, awaiting: None },
            ),
            ..self
        }
    }

    /// Gives the pairing slot back and goes quiet.
    pub open spec fn end_pairing(self, now: u64, denied: bool) -> State<W> {
        State {
            pairing: None,
            pair_quiet_until: (now + if denied {
                self.config.pair_denied_cooldown_ms
            } else {
                self.config.pair_cooldown_ms
            }) as u64,
            ..self
        }
    }

    /// Drops a link and says why.
    pub open spec fn fail_link(self, link: u64, detail: Seq<char>, out: Out) -> (State<W>, Out) {
        let peer = if self.links.dom().contains(link) {
            match self.links[link] {
                LinkV::Up(u) => Some(u.peer),
                _ => None,
            }
        } else {
            None
        };
        let out = out.push(
            ActionView::Close { link, reason: ReasonView::Protocol(ErrorCode::NotAllowed) },
        );
        (
            State { links: self.links.remove(link), ..self },
            error(out, peer, ErrorCode::NotAllowed, detail),
        )
    }

    /// A pairing handshake that could not be completed.
    pub open spec fn pairing_attempt_failed(
        self,
        now: u64,
        link: u64,
        out: Out,
    ) -> (State<W>, Out) {
        let (s, out) = self.fail_link(link, "pairing handshake failed"@, out);
        (
            s.end_pairing(now, false),
            ui(out, UiView::PairingFailed { reason: "the pairing handshake failed"@ }),
        )
    }

    /// Starts a dial to a peer.
    pub open spec fn dial(
        self,
        now: u64,
        route: (u16, Seq<char>),
        rest: DialV,
        out: Out,
    ) -> (State<W>, Out) {
        let d = after(self.next_dial);
        (
            State {
                next_dial: d,
                peer_dials: self.peer_dials.insert(
                    d,
                    ((now + self.config.dial_timeout_ms) as u64, rest),
                ),
                ..self
            },
            out.push(ActionView::Dial { transport: route.0, addr: route.1, dial: d }),
        )
    }

    /// Tries the next address for a peer, or records that it cannot be reached.
    pub open spec fn try_next_route(self, now: u64, p: DialV, why: Seq<char>, out: Out) -> (
        State<W>,
        Out,
    ) {
        if best(self.links, p.peer) is Some {
            (self, out)
        } else if p.routes.len() == 0 {
            (
                State { dial_trouble: self.dial_trouble.insert(p.peer, why), ..self },
                if p.by_hand {
                    ui(out, UiView::PeerUnreachable { peer: p.peer })
                } else {
                    out
                },
            )
        } else {
            self.dial(now, p.routes[0], DialV { routes: p.routes.remove(0), ..p }, out)
        }
    }

    /// Makes an attempt already under way count as one a person asked for.
    pub open spec fn adopt_attempt(self, peer: Seq<char>) -> State<W> {
        State {
            peer_dials: self.peer_dials.map_values(
                |v: (u64, DialV)|
                    if v.1.peer == peer {
                        (v.0, DialV { by_hand: true, ..v.1 })
                    } else {
                        v
                    },
            ),
            links: self.links.map_values(|l: LinkV| adopted(l, peer)),
            ..self
        }
    }

    /// Every address known for a peer, best first: what last worked, else what
    /// discovery has shown.
    pub open spec fn routes_to(self, peer: Seq<char>) -> Seq<(u16, Seq<char>)> {
        if self.addrs.dom().contains(peer) {
            in_preference(self.addrs[peer])
        } else if self.peers.dom().contains(peer) && self.seen.dom().contains(
            self.peers[peer].fingerprint,
        ) {
            in_preference(self.seen[self.peers[peer].fingerprint].routes)
        } else {
            Seq::empty()
        }
    }

    /// The transport of the best link to a peer.
    pub open spec fn best_transport(self, peer: Seq<char>) -> Option<u16> {
        match best(self.links, peer) {
            Some(l) => Some(self.links[l]->Up_0.transport),
            None => None,
        }
    }

    /// Whether a transport is worth dialling beside the one that carries a peer: it
    /// is better than that one, and than every handshake with the peer that is under
    /// way, which may be the better attempt itself.
    pub open spec fn worth_dialling(self, peer: Seq<char>, current: u16, transport: u16) -> bool {
        &&& transport < current
        &&& forall|l: u64| #[trigger]
            self.links.dom().contains(l) && (self.links[l] matches LinkV::Handshaking(h) && h.expect
                == Some(peer)) ==> transport < self.links[l]->Handshaking_0.attrs.transport.0
    }

    /// Dials the first of some routes, or says that there is none.
    pub open spec fn dial_first(
        self,
        now: u64,
        peer: Seq<char>,
        routes: Seq<(u16, Seq<char>)>,
        by_hand: bool,
        out: Out,
    ) -> (State<W>, Out) {
        if routes.len() > 0 {
            self.dial(now, routes[0], DialV { peer, routes: routes.remove(0), by_hand }, out)
        } else {
            let s = State { dial_trouble: self.dial_trouble.insert(peer, nowhere()), ..self };
            if by_hand {
                let detail = "no address known for "@ + peer + ". "@ + nowhere();
                let out = error(out, Some(peer), ErrorCode::NotAllowed, detail);
                (s, ui(out, UiView::PeerUnreachable { peer }))
            } else {
                (s, out)
            }
        }
    }

    /// Tries to reach a peer.
    pub open spec fn connect_peer(self, now: u64, peer: Seq<char>, by_hand: bool, out: Out) -> (
        State<W>,
        Out,
    ) {
        if !by_hand && self.dialling(peer) {
            (self, out)
        } else {
            let routes = self.routes_to(peer);
            match self.peer_state(peer) {
                PeerState::Unreachable => self.dial_first(now, peer, routes, by_hand, out),
                PeerState::Connecting => if by_hand {
                    (self.adopt_attempt(peer), out)
                } else {
                    (self, out)
                },
                PeerState::Reachable => if by_hand {
                    (self, ui(out, UiView::PeerReachable { peer, name: self.name_of(peer) }))
                } else {
                    match self.best_transport(peer) {
                        None => (self, out),
                        Some(current) => {
                            let better = routes.filter(
                                |r: (u16, Seq<char>)| self.worth_dialling(peer, current, r.0),
                            );
                            if better.len() == 0 {
                                (self, out)
                            } else {
                                self.dial_first(now, peer, better, by_hand, out)
                            }
                        },
                    }
                },
            }
        }
    }

    /// Tries to reach each of some peers, unasked.
    pub open spec fn connect_all(self, now: u64, peers: Seq<Seq<char>>, n: int, out: Out) -> (
        State<W>,
        Out,
    )
        decreases n,
    {
        if n <= 0 {
            (self, out)
        } else {
            let (s, out) = self.connect_all(now, peers, n - 1, out);
            s.connect_peer(now, peers[n - 1], false, out)
        }
    }

    // ------------------------------------------------------------------ events

    /// A dial failed before any link existed.
    pub open spec fn dial_failed(self, now: u64, dial: u64, reason: Seq<char>, out: Out) -> (
        State<W>,
        Out,
    ) {
        if self.pair_dials.dom().contains(dial) {
            (
                State { pair_dials: self.pair_dials.remove(dial), pairing: None, ..self },
                ui(out, UiView::PairingFailed { reason }),
            )
        } else if self.peer_dials.dom().contains(dial) {
            let p = self.peer_dials[dial].1;
            State { peer_dials: self.peer_dials.remove(dial), ..self }.try_next_route(
                now,
                p,
                reason,
                out,
            )
        } else {
            (self, out)
        }
    }

    /// Notes what discovery saw of a machine.
    pub open spec fn sight(
        self,
        fp: Seq<char>,
        transport: u16,
        name: Seq<char>,
        addr: Seq<char>,
        pairing: bool,
    ) -> State<W> {
        let seen = if self.seen.dom().len() >= MAX_SEEN && !self.seen.dom().contains(fp) {
            Map::empty()
        } else {
            self.seen
        };
        let before = if seen.dom().contains(fp) {
            seen[fp].routes
        } else {
            Map::empty()
        };
        State {
            seen: seen.insert(
                fp,
                SightingV { routes: before.insert(transport, addr), name, pairing },
            ),
            ..self
        }
    }

    /// Notes an address for a peer.
    pub open spec fn note_addr(self, id: Seq<char>, transport: u16, addr: Seq<char>) -> State<W> {
        let before = if self.addrs.dom().contains(id) {
            self.addrs[id]
        } else {
            Map::empty()
        };
        State { addrs: self.addrs.insert(id, before.insert(transport, addr)), ..self }
    }

    /// Discovery saw a machine.
    pub open spec fn discovered(
        self,
        now: u64,
        transport: u16,
        fp: Option<Seq<char>>,
        name: Seq<char>,
        addr: Seq<char>,
        pairing: bool,
        out: Out,
    ) -> (State<W>, Out) {
        match fp {
            None => (self, out),
            Some(fp) => {
                let s = self.sight(fp, transport, name, addr, pairing);
                match s.peer_with(fp) {
                    Some(id) => s.note_addr(id, transport, addr).connect_peer(now, id, false, out),
                    None => (s, s.announce(fp, out)),
                }
            },
        }
    }

    /// A sighting without one address.
    pub open spec fn unsight(self, fp: Seq<char>, transport: u16, addr: Seq<char>) -> SightingV {
        let s = self.seen[fp];
        if s.routes.dom().contains(transport) && s.routes[transport] == addr {
            SightingV { routes: s.routes.remove(transport), ..s }
        } else {
            s
        }
    }

    /// Whether withdrawing one address leaves nothing of a sighting.
    pub open spec fn vanishes(self, fp: Seq<char>, transport: u16, addr: Seq<char>) -> bool {
        let s = self.seen[fp];
        s.routes.dom().contains(transport) && s.routes[transport] == addr && s.routes.remove(
            transport,
        ) == Map::<u16, Seq<char>>::empty()
    }

    /// The machines that a withdrawal leaves without any address, in order.
    pub open spec fn vanished(self, transport: u16, addr: Seq<char>) -> Seq<Seq<char>> {
        ascending::<String>(self.seen.dom()).filter(
            |fp: Seq<char>| self.vanishes(fp, transport, addr),
        )
    }

    /// Says that machines which were offered are gone.
    pub open spec fn withdraw(self, gone: Seq<Seq<char>>, n: int, out: Out) -> Out
        decreases n,
    {
        if n <= 0 {
            out
        } else {
            let out = self.withdraw(gone, n - 1, out);
            if self.paired(gone[n - 1]) {
                out
            } else {
                ui(out, UiView::Undiscovered { fingerprint: gone[n - 1] })
            }
        }
    }

    /// Discovery lost an address.
    pub open spec fn undiscovered(
        self,
        transport: u16,
        addr: Seq<char>,
        out: Out,
    ) -> (State<W>, Out) {
        let gone = self.vanished(transport, addr);
        let seen = Map::new(
            |fp: Seq<char>| self.seen.dom().contains(fp) && !self.vanishes(fp, transport, addr),
            |fp: Seq<char>| self.unsight(fp, transport, addr),
        );
        (State { seen, ..self }, self.withdraw(gone, gone.len() as int, out))
    }

    /// A handshake's message goes out on a link, which waits for the next.
    pub open spec fn shaken_on(self, link: u64, h: ShakingV, msg: Seq<u8>, out: Out) -> (
        State<W>,
        Out,
    ) {
        (
            State { links: self.links.insert(link, LinkV::Handshaking(h)), ..self },
            out.push(ActionView::LinkSend { link, msg }),
        )
    }

    /// A link came up that we dialled to pair.
    pub open spec fn pair_link_up(
        self,
        now: u64,
        link: u64,
        attrs: LinkAttrs,
        dial: u64,
        said: Said,
        out: Out,
    ) -> (State<W>, Out) {
        let s = State { pair_dials: self.pair_dials.remove(dial), ..self };
        match said {
            Said::Failed(words) => s.fail_link(link, words, out),
            Said::Message(msg, hs) => s.shaken_on(
                link,
                ShakingV {
                    hs,
                    attrs,
                    deadline: (now + self.config.handshake_timeout_ms) as u64,
                    expect: None,
                    pairing_flow: true,
                    via: Some(self.pair_dials[dial]),
                    fallback: None,
                },
                msg,
                out,
            ),
        }
    }

    /// A link came up that we dialled to reach a known peer.
    pub open spec fn session_link_up(
        self,
        now: u64,
        link: u64,
        attrs: LinkAttrs,
        dial: u64,
        said: Said,
        out: Out,
    ) -> (State<W>, Out) {
        session_started(
            State { peer_dials: self.peer_dials.remove(dial), ..self },
            link,
            attrs,
            (now + self.config.handshake_timeout_ms) as u64,
            self.peer_dials[dial].1,
            said,
            out,
        )
    }

    /// A link came up. `said` is what came of opening a handshake on it, where
    /// one is opened.
    pub open spec fn link_up(
        self,
        now: u64,
        link: u64,
        attrs: LinkAttrs,
        dial: Option<u64>,
        said: Said,
        out: Out,
    ) -> (State<W>, Out) {
        if dial is Some && self.pair_dials.dom().contains(dial->Some_0) {
            self.pair_link_up(now, link, attrs, dial->Some_0, said, out)
        } else if dial is Some && self.peer_dials.dom().contains(dial->Some_0) {
            self.session_link_up(now, link, attrs, dial->Some_0, said, out)
        } else {
            (
                State {
                    links: self.links.insert(
                        link,
                        LinkV::Pending {
                            attrs,
                            deadline: (now + self.config.handshake_timeout_ms) as u64,
                        },
                    ),
                    ..self
                },
                out,
            )
        }
    }

    /// What this device says about itself in a handshake.
    pub open spec fn hello(self) -> HelloView {
        HelloView {
            v: WIRE_VERSION,
            ts_ms: self.wall_ms,
            device_id: self.own_id,
            name: self.config.name,
            platform: self.config.platform,
            caps_out: self.caps_out,
            caps_in: self.caps_in,
        }
    }

    /// Whether `msg` may be how a handshake's next message goes out that carries
    /// `payload`, and `after` the handshake then.
    pub open spec fn says(
        self,
        hs: Handshake,
        kind: FrameKind,
        payload: Seq<u8>,
        msg: Seq<u8>,
        after: Handshake,
    ) -> bool {
        exists|raw: Seq<u8>|
            #[trigger] hs.has_written(payload, raw, after) && joins(self.wire, kind, raw, msg)
    }

    /// Whether `msg` may be how a handshake's next message goes out that carries
    /// our hello.
    pub open spec fn says_hello(
        self,
        hs: Handshake,
        kind: FrameKind,
        msg: Seq<u8>,
        after: Handshake,
    ) -> bool {
        exists|payload: Seq<u8>|
            #[trigger] hello_written(self.wire, self.hello(), payload) && self.says(
                hs,
                kind,
                payload,
                msg,
                after,
            )
    }

    /// Whether a handshake's next message that carries our hello may not go out, for
    /// the reason in `words`.
    pub open spec fn keeps_hello(self, hs: Handshake, words: Seq<char>) -> bool {
        exists|payload: Seq<u8>|
            #[trigger] hello_written(self.wire, self.hello(), payload) && kept_back(
                hs,
                payload,
                words,
            )
    }

    /// Whether `said` may come of opening a pairing handshake. Its first message
    /// carries nothing of ours.
    pub open spec fn pair_said(self, said: Said) -> bool {
        exists|start: Handshake|
            #[trigger] start.starts(Mode::Pair, self.own_secret, no_psk(), None, true)
                && match said {
                Said::Message(msg, hs) => self.says(
                    start,
                    FrameKind::PairHandshake,
                    Seq::empty(),
                    msg,
                    hs,
                ),
                Said::Failed(words) => kept_back(start, Seq::empty(), words),
            }
    }

    /// Whether `said` may come of opening a session handshake with a peer: under
    /// the key and the secret of its record, and with our hello.
    pub open spec fn session_said(self, peer: Seq<char>, said: Said) -> bool {
        let r = self.peers[peer].record;
        exists|start: Handshake|
            #[trigger] start.starts(
                Mode::Session,
                self.own_secret,
                r.session_psk,
                Some(r.public_key),
                true,
            ) && match said {
                Said::Message(msg, hs) => self.says_hello(
                    start,
                    FrameKind::SessionHandshake,
                    msg,
                    hs,
                ),
                Said::Failed(words) => self.keeps_hello(start, words),
            }
    }

    /// Whether `said` may come of opening a handshake on a link that came up.
    pub open spec fn said_fits(self, dial: Option<u64>, said: Said) -> bool {
        if dial is Some && self.pair_dials.dom().contains(dial->Some_0) {
            self.pair_said(said)
        } else if dial is Some && self.peer_dials.dom().contains(dial->Some_0) {
            let peer = self.peer_dials[dial->Some_0].1.peer;
            self.can_open(peer) ==> self.session_said(peer, said)
        } else {
            true
        }
    }

    /// Whether a session handshake can be opened with a peer at all.
    pub open spec fn can_open(self, peer: Seq<char>) -> bool {
        &&& self.peers.dom().contains(peer)
        &&& self.peers[peer].record.public_key.len() == 32
        &&& self.peers[peer].record.session_psk.len() == 32
    }

    /// A pairing opener arrived on a link that had said nothing yet.
    pub open spec fn pair_opener(
        self,
        now: u64,
        link: u64,
        attrs: LinkAttrs,
        deadline: u64,
        greeted: Greeted,
        out: Out,
    ) -> (State<W>, Out) {
        match self.why_not_pair(now) {
            Some(why) => self.fail_link(link, why, out),
            None => match greeted {
                Greeted::Unread => State {
                    pair_quiet_until: (now + self.config.pair_cooldown_ms) as u64,
                    ..self
                }.fail_link(link, "malformed pairing handshake"@, out),
                Greeted::Unsaid(words) => self.fail_link(link, words, out),
                Greeted::Answered(msg, hs) => self.begin_pairing(now).shaken_on(
                    link,
                    ShakingV {
                        hs,
                        attrs,
                        deadline,
                        expect: None,
                        pairing_flow: true,
                        via: None,
                        fallback: None,
                    },
                    msg,
                    out,
                ),
            },
        }
    }

    /// Takes a peer's hello, or refuses it.
    pub open spec fn accept_hello(self, peer: Seq<char>, heard: Option<HeardV>, out: Out) -> (
        State<W>,
        Out,
        bool,
    ) {
        match heard {
            None => (
                self,
                error(
                    out,
                    Some(peer),
                    ErrorCode::BadBody,
                    "handshake payload did not decode"@,
                ),
                false,
            ),
            Some(h) => if !self.peers.dom().contains(peer) {
                (self, out, false)
            } else {
                match h.fresh {
                    Ok(mark) => {
                        let r = RecordView {
                            greatest_seen: mark,
                            name: h.name,
                            platform: h.platform,
                            caps_out: h.caps_out,
                            caps_in: h.caps_in,
                            ..self.peers[peer].record
                        };
                        (
                            State {
                                peers: self.peers.insert(
                                    peer,
                                    PeerV { record: r, ..self.peers[peer] },
                                ),
                                ..self
                            },
                            keep(out, r),
                            true,
                        )
                    },
                    Err(why) => (
                        self,
                        error(out, Some(peer), ErrorCode::NotAllowed, why),
                        false,
                    ),
                }
            },
        }
    }

    /// A session is up: the link is one of the peer's, and the screen is told.
    /// What the plugins then ask for follows separately.
    pub open spec fn session_up(
        self,
        now: u64,
        link: u64,
        attrs: LinkAttrs,
        peer: Seq<char>,
        hash: Seq<u8>,
        session: SessionView,
        out: Out,
    ) -> (State<W>, Out) {
        let r = self.peers[peer].record;
        (
            State {
                links: self.links.insert(
                    link,
                    LinkV::Up(
                        UpV {
                            session,
                            peer,
                            handshake_hash: hash,
                            bulk: attrs.bulk,
                            max_message: attrs.max_message,
                            last_recv_ms: now,
                            transport: attrs.transport.0,
                            kind: attrs.kind,
                            can_send: shared(self.caps_out, r.caps_in),
                            can_recv: shared(r.caps_out, self.caps_in),
                        },
                    ),
                ),
                dial_trouble: self.dial_trouble.remove(peer),
                ..self
            },
            ui(out, UiView::PeerReachable { peer, name: r.name }),
        )
    }

    /// A pairing handshake is complete: the digits go to the screen, and nothing
    /// is kept until a person agrees.
    pub open spec fn pairing_completed(
        self,
        now: u64,
        link: u64,
        attrs: LinkAttrs,
        deadline: u64,
        found: AwaitV,
        out: Out,
    ) -> (State<W>, Out) {
        let s = State {
            links: self.links.insert(link, LinkV::Pending { attrs, deadline }),
            ..self
        };
        match s.pairing {
            None => s.fail_link(link, "no pairing is in progress"@, out),
            Some(w) => if w.awaiting is Some {
                s.fail_link(link, "a confirmation is already waiting"@, out)
            } else {
                (
                    State {
                        pairing: Some(
                            WindowV {
                                deadline: (now + self.config.pairing_window_ms) as u64,
                                awaiting: Some(found),
                            },
                        ),
                        ..s
                    },
                    ui(
                        out,
                        UiView::PairingSas {
                            name: found.record.name,
                            fingerprint: found.fingerprint,
                            sas: found.sas,
                        },
                    ),
                )
            },
        }
    }

    /// A person answered the digits.
    pub open spec fn confirm_pairing(self, now: u64, accept: bool, out: Out) -> (State<W>, Out) {
        match self.pairing {
            None => (self, out),
            Some(w) => match w.awaiting {
                None => (self, out),
                Some(a) => if !accept {
                    let out = out.push(
                        ActionView::Close {
                            link: a.link,
                            reason: ReasonView::Protocol(ErrorCode::NotAllowed),
                        },
                    );
                    (
                        State { links: self.links.remove(a.link), ..self }.end_pairing(now, true),
                        ui(out, UiView::PairingFailed { reason: "the codes did not match"@ }),
                    )
                } else {
                    let out = keep(out, a.record);
                    let out = ui(
                        out,
                        UiView::PairingComplete { peer: a.id, name: a.record.name },
                    );
                    let out = out.push(
                        ActionView::Close { link: a.link, reason: ReasonView::Closed },
                    );
                    (
                        State {
                            addrs: self.addrs_after(a),
                            peers: self.peers.insert(
                                a.id,
                                PeerV { record: a.record, fingerprint: a.fingerprint },
                            ),
                            pairing: None,
                            links: self.links.remove(a.link),
                            reconnect_at: Some(0),
                            ..self
                        },
                        out,
                    )
                },
            },
        }
    }

    /// The addresses once a pairing is agreed to: the one just proved, or what
    /// discovery has shown.
    pub open spec fn addrs_after(self, a: AwaitV) -> Map<Seq<char>, Map<u16, Seq<char>>> {
        let before = if self.addrs.dom().contains(a.id) {
            self.addrs[a.id]
        } else {
            Map::empty()
        };
        match a.via {
            Some((transport, addr)) => self.addrs.insert(a.id, before.insert(transport, addr)),
            None => if self.seen.dom().contains(a.fingerprint) {
                self.addrs.insert(
                    a.id,
                    before.union_prefer_right(self.seen[a.fingerprint].routes),
                )
            } else {
                self.addrs
            },
        }
    }

    /// A link went down. For an established link that was the last one to its
    /// peer, what the plugins then ask for follows separately; the third part
    /// names that peer.
    pub open spec fn link_down(self, now: u64, link: u64, out: Out) -> (
        State<W>,
        Out,
        Option<Seq<char>>,
    ) {
        if !self.links.dom().contains(link) {
            (self, out, None)
        } else {
            let s = State { links: self.links.remove(link), ..self };
            match self.links[link] {
                LinkV::Pending { .. } => (s, out, None),
                LinkV::Handshaking(h) => {
                    let s = if h.pairing_flow {
                        State { pairing: None, ..s }
                    } else {
                        s
                    };
                    match h.fallback {
                        Some(p) => {
                            let (s, out) = s.try_next_route(
                                now,
                                p,
                                "connection closed before session was established"@,
                                out,
                            );
                            (s, out, None)
                        },
                        None => (s, out, None),
                    }
                },
                LinkV::Up(u) => if best(s.links, u.peer) is Some {
                    (
                        s,
                        ui(out, UiView::PeerReachable { peer: u.peer, name: s.name_of(u.peer) }),
                        None,
                    )
                } else {
                    (
                        State { reconnect_at: Some(0), ..s },
                        ui(out, UiView::PeerUnreachable { peer: u.peer }),
                        Some(u.peer),
                    )
                },
            }
        }
    }

    /// Asks to pair with whatever answers at an address.
    pub open spec fn request_pairing(
        self,
        now: u64,
        transport: u16,
        addr: Seq<char>,
        out: Out,
    ) -> (State<W>, Out) {
        match self.why_not_pair(now) {
            Some(why) => (self, ui(out, UiView::PairingFailed { reason: why })),
            None => {
                let s = self.begin_pairing(now);
                let d = after(s.next_dial);
                (
                    State {
                        next_dial: d,
                        pair_dials: s.pair_dials.insert(d, (transport, addr)),
                        ..s
                    },
                    out.push(ActionView::Dial { transport, addr, dial: d }),
                )
            },
        }
    }

    /// Is told where a peer can be reached.
    pub open spec fn set_peer_address(
        self,
        peer: Seq<char>,
        transport: u16,
        addr: Seq<char>,
        out: Out,
    ) -> (State<W>, Out) {
        if self.peers.dom().contains(peer) {
            (self.note_addr(peer, transport, addr), out)
        } else {
            (
                self,
                error(
                    out,
                    Some(peer),
                    ErrorCode::NotPaired,
                    peer + " is not a paired device"@,
                ),
            )
        }
    }

    /// Is told that a peer cannot be reached somewhere any more. A newer address
    /// on the same transport stays.
    pub open spec fn forget_peer_address(
        self,
        peer: Seq<char>,
        transport: u16,
        addr: Seq<char>,
    ) -> State<W> {
        if self.addrs.dom().contains(peer) && self.addrs[peer].dom().contains(transport)
            && self.addrs[peer][transport] == addr {
            let rest = self.addrs[peer].remove(transport);
            State {
                addrs: if rest == Map::<u16, Seq<char>>::empty() {
                    self.addrs.remove(peer)
                } else {
                    self.addrs.insert(peer, rest)
                },
                ..self
            }
        } else {
            self
        }
    }

    /// The established links to a peer, in order.
    pub open spec fn links_to(self, peer: Seq<char>) -> Seq<u64> {
        ascending::<u64>(self.links.dom()).filter(|l: u64| carries(self.links, l, peer))
    }

    // ------------------------------------------------------------------- time

    /// A pairing nobody answered in time lapses.
    pub open spec fn lapse_pairing(self, now: u64, out: Out) -> (State<W>, Out) {
        match self.pairing {
            Some(w) => if now >= w.deadline {
                let (s, out) = match w.awaiting {
                    Some(a) => (
                        State { links: self.links.remove(a.link), ..self },
                        out.push(ActionView::Close { link: a.link, reason: ReasonView::Closed }),
                    ),
                    None => (self, out),
                };
                (
                    s.end_pairing(now, false),
                    ui(
                        out,
                        UiView::PairingFailed { reason: "nobody confirmed the pairing in time"@ },
                    ),
                )
            } else {
                (self, out)
            },
            None => (self, out),
        }
    }

    /// The links that have had their time, in order.
    pub open spec fn stale_links(self, now: u64) -> Seq<u64> {
        ascending::<u64>(self.links.dom()).filter(
            |l: u64| (link_deadline(self.links[l]) matches Some(d) && now >= d),
        )
    }

    /// Drops one link that has had its time and goes on to its next route.
    pub open spec fn drop_stale(self, now: u64, link: u64, out: Out) -> (State<W>, Out) {
        let s = State { links: self.links.remove(link), ..self };
        let out = out.push(ActionView::Close { link, reason: ReasonView::Closed });
        if self.links.dom().contains(link) {
            match self.links[link] {
                LinkV::Handshaking(h) => match h.fallback {
                    Some(p) => s.try_next_route(now, p, "got answer that cut off half way"@, out),
                    None => (s, out),
                },
                _ => (s, out),
            }
        } else {
            (s, out)
        }
    }

    /// Drops the first `n` of some links.
    pub open spec fn drop_all_stale(self, now: u64, links: Seq<u64>, n: int, out: Out) -> (
        State<W>,
        Out,
    )
        decreases n,
    {
        if n <= 0 {
            (self, out)
        } else {
            let (s, out) = self.drop_all_stale(now, links, n - 1, out);
            s.drop_stale(now, links[n - 1], out)
        }
    }

    /// The dials nobody ever answered, in order.
    pub open spec fn expired_dials(self, now: u64) -> Seq<u64> {
        ascending::<u64>(self.peer_dials.dom()).filter(|d: u64| now >= self.peer_dials[d].0)
    }

    /// Gives up on one dial and goes on to its next route.
    pub open spec fn expire_dial(self, now: u64, d: u64, out: Out) -> (State<W>, Out) {
        if self.peer_dials.dom().contains(d) {
            State { peer_dials: self.peer_dials.remove(d), ..self }.try_next_route(
                now,
                self.peer_dials[d].1,
                "peer didn't answer"@,
                out,
            )
        } else {
            (self, out)
        }
    }

    /// Gives up on the first `n` of some dials.
    pub open spec fn expire_all(
        self,
        now: u64,
        dials: Seq<u64>,
        n: int,
        out: Out,
    ) -> (State<W>, Out)
        decreases n,
    {
        if n <= 0 {
            (self, out)
        } else {
            let (s, out) = self.expire_all(now, dials, n - 1, out);
            s.expire_dial(now, dials[n - 1], out)
        }
    }

    /// The peers with no link and somewhere to dial, in order.
    pub open spec fn waiting(self) -> Seq<Seq<char>> {
        ascending::<String>(self.peers.dom()).filter(
            |id: Seq<char>| best(self.links, id) is None && self.addrs.dom().contains(id),
        )
    }

    /// Redials what nothing reaches, when it is time to.
    pub open spec fn reconnect(self, now: u64, out: Out) -> (State<W>, Out) {
        if self.reconnect_at is None || now >= self.reconnect_at->Some_0 {
            let s = State {
                reconnect_at: Some((now + self.config.reconnect_every_ms) as u64),
                ..self
            };
            let list = s.waiting();
            s.connect_all(now, list, list.len() as int, out)
        } else {
            (self, out)
        }
    }

    // --------------------------------------------------- what plugins asked for

    /// Everything a plugin put out, with the counters it used up. `idx` is the
    /// plugin that will be told how its effects and transfers end.
    pub open spec fn remember(self, idx: Option<usize>, cx: CxView) -> State<W> {
        let s = State { next_token: cx.next_token, next_transfer: cx.next_transfer, ..self };
        match idx {
            Some(i) => State {
                effect_owner: owners_of_effects(s.effect_owner, cx.effects, i),
                bulk_owner: owners_of_bulk(s.bulk_owner, cx.bulk, i),
                ..s
            },
            None => s,
        }
    }

    /// One side channel a plugin asked for. `key` is the transfer key.
    pub open spec fn bulk_step(
        self,
        now: u64,
        b: BulkView,
        key: Seq<u8>,
        out: Out,
    ) -> (State<W>, Out) {
        match b {
            BulkView::Cancel { transfer } => (self, out.push(ActionView::BulkCancel { transfer })),
            BulkView::Listen { peer, transfer, offered_as, expect_bytes } => if self.bulk_for(peer)
                == Some(BulkSupport::Unsupported) {
                self.bulk_impossible(peer, transfer, out)
            } else if best(able(self.links), peer) is None {
                (self, no_session(peer, out))
            } else {
                (
                    State {
                        bulk_wait: self.bulk_wait.insert(
                            transfer,
                            (now + BULK_DIAL_WAIT_MS) as u64,
                        ),
                        ..self
                    },
                    out.push(ActionView::BulkListen { transfer, offered_as, key, expect_bytes }),
                )
            },
            BulkView::Send { peer, transfer, endpoint } => if self.bulk_for(peer) == Some(
                BulkSupport::Unsupported,
            ) {
                self.bulk_impossible(peer, transfer, out)
            } else if best(able(self.links), peer) is None {
                (self, no_session(peer, out))
            } else {
                (self, out.push(ActionView::BulkSend { transfer, endpoint, key }))
            },
        }
    }

    /// A link that cannot carry bulk refuses the transfer.
    pub open spec fn bulk_impossible(
        self,
        peer: Seq<char>,
        transfer: u64,
        out: Out,
    ) -> (State<W>, Out) {
        let detail = "transport for connection to "@ + peer
            + " does not support file transfers. change transports and try again."@;
        let out = error(out, Some(peer), ErrorCode::NotAllowed, detail);
        (
            State { bulk_owner: self.bulk_owner.remove(transfer), ..self },
            out.push(ActionView::BulkCancel { transfer }),
        )
    }

    /// The first `n` side channels a plugin asked for.
    pub open spec fn bulk_steps(
        self,
        now: u64,
        list: Seq<BulkView>,
        keys: Seq<Seq<u8>>,
        n: int,
        out: Out,
    ) -> (State<W>, Out)
        decreases n,
    {
        if n <= 0 {
            (self, out)
        } else {
            let (s, out) = self.bulk_steps(now, list, keys, n - 1, out);
            s.bulk_step(now, list[n - 1], keys[n - 1], out)
        }
    }

    /// One message a plugin wanted sent. `sealed` is what came of sealing it.
    pub open spec fn send_step(self, m: SendView, sealed: Sealed, out: Out) -> (State<W>, Out) {
        match best(self.links, m.peer) {
            None => (self, ui(out, UiView::PeerUnreachable { peer: m.peer })),
            Some(link) => {
                let u = self.links[link]->Up_0;
                if !u.can_send.contains(m.cap) {
                    (
                        self,
                        error(
                            out,
                            Some(u.peer),
                            ErrorCode::CapNotNegotiated,
                            m.cap + " is not negotiated with this peer"@,
                        ),
                    )
                } else {
                    (
                        State {
                            next_msg_id: after32(self.next_msg_id),
                            links: if sealed is Message {
                                self.links.insert(
                                    link,
                                    LinkV::Up(UpV { session: u.session.after_sealing(), ..u }),
                                )
                            } else {
                                self.links
                            },
                            ..self
                        },
                        match sealed {
                            Sealed::Unwritten => out,
                            Sealed::Failed(words) => error(
                                out,
                                Some(u.peer),
                                ErrorCode::Internal,
                                words,
                            ),
                            Sealed::Message(msg) => if msg.len() > u.max_message {
                                error(
                                    out,
                                    Some(u.peer),
                                    ErrorCode::TooLarge,
                                    decimal(msg.len()) + " bytes does not fit this link, which takes "@
                                        + decimal(u.max_message as nat),
                                )
                            } else {
                                out.push(ActionView::LinkSend { link, msg })
                            },
                        },
                    )
                }
            },
        }
    }

    /// The first `n` messages a plugin wanted sent.
    pub open spec fn send_steps(
        self,
        list: Seq<SendView>,
        sealed: Seq<Sealed>,
        n: int,
        out: Out,
    ) -> (
        State<W>,
        Out,
    )
        decreases n,
    {
        if n <= 0 {
            (self, out)
        } else {
            let (s, out) = self.send_steps(list, sealed, n - 1, out);
            s.send_step(list[n - 1], sealed[n - 1], out)
        }
    }

    /// A message as it goes to the wire format.
    pub open spec fn envelope(self, m: SendView) -> EnvelopeView {
        EnvelopeView {
            v: WIRE_VERSION,
            id: after32(self.next_msg_id),
            re: m.re,
            cap: m.cap,
            ty: m.ty,
            body: m.body,
        }
    }

    /// Whether `sealed` is what may come of sealing a message that is sent now.
    pub open spec fn seal_fits(self, m: SendView, sealed: Sealed) -> bool {
        match best(self.links, m.peer) {
            Some(link) => {
                let u = self.links[link]->Up_0;
                u.can_send.contains(m.cap) ==> seals(
                    self.wire,
                    u.session,
                    self.envelope(m),
                    sealed,
                )
            },
            None => true,
        }
    }

    /// Whether these are what may come of sealing the first `n` messages.
    pub open spec fn seals_fit(
        self,
        list: Seq<SendView>,
        sealed: Seq<Sealed>,
        n: int,
        out: Out,
    ) -> bool
        decreases n,
    {
        n <= 0 || (self.seals_fit(list, sealed, n - 1, out) && self.send_steps(
            list,
            sealed,
            n - 1,
            out,
        ).0.seal_fits(list[n - 1], sealed[n - 1]))
    }

    /// Whether `key` may be the key of a side channel that is opened now: it
    /// comes from the session that the best link for files has, and from the
    /// offerer's id and number.
    pub open spec fn key_fits(self, b: BulkView, key: Seq<u8>) -> bool {
        match b {
            BulkView::Cancel { .. } => true,
            BulkView::Listen { peer, offered_as, .. } => match best(able(self.links), peer) {
                Some(l) => transfer_key(
                    self.wire,
                    self.links[l]->Up_0.handshake_hash,
                    peer,
                    offered_as,
                    key,
                ),
                None => true,
            },
            BulkView::Send { peer, transfer, .. } => match best(able(self.links), peer) {
                Some(l) => transfer_key(
                    self.wire,
                    self.links[l]->Up_0.handshake_hash,
                    self.own_id,
                    transfer,
                    key,
                ),
                None => true,
            },
        }
    }

    /// Whether these may be the keys of the first `n` side channels.
    pub open spec fn keys_fit(
        self,
        now: u64,
        list: Seq<BulkView>,
        keys: Seq<Seq<u8>>,
        n: int,
        out: Out,
    ) -> bool
        decreases n,
    {
        n <= 0 || (self.keys_fit(now, list, keys, n - 1, out) && self.bulk_steps(
            now,
            list,
            keys,
            n - 1,
            out,
        ).0.key_fits(list[n - 1], keys[n - 1]))
    }

    /// Whether these are what the cipher and the wire format may answer while a
    /// plugin's wishes become actions.
    pub open spec fn answers_fit(
        self,
        now: u64,
        cx: CxView,
        keys: Seq<Seq<u8>>,
        sealed: Seq<Sealed>,
        out: Out,
    ) -> bool {
        let shown = out + shows(cx);
        &&& keys.len() == cx.bulk.len()
        &&& sealed.len() == cx.sends.len()
        &&& self.keys_fit(now, cx.bulk, keys, cx.bulk.len() as int, shown)
        &&& ({
            let (s, o) = self.bulk_steps(now, cx.bulk, keys, cx.bulk.len() as int, shown);
            s.seals_fit(cx.sends, sealed, cx.sends.len() as int, o)
        })
    }

    /// Everything a plugin put out becomes actions: what it shows, then its
    /// effects, its side channels and its messages, and its wish to be woken.
    pub open spec fn drain(
        self,
        now: u64,
        cx: CxView,
        keys: Seq<Seq<u8>>,
        sealed: Seq<Sealed>,
        out: Out,
    ) -> (State<W>, Out) {
        let out = out + shows(cx);
        let (s, out) = self.bulk_steps(now, cx.bulk, keys, cx.bulk.len() as int, out);
        let (s, out) = s.send_steps(cx.sends, sealed, cx.sends.len() as int, out);
        (
            match cx.wake_at {
                Some(w) => State { plugin_wake: Some(sooner(s.plugin_wake, w)), ..s },
                None => s,
            },
            out,
        )
    }

    /// Whether `s2` and `out2` are what the core makes of a plugin's wishes, for
    /// what the cipher and the wire format may answer.
    pub open spec fn drained(
        self,
        now: u64,
        idx: Option<usize>,
        cx: CxView,
        out: Out,
        s2: State<W>,
        out2: Out,
    ) -> bool {
        exists|keys: Seq<Seq<u8>>, sealed: Seq<Sealed>|
            #![trigger self.remember(idx, cx).drain(now, cx, keys, sealed, out)]
            self.remember(idx, cx).answers_fit(now, cx, keys, sealed, out) && (s2, out2)
                == self.remember(idx, cx).drain(now, cx, keys, sealed, out)
    }

    /// The state with other plugins: a plugin that is told something is not the
    /// one it was.
    pub open spec fn with_plugins(self, plugins: Seq<Registered>) -> State<W> {
        State { plugins, ..self }
    }

    /// What a plugin is handed to ask for things with.
    pub open spec fn context(self, now: u64, peer_bulk: Option<BulkSupport>) -> CxView {
        CxView {
            now_ms: now,
            next_token: self.next_token,
            next_transfer: self.next_transfer,
            sends: Seq::empty(),
            effects: Seq::empty(),
            ui: Seq::empty(),
            wake_at: None,
            bulk: Seq::empty(),
            serves: self.serves,
            peer_bulk,
        }
    }

    /// Whether the plugin at `idx` may make of what it is told that the context
    /// it is handed becomes `cx`, its answer is `r`, and it remembers what it does
    /// among `plugins`. No other plugin changes.
    pub open spec fn one_heard(
        self,
        idx: usize,
        told: Told,
        handed: CxView,
        cx: CxView,
        r: Result<(), FaultView>,
        plugins: Seq<Registered>,
    ) -> bool {
        &&& plugins.len() == self.plugins.len()
        &&& forall|k: int|
            #![auto]
            0 <= k < plugins.len() && k != idx ==> plugins[k] == self.plugins[k]
        &&& if idx < self.plugins.len() {
            heeds(self.plugins, plugins, idx as int, told, handed, cx, r)
        } else {
            cx == handed && r is Ok
        }
    }

    /// Whether the plugins, told something one after the other, may turn one
    /// context into the other, and become `plugins`.
    pub open spec fn all_heard(
        self,
        told: Told,
        handed: CxView,
        cx: CxView,
        plugins: Seq<Registered>,
    ) -> bool {
        exists|trace: Seq<CxView>|
            #[trigger] rounds(self.plugins, plugins, told, trace) && trace[0] == handed
                && trace[self.plugins.len() as int] == cx
    }

    /// Whether `s2` and `out2` follow from telling one plugin something, where it
    /// answers `r`.
    pub open spec fn told_one(
        self,
        now: u64,
        idx: usize,
        told: Told,
        peer_bulk: Option<BulkSupport>,
        r: Result<(), FaultView>,
        out: Out,
        s2: State<W>,
        out2: Out,
    ) -> bool {
        exists|cx: CxView, plugins: Seq<Registered>|
            #![trigger self.with_plugins(plugins).drained(now, Some(idx), cx, out, s2, out2)]
            self.one_heard(idx, told, self.context(now, peer_bulk), cx, r, plugins)
                && self.with_plugins(plugins).drained(now, Some(idx), cx, out, s2, out2)
    }

    /// Whether `s2` and `out2` follow from telling every plugin something.
    pub open spec fn told_all(
        self,
        now: u64,
        told: Told,
        out: Out,
        s2: State<W>,
        out2: Out,
    ) -> bool {
        exists|cx: CxView, plugins: Seq<Registered>|
            #![trigger self.with_plugins(plugins).drained(now, None, cx, out, s2, out2)]
            plugins.len() == self.plugins.len() && self.all_heard(
                told,
                self.context(now, None),
                cx,
                plugins,
            ) && self.with_plugins(plugins).drained(now, None, cx, out, s2, out2)
    }

    /// Whether `s2` and `out2` follow from letting plugins ask for whatever they
    /// like.
    pub open spec fn plugins_ran(
        self,
        now: u64,
        idx: Option<usize>,
        out: Out,
        s2: State<W>,
        out2: Out,
    ) -> bool {
        exists|cx: CxView, plugins: Seq<Registered>|
            #![trigger self.with_plugins(plugins).drained(now, idx, cx, out, s2, out2)]
            plugins.len() == self.plugins.len() && self.with_plugins(plugins).drained(
                now,
                idx,
                cx,
                out,
                s2,
                out2,
            )
    }
}

/// What a plugin shows, and then its effects.
pub open spec fn shows(cx: CxView) -> Out {
    cx.ui.map_values(|e: UiView| ActionView::Ui(e)) + cx.effects.map_values(
        |e: (u64, EffectView)| ActionView::Effect { token: e.0, effect: e.1 },
    )
}

/// Whether `sealed` is what may come of writing a message, sealing it in a
/// session and framing it.
pub open spec fn seals<W: Wire>(
    wire: W,
    session: SessionView,
    env: EnvelopeView,
    sealed: Sealed,
) -> bool {
    match sealed {
        Sealed::Unwritten => envelope_written(wire, env, None),
        Sealed::Failed(_) => exists|p: Seq<u8>|
            #[trigger] envelope_written(wire, env, Some(p)) && !session.can_seal(p),
        Sealed::Message(msg) => exists|p: Seq<u8>|
            #[trigger] envelope_written(wire, env, Some(p)) && session.can_seal(p) && joins(
                wire,
                FrameKind::Transport,
                session.seal(p),
                msg,
            ),
    }
}

/// Whether the plugin at `i` may make of what it is told that one context becomes
/// the other, its answer is `r`, and it is the one among `next` then, which
/// remembers what the plugin does, is of its kind and is declared as it was.
pub open spec fn heeds(
    plugins: Seq<Registered>,
    next: Seq<Registered>,
    i: int,
    told: Told,
    cx: CxView,
    after: CxView,
    r: Result<(), FaultView>,
) -> bool {
    &&& plugins[i].plugin.may(told, cx, after, r, next[i].plugin.memory())
    &&& next[i].plugin.kind() == plugins[i].plugin.kind()
    &&& next[i].manifest == plugins[i].manifest
}

/// Whether the plugin at `i` may lead from one of some contexts to the next.
pub open spec fn round(
    plugins: Seq<Registered>,
    next: Seq<Registered>,
    told: Told,
    trace: Seq<CxView>,
    i: int,
) -> bool {
    heeds(plugins, next, i, told, trace[i], trace[i + 1], Ok(()))
}

/// The contexts passed through while plugins are told something and become others.
pub open spec fn rounds(
    plugins: Seq<Registered>,
    next: Seq<Registered>,
    told: Told,
    trace: Seq<CxView>,
) -> bool {
    &&& trace.len() == plugins.len() + 1
    &&& forall|i: int| 0 <= i < plugins.len() ==> #[trigger] round(plugins, next, told, trace, i)
}

/// Whether a handshake may not write a payload, for the reason in `words`: every
/// message is over, or it may fail to be written and is not one that cannot.
pub open spec fn kept_back(hs: Handshake, payload: Seq<u8>, words: Seq<char>) -> bool {
    if hs@.complete() {
        words == "the handshake is already complete"@
    } else {
        &&& hs.stalls(payload)
        &&& !hs.must_write(payload)
        &&& exists|own: Seq<char>| words == #[trigger] ("noise: "@ + own)
    }
}

/// A session opened on a link that we dialled. The dial is already off the
/// table.
pub open spec fn session_started<W: Wire>(
    s: State<W>,
    link: u64,
    attrs: LinkAttrs,
    deadline: u64,
    pending: DialV,
    said: Said,
    out: Out,
) -> (State<W>, Out) {
    if !s.peers.dom().contains(pending.peer) {
        s.fail_link(link, "no such peer"@, out)
    } else if s.peers[pending.peer].record.public_key.len() != 32
        || s.peers[pending.peer].record.session_psk.len() != 32 {
        s.fail_link(link, "corrupt peer record"@, out)
    } else {
        match said {
            Said::Failed(words) => s.fail_link(link, words, out),
            Said::Message(msg, hs) => s.shaken_on(
                link,
                ShakingV {
                    hs,
                    attrs,
                    deadline,
                    expect: Some(pending.peer),
                    pairing_flow: false,
                    via: None,
                    fallback: Some(pending),
                },
                msg,
                out,
            ),
        }
    }
}

/// The owners of effects once a plugin has asked for some more.
pub open spec fn owners_of_effects(
    m: Map<u64, usize>,
    effects: Seq<(u64, EffectView)>,
    idx: usize,
) -> Map<u64, usize>
    decreases effects.len(),
{
    if effects.len() == 0 {
        m
    } else {
        owners_of_effects(m, effects.drop_last(), idx).insert(effects.last().0, idx)
    }
}

/// The owners of transfers once a plugin has asked for some more.
pub open spec fn owners_of_bulk(
    m: Map<u64, usize>,
    list: Seq<BulkView>,
    idx: usize,
) -> Map<u64, usize>
    decreases list.len(),
{
    if list.len() == 0 {
        m
    } else {
        let before = owners_of_bulk(m, list.drop_last(), idx);
        match list.last() {
            BulkView::Listen { transfer, .. } => before.insert(transfer, idx),
            BulkView::Send { transfer, .. } => before.insert(transfer, idx),
            BulkView::Cancel { .. } => before,
        }
    }
}

/// The complaint about a transfer to a peer without a session.
pub open spec fn no_session(peer: Seq<char>, out: Out) -> Out {
    error(
        out,
        Some(peer),
        ErrorCode::NotAllowed,
        "no session with "@ + peer + " to derive a transfer key from"@,
    )
}

/// A link that a person now asks about.
pub open spec fn adopted(l: LinkV, peer: Seq<char>) -> LinkV {
    match l {
        LinkV::Handshaking(h) => match h.fallback {
            Some(p) => if p.peer == peer {
                LinkV::Handshaking(
                    ShakingV { fallback: Some(DialV { by_hand: true, ..p }), ..h },
                )
            } else {
                l
            },
            None => l,
        },
        _ => l,
    }
}

/// When a link has had its time.
pub open spec fn link_deadline(l: LinkV) -> Option<u64> {
    match l {
        LinkV::Pending { deadline, .. } => Some(deadline),
        LinkV::Handshaking(h) => Some(h.deadline),
        LinkV::Up(_) => None,
    }
}

/// The first peer of a walk up to place `n` with a fingerprint.
pub open spec fn first_with(
    peers: Map<Seq<char>, PeerV>,
    keys: Seq<Seq<char>>,
    fp: Seq<char>,
    n: int,
) -> Option<Seq<char>>
    decreases n,
{
    if n <= 0 {
        None
    } else {
        match first_with(peers, keys, fp, n - 1) {
            Some(id) => Some(id),
            None => if peers[keys[n - 1]].fingerprint == fp {
                Some(keys[n - 1])
            } else {
                None
            },
        }
    }
}

} // verus!
