//! The pure state machine: `handle()` takes the host's monotonic clock,
//! returns an [`Outcome`], and never touches the world.
use crate::config::CoreConfig;
use crate::ids::{opt_id, DeviceId, Fingerprint};
use crate::link::{
    route_views, BulkSupport, LinkAttrs, LinkDownReason, LinkId, Routes, TransportId, TransportKind,
};
use crate::noise::{Handshake, Identity, Session};
use crate::peer::{PeerRecord, PeerState};
use crate::plugin::{manifests_of, Registered};
use crate::table::Table;
use crate::text::{join2, texts};
use crate::vocab::{Action, EffectSet, Outcome, Sensitivity, UiEvent};
use crate::wire::{ErrorCode, Wire};
use vstd::prelude::*;

pub mod answering;
pub mod asking;
pub mod builder;
pub mod dials;
pub mod events;
pub mod frames;
pub mod laws;
pub mod links;
pub mod model;
pub mod outcomes;
pub mod pairing;
pub mod promises;
pub mod sends;
pub mod sessions;
pub mod telling;
pub mod tick;
pub mod timers;

use crate::engine::model::{
    able, best, best_is_unique, better, carries, first_with, is_best, keep, ui, AwaitV,
    ConfigV, DialV, LinkV, PeerV, ShakingV, SightingV, State, UpV, WindowV,
};

verus! {

/// A dial in flight: target, routes not yet tried, whether a person asked.
pub struct PeerDial {
    peer: DeviceId,
    routes: Vec<(TransportId, String)>,
    by_hand: bool,
}

impl View for PeerDial {
    type V = DialV;

    closed spec fn view(&self) -> DialV {
        DialV { peer: self.peer@, routes: route_views(self.routes@), by_hand: self.by_hand }
    }
}

/// Where a dial was aimed.
pub struct Aim {
    transport: TransportId,
    addr: String,
}

impl View for Aim {
    type V = (u16, Seq<char>);

    closed spec fn view(&self) -> (u16, Seq<char>) {
        (self.transport.0, self.addr@)
    }
}

/// The view of an optional aim.
pub open spec fn opt_aim(a: Option<Aim>) -> Option<(u16, Seq<char>)> {
    match a {
        Some(a) => Some(a@),
        None => None,
    }
}

/// The view of an optional dial.
pub open spec fn opt_dial(d: Option<PeerDial>) -> Option<DialV> {
    match d {
        Some(d) => Some(d@),
        None => None,
    }
}

/// A link whose first frame has not arrived; pair-or-resume still unknown.
pub struct PendingLink {
    attrs: LinkAttrs,
    deadline: u64,
}

pub struct HandshakingLink {
    hs: Handshake,
    attrs: LinkAttrs,
    deadline: u64,
    /// Set when we dialled with a specific peer in mind.
    expect: Option<DeviceId>,
    pairing_flow: bool,
    /// Where we dialled, when we are the one who dialled; a pairing that
    /// succeeds keeps this as the peer's known-good address.
    via: Option<Aim>,
    /// Routes not tried yet, kept until the session is up: a connected dial
    /// proves a socket, not a peer, and a stalled handshake emits no
    /// `DialFailed` to walk the rest.
    fallback: Option<PeerDial>,
}

impl View for HandshakingLink {
    type V = ShakingV;

    closed spec fn view(&self) -> ShakingV {
        ShakingV {
            hs: self.hs,
            attrs: self.attrs,
            deadline: self.deadline,
            expect: opt_id(self.expect),
            pairing_flow: self.pairing_flow,
            via: opt_aim(self.via),
            fallback: opt_dial(self.fallback),
        }
    }
}

pub struct UpLink {
    session: Session,
    peer: DeviceId,
    /// Every bulk key is derived from this; the cipher itself no longer needs it.
    handshake_hash: Vec<u8>,
    bulk: BulkSupport,
    max_message: u32,
    /// When something last arrived over this link (the handshake counts); the
    /// only liveness signal the core has. See [`Core::best_link`].
    last_recv_ms: u64,
    /// Transport carrying this session; ascending id is preference order.
    transport: TransportId,
    /// Display only; decides nothing.
    kind: TransportKind,
    /// Our `caps_out` ∩ their `caps_in`, which is what we may send.
    can_send: Vec<String>,
    /// Their `caps_out` ∩ our `caps_in`, which is what we will accept.
    can_recv: Vec<String>,
}

impl View for UpLink {
    type V = UpV;

    closed spec fn view(&self) -> UpV {
        UpV {
            session: self.session@,
            peer: self.peer@,
            handshake_hash: self.handshake_hash@,
            bulk: self.bulk,
            max_message: self.max_message,
            last_recv_ms: self.last_recv_ms,
            transport: self.transport.0,
            kind: self.kind,
            can_send: texts(self.can_send@),
            can_recv: texts(self.can_recv@),
        }
    }
}

pub enum LinkState {
    Pending(PendingLink),
    Handshaking(Box<HandshakingLink>),
    /// Boxed: a live session is by far the largest variant.
    Up(Box<UpLink>),
}

impl View for LinkState {
    type V = LinkV;

    closed spec fn view(&self) -> LinkV {
        match self {
            LinkState::Pending(p) => LinkV::Pending { attrs: p.attrs, deadline: p.deadline },
            LinkState::Handshaking(h) => LinkV::Handshaking(h@),
            LinkState::Up(u) => LinkV::Up(u@),
        }
    }
}

/// A paired peer and the fingerprint of its key.
pub struct Known {
    record: PeerRecord,
    fingerprint: Fingerprint,
}

impl View for Known {
    type V = PeerV;

    closed spec fn view(&self) -> PeerV {
        PeerV { record: self.record@, fingerprint: self.fingerprint@ }
    }
}

/// A pairing handshake that finished and is waiting on a human.
pub struct AwaitingConfirm {
    link: LinkId,
    id: DeviceId,
    record: PeerRecord,
    fingerprint: Fingerprint,
    sas: String,
    /// The address we dialled to reach them, if we dialled.
    via: Option<Aim>,
}

impl View for AwaitingConfirm {
    type V = AwaitV;

    closed spec fn view(&self) -> AwaitV {
        AwaitV {
            link: self.link.0,
            id: self.id@,
            record: self.record@,
            fingerprint: self.fingerprint@,
            sas: self.sas@,
            via: opt_aim(self.via),
        }
    }
}

/// A pairing in flight. A pending confirmation is never replaced: a second
/// handshake must not swap the SAS a human is comparing. See
/// [`Core::why_not_pair`].
pub struct PairingWindow {
    deadline: u64,
    awaiting: Option<AwaitingConfirm>,
}

impl View for PairingWindow {
    type V = WindowV;

    closed spec fn view(&self) -> WindowV {
        WindowV {
            deadline: self.deadline,
            awaiting: match self.awaiting {
                Some(a) => Some(a@),
                None => None,
            },
        }
    }
}

/// A machine discovery has shown us, and what it said about itself.
pub struct Sighting {
    routes: Routes,
    /// Advertised, therefore untrusted; reaches a screen and nothing else.
    name: String,
    /// Whether it said it was already busy pairing with somebody.
    pairing: bool,
}

impl View for Sighting {
    type V = SightingV;

    closed spec fn view(&self) -> SightingV {
        SightingV { routes: self.routes@, name: self.name@, pairing: self.pairing }
    }
}

/// Somebody waiting on a person to compare six digits.
#[derive(Clone, PartialEq, Eq, Debug)]
pub struct PendingPairing {
    pub name: String,
    pub fingerprint: Fingerprint,
    pub sas: String,
}

/// A machine on the network that this one is not paired with.
#[derive(Clone, PartialEq, Eq, Debug)]
pub struct Nearby {
    pub fingerprint: Fingerprint,
    pub name: String,
    /// Transport-defined and opaque; the best route known.
    pub addr: String,
    pub transport: TransportId,
    pub pairing: bool,
}

pub struct Core<W: Wire> {
    wire: W,
    identity: Identity,
    id: DeviceId,
    fp: Fingerprint,
    config: CoreConfig,
    peers: Table<String, Known>,
    links: Table<u64, LinkState>,
    /// Last address discovery offered for a peer. Untrusted, and only ever used
    /// to decide where to dial, never to decide who answered.
    addrs: Table<String, Routes>,
    /// Every address discovery has ever shown, keyed by advertised
    /// fingerprint; kept even before pairing, since discovery resolves once.
    seen: Table<String, Sighting>,
    pairing: Option<PairingWindow>,
    /// Monotonic time before which no pairing handshake is answered;
    /// rate-limits a hostile device to one dialog.
    pair_quiet_until: u64,
    /// Dials we started for pairing, and where each was aimed.
    pending_pair_dials: Table<u64, Aim>,
    /// Dials to known peers: deadline (see [`crate::link::DIAL_TIMEOUT_MS`]),
    /// routes not yet tried, and whether a person asked.
    pending_peer_dials: Table<u64, (u64, PeerDial)>,
    /// Why the last attempt to reach a peer failed. State, not a `UiEvent`, so
    /// automatic dials cannot flicker errors; dropped on reach or forget.
    dial_trouble: Table<String, String>,
    /// When to retry unreachable peers. See
    /// [`crate::config::CoreConfig::reconnect_every_ms`].
    reconnect_at: Option<u64>,
    plugins: Vec<Registered>,
    /// Which plugin asked for an outstanding effect.
    effect_owner: Table<u64, usize>,
    /// Which plugin owns a bulk transfer, so its answer reaches the right one.
    bulk_owner: Table<u64, usize>,
    /// This device's transfer numbering. See `Cx::new_transfer`.
    next_transfer: u64,
    /// Transfers a host is listening for; removed by `Event::BulkStarted`,
    /// so the deadline bounds the wait, not the file.
    bulk_wait: Table<u64, u64>,
    caps_out: Vec<String>,
    caps_in: Vec<String>,
    /// Subset of `caps_in` this host can actually act on, not merely relay.
    caps_served: Vec<String>,
    /// `caps_served` as an `EffectSet`, handed to every `Cx`.
    serves: EffectSet,
    next_token: u64,
    next_dial: u64,
    next_msg_id: u32,
    /// Refreshed at every entry to `handle`.
    wall_ms: u64,
    plugin_wake: Option<u64>,
}

/// The model of a configuration.
pub open spec fn config_view(c: CoreConfig) -> ConfigV {
    ConfigV {
        name: c.name@,
        platform: c.platform@,
        pairing_window_ms: c.pairing_window_ms,
        accept_pair_requests: c.accept_pair_requests,
        pair_cooldown_ms: c.pair_cooldown_ms,
        pair_denied_cooldown_ms: c.pair_denied_cooldown_ms,
        reconnect_every_ms: c.reconnect_every_ms,
        handshake_timeout_ms: c.handshake_timeout_ms,
        dial_timeout_ms: c.dial_timeout_ms,
    }
}

impl<W: Wire> View for Core<W> {
    type V = State<W>;

    closed spec fn view(&self) -> State<W> {
        State {
            wire: self.wire,
            own_secret: self.identity.secret(),
            own_key: self.identity.key(),
            own_id: self.id@,
            own_fp: self.fp@,
            config: config_view(self.config),
            peers: self.peers@,
            links: self.links@,
            addrs: self.addrs@,
            seen: self.seen@,
            pairing: match self.pairing {
                Some(w) => Some(w@),
                None => None,
            },
            pair_quiet_until: self.pair_quiet_until,
            pair_dials: self.pending_pair_dials@,
            peer_dials: self.pending_peer_dials@,
            dial_trouble: self.dial_trouble@,
            reconnect_at: self.reconnect_at,
            plugins: self.plugins@,
            manifests: manifests_of(self.plugins@),
            effect_owner: self.effect_owner@,
            bulk_owner: self.bulk_owner@,
            next_transfer: self.next_transfer,
            bulk_wait: self.bulk_wait@,
            caps_out: texts(self.caps_out@),
            caps_in: texts(self.caps_in@),
            caps_served: texts(self.caps_served@),
            serves: self.serves,
            next_token: self.next_token,
            next_dial: self.next_dial,
            next_msg_id: self.next_msg_id,
            wall_ms: self.wall_ms,
            plugin_wake: self.plugin_wake,
        }
    }
}

/// The view of what is shown about a nearby machine.
pub open spec fn nearby_view(n: Nearby) -> (Seq<char>, Seq<char>, Seq<char>, u16, bool) {
    (n.fingerprint@, n.name@, n.addr@, n.transport.0, n.pairing)
}

impl<W: Wire> State<W> {
    /// What is shown about a machine that discovery has seen.
    pub open spec fn shown_nearby(self, fp: Seq<char>) -> (
        Seq<char>,
        Seq<char>,
        Seq<char>,
        u16,
        bool,
    ) {
        let s = self.seen[fp];
        let r = crate::link::in_preference(s.routes)[0];
        (fp, s.name, r.1, r.0, s.pairing)
    }

    /// Whether a machine is offered: it is not paired and has an address.
    pub open spec fn is_nearby(self, fp: Seq<char>) -> bool {
        !self.paired(fp) && crate::link::in_preference(self.seen[fp].routes).len() > 0
    }

    /// What is shown about the machines nearby, up to place `n` of a walk.
    pub open spec fn nearby_up_to(self, n: int) -> Seq<(Seq<char>, Seq<char>, Seq<char>, u16, bool)>
        decreases n,
    {
        if n <= 0 {
            Seq::empty()
        } else {
            let fp = crate::table::ascending::<String>(self.seen.dom())[n - 1];
            if self.is_nearby(fp) {
                self.nearby_up_to(n - 1).push(self.shown_nearby(fp))
            } else {
                self.nearby_up_to(n - 1)
            }
        }
    }
}

impl<W: Wire> Core<W> {
    /// Where the wire format's own computations are asked for.
    pub closed spec fn line(&self) -> W {
        self.wire
    }

    /// Where the wire format's own computations are asked for.
    pub(crate) fn wire(&self) -> (w: &W)
        ensures
            *w == self.line(),
    {
        &self.wire
    }

    pub fn identity(&self) -> (id: &Identity)
        ensures
            id.key() == self@.own_key,
            id.secret() == self@.own_secret,
    {
        &self.identity
    }

    /// The fingerprint of this device's key.
    pub fn fingerprint(&self) -> (fp: Fingerprint)
        ensures
            fp@ == self@.own_fp,
    {
        self.fp.clone()
    }

    /// The id of this device's key.
    pub fn device_id(&self) -> (id: DeviceId)
        ensures
            id@ == self@.own_id,
    {
        self.id.clone()
    }

    /// Every paired peer, in the order of ids.
    pub fn peers(&self) -> (r: Vec<PeerRecord>)
        ensures
            self@.peers.dom().finite(),
            r@.len() == self@.peers.dom().len(),
            r@.map_values(|p: PeerRecord| p@) == self@.records(),
    {
        let mut out: Vec<PeerRecord> = Vec::new();
        let n = self.peers.len();
        for i in 0..n
            invariant
                n == self.peers.keys().len(),
                out.len() == i,
                forall|k: int|
                    0 <= k < i ==> (#[trigger] out@[k])@ == self@.peers[self.peers.keys()[k]].record,
        {
            out.push(self.peers.value_at(i).record.clone());
        }
        assert(out@.map_values(|p: PeerRecord| p@) =~= self@.records());
        out
    }

    /// What we advertise we can send, minus plugins the host cannot serve.
    pub fn caps_out(&self) -> (r: &Vec<String>)
        ensures
            texts(r@) == self@.caps_out,
    {
        &self.caps_out
    }

    pub fn caps_in(&self) -> (r: &Vec<String>)
        ensures
            texts(r@) == self@.caps_in,
    {
        &self.caps_in
    }

    /// What this host can carry out itself, as opposed to only ask for.
    pub fn caps_served(&self) -> (r: &Vec<String>)
        ensures
            texts(r@) == self@.caps_served,
    {
        &self.caps_served
    }

    /// The code awaiting confirmation; lets a backgrounded UI re-read it
    /// instead of relying on having caught `PairingSas`.
    pub fn pending_sas(&self) -> (r: Option<&str>)
        ensures
            match r {
                Some(t) => self@.pairing matches Some(w) && (w.awaiting matches Some(a) && t@ == a.sas),
                None => self@.pairing is None || self@.pairing->Some_0.awaiting is None,
            },
    {
        match &self.pairing {
            Some(w) => match &w.awaiting {
                Some(a) => Some(a.sas.as_str()),
                None => None,
            },
            None => None,
        }
    }

    /// Everything `UiEvent::PairingSas` carries, readable at any moment by a
    /// UI that missed the event.
    pub fn pending_pairing(&self) -> (r: Option<PendingPairing>)
        ensures
            match r {
                Some(p) => self@.pairing matches Some(w) && (w.awaiting matches Some(a) && p.sas@
                    == a.sas && p.name@ == a.record.name && p.fingerprint@ == a.fingerprint),
                None => self@.pairing is None || self@.pairing->Some_0.awaiting is None,
            },
    {
        match &self.pairing {
            Some(w) => match &w.awaiting {
                Some(a) => Some(
                    PendingPairing {
                        name: a.record.name.clone(),
                        fingerprint: a.fingerprint.clone(),
                        sas: a.sas.clone(),
                    },
                ),
                None => None,
            },
            None => None,
        }
    }

    /// Whether a pairing is in flight: the `pair=` discovery key. Polled rather
    /// than announced, since a lapsed pairing has no event.
    pub fn pairing_open(&self) -> (r: bool)
        ensures
            r == self@.pairing is Some,
    {
        self.pairing.is_some()
    }

    /// Why an inbound pairing handshake will not be answered, or `None` to
    /// answer it. The whole admission policy, in one place.
    fn why_not_pair(&self, now_ms: u64) -> (r: Option<&'static str>)
        ensures
            match r {
                Some(t) => self@.why_not_pair(now_ms) == Some(t@),
                None => self@.why_not_pair(now_ms) is None,
            },
    {
        if !self.config.accept_pair_requests {
            return Some("this device is not accepting pairing requests");
        }
        match &self.pairing {
            // A pending confirmation is never replaced; see `PairingWindow`.
            Some(w) => {
                if w.awaiting.is_some() {
                    return Some("already confirming a pairing with somebody else");
                }
                return Some("a pairing is already in progress");
            },
            None => {},
        }
        if now_ms < self.pair_quiet_until {
            return Some("too soon after the last pairing attempt");
        }
        None
    }

    /// The first peer with a fingerprint.
    fn peer_with(&self, fp: &Fingerprint) -> (r: Option<DeviceId>)
        ensures
            opt_id(r) == self@.peer_with(fp@),
            r is Some <==> self@.paired(fp@),
    {
        let n = self.peers.len();
        let ghost keys = self.peers.keys();
        for i in 0..n
            invariant
                keys == self.peers.keys(),
                n == keys.len(),
                n == self@.peers.dom().len(),
                first_with(self@.peers, keys, fp@, i as int) is None,
                keys.to_set() == self.peers@.dom(),
                forall|k: int| 0 <= k < i ==> self.peers@[#[trigger] keys[k]].fingerprint != fp@,
        {
            if self.peers.value_at(i).fingerprint.is(fp) {
                let key = self.peers.key_at(i);
                let id = DeviceId::new(key.clone());
                proof {
                    first_with_stays(self@.peers, keys, fp@, i as int + 1, n as int);
                    assert(self@.peers.dom().contains(key@));
                }
                return Some(id);
            }
        }
        proof {
            assert forall|id: Seq<char>| #[trigger] self@.peers.dom().contains(id) implies self@.peers[id].fingerprint
                != fp@ by {
                assert(keys.to_set().contains(id));
                let k = choose|k: int| 0 <= k < keys.len() && keys[k] == id;
                assert(self.peers@[keys[k]].fingerprint != fp@);
            }
        }
        None
    }

    /// Offer a machine discovery has seen, on the best route known for it.
    /// Does nothing for a machine already paired.
    fn announce(&self, fp: &Fingerprint, out: &mut Outcome)
        ensures
            final(out)@ == self@.announce(fp@, old(out)@),
    {
        let s = match self.seen.get(&fp.text()) {
            Some(s) => s,
            None => {
                return;
            },
        };
        let mut routes = s.routes.in_preference_order();
        proof {
            assert(route_views(routes@).len() == routes@.len());
        }
        if routes.len() == 0 {
            return;
        }
        if self.peer_with(fp).is_some() {
            return;
        }
        assert(route_views(routes@)[0] == (routes@[0].0.0, routes@[0].1@));
        let (transport, addr) = routes.remove(0);
        out.ui(
            UiEvent::Discovered {
                fingerprint: fp.clone(),
                name: s.name.clone(),
                addr,
                transport,
                pairing: s.pairing,
            },
        );
    }

    /// Machines discovery can see that this one is not paired with, each on
    /// its best known route.
    pub fn nearby(&self) -> (r: Vec<Nearby>)
        ensures
            r@.map_values(|n: Nearby| nearby_view(n)) == self@.nearby_up_to(
                self@.seen.dom().len() as int,
            ),
    {
        let mut out: Vec<Nearby> = Vec::new();
        let n = self.seen.len();
        let ghost shown = |x: Nearby| nearby_view(x);
        assert(out@.map_values(shown) =~= self@.nearby_up_to(0));
        for i in 0..n
            invariant
                n == self.seen.keys().len(),
                shown == (|x: Nearby| nearby_view(x)),
                out@.map_values(shown) == self@.nearby_up_to(i as int),
        {
            let fp = Fingerprint::new(self.seen.key_at(i).clone());
            let s = self.seen.value_at(i);
            let mut routes = s.routes.in_preference_order();
            assert(route_views(routes@).len() == routes@.len());
            if self.peer_with(&fp).is_none() && routes.len() > 0 {
                assert(route_views(routes@)[0] == (routes@[0].0.0, routes@[0].1@));
                let (transport, addr) = routes.remove(0);
                let x = Nearby {
                    fingerprint: fp,
                    name: s.name.clone(),
                    addr,
                    transport,
                    pairing: s.pairing,
                };
                let ghost before = out@;
                out.push(x);
                assert(out@.map_values(shown) =~= before.map_values(shown).push(nearby_view(x)));
            }
        }
        out
    }

    /// Claim the pairing slot before the first frame, so [`Self::why_not_pair`]
    /// can refuse a second handshake.
    fn begin_pairing(&mut self, now_ms: u64)
        requires
            old(self)@.clock_fits(now_ms),
        ensures
            final(self)@ == old(self)@.begin_pairing(now_ms),
    {
        self.pairing = Some(
            PairingWindow { deadline: now_ms + self.config.pairing_window_ms, awaiting: None },
        );
    }

    /// Drop the pairing and start the cooldown; `denied` marks a person saying
    /// the digits differ, not a mere lapse.
    fn end_pairing(&mut self, now_ms: u64, denied: bool)
        requires
            old(self)@.clock_fits(now_ms),
        ensures
            final(self)@ == old(self)@.end_pairing(now_ms, denied),
    {
        self.pairing = None;
        let cooldown: u64 = if denied {
            self.config.pair_denied_cooldown_ms
        } else {
            self.config.pair_cooldown_ms
        };
        self.pair_quiet_until = now_ms + cooldown;
    }

    /// Why the last attempt to reach this peer failed; only meaningful
    /// alongside [`PeerState::Unreachable`].
    pub fn dial_trouble(&self, peer: &DeviceId) -> (r: Option<&str>)
        ensures
            match r {
                Some(t) => self@.dial_trouble.dom().contains(peer@) && t@
                    == self@.dial_trouble[peer@],
                None => !self@.dial_trouble.dom().contains(peer@),
            },
    {
        match self.dial_trouble.get(&peer.text()) {
            Some(t) => Some(t.as_str()),
            None => None,
        }
    }

    /// Whether a dial to this peer is in flight.
    fn dialling(&self, peer: &DeviceId) -> (r: bool)
        ensures
            r == self@.dialling(peer@),
    {
        let n = self.pending_peer_dials.len();
        let ghost keys = self.pending_peer_dials.keys();
        for i in 0..n
            invariant
                keys == self.pending_peer_dials.keys(),
                n == keys.len(),
                keys.to_set() == self.pending_peer_dials@.dom(),
                forall|k: int|
                    0 <= k < i ==> self.pending_peer_dials@[#[trigger] keys[k]].1.peer != peer@,
        {
            let v = self.pending_peer_dials.value_at(i);
            if v.1.peer.is(peer) {
                assert(self@.peer_dials.dom().contains(keys[i as int]));
                return true;
            }
        }
        proof {
            assert forall|d: u64| #[trigger] self@.peer_dials.dom().contains(d) implies self@.peer_dials[d].1.peer
                != peer@ by {
                assert(keys.to_set().contains(d));
                let k = choose|k: int| 0 <= k < keys.len() && keys[k] == d;
                assert(self.pending_peer_dials@[keys[k]].1.peer != peer@);
            }
        }
        false
    }

    /// Whether a handshake that expects this peer is under way.
    fn shaking(&self, peer: &DeviceId) -> (r: bool)
        ensures
            r == self@.shaking(peer@),
    {
        let n = self.links.len();
        let ghost keys = self.links.keys();
        for i in 0..n
            invariant
                keys == self.links.keys(),
                n == keys.len(),
                keys.to_set() == self@.links.dom(),
                forall|k: int|
                    0 <= k < i ==> !(self@.links[#[trigger] keys[k]] matches LinkV::Handshaking(h)
                        && h.expect == Some(peer@)),
        {
            match self.links.value_at(i) {
                LinkState::Handshaking(h) => {
                    match &h.expect {
                        Some(e) => {
                            if e.is(peer) {
                                assert(keys.to_set().contains(keys[i as int]));
                                assert(self@.links.dom().contains(keys[i as int]));
                                return true;
                            }
                        },
                        None => {},
                    }
                },
                _ => {},
            }
        }
        proof {
            assert forall|l: u64| #[trigger] self@.links.dom().contains(l) implies !(self@.links[l]
                matches LinkV::Handshaking(h) && h.expect == Some(peer@)) by {
                assert(keys.to_set().contains(l));
                let k = choose|k: int| 0 <= k < keys.len() && keys[k] == l;
                assert(keys[k] == l);
            }
        }
        false
    }

    pub fn peer_state(&self, peer: &DeviceId) -> (r: PeerState)
        ensures
            r == self@.peer_state(peer@),
    {
        if self.best_link(peer).is_some() {
            PeerState::Reachable
        } else if self.shaking(peer) || self.dialling(peer) {
            // A dial in flight counts as Connecting, not Unreachable.
            PeerState::Connecting
        } else {
            PeerState::Unreachable
        }
    }

    /// The link a message to this peer would take: most recently heard from
    /// first, then the better transport, then the newer link. A preference,
    /// never a teardown: getting it wrong costs one message, not a session.
    fn best_link(&self, peer: &DeviceId) -> (r: Option<LinkId>)
        ensures
            match r {
                Some(l) => best(self@.links, peer@) == Some(l.0) && carries(self@.links, l.0, peer@),
                None => best(self@.links, peer@) is None,
            },
    {
        self.best_of(peer, false)
    }

    /// The same among all links, or among those that can carry files.
    fn best_of(&self, peer: &DeviceId, files: bool) -> (r: Option<LinkId>)
        ensures
            ({
                let m = if files {
                    able(self@.links)
                } else {
                    self@.links
                };
                match r {
                    Some(l) => best(m, peer@) == Some(l.0) && carries(m, l.0, peer@),
                    None => best(m, peer@) is None,
                }
            }),
    {
        let n = self.links.len();
        let ghost keys = self.links.keys();
        let ghost m = if files {
            able(self@.links)
        } else {
            self@.links
        };
        let mut found: Option<(u64, usize)> = None;
        for i in 0..n
            invariant
                keys == self.links.keys(),
                m == if files {
                    able(self@.links)
                } else {
                    self@.links
                },
                n == keys.len(),
                keys.to_set() == self@.links.dom(),
                forall|k: int| 0 <= k < n ==> self@.links.dom().contains(#[trigger] keys[k]),
                match found {
                    Some((l, at)) => {
                        &&& at < i
                        &&& keys[at as int] == l
                        &&& carries(m, l, peer@)
                        &&& forall|k: int|
                            0 <= k < i && carries(m, #[trigger] keys[k], peer@) ==> keys[k] == l || better(
                                l,
                                m[l]->Up_0,
                                keys[k],
                                m[keys[k]]->Up_0,
                            )
                    },
                    None => forall|k: int| 0 <= k < i ==> !carries(m, #[trigger] keys[k], peer@),
                },
        {
            let id: u64 = *self.links.key_at(i);
            match self.links.value_at(i) {
                LinkState::Up(u) => {
                    if u.peer.is(peer) && (!files || u.bulk == BulkSupport::SideChannel) {
                        let wins = match found {
                            Some((l, at)) => match self.links.value_at(at) {
                                LinkState::Up(v) => {
                                    u.last_recv_ms > v.last_recv_ms || (u.last_recv_ms
                                        == v.last_recv_ms && u.transport.0 < v.transport.0) || (
                                    u.last_recv_ms == v.last_recv_ms && u.transport.0
                                        == v.transport.0 && id > l)
                                },
                                _ => true,
                            },
                            None => true,
                        };
                        if wins {
                            found = Some((id, i));
                        } else {
                            proof {
                                let l = found->Some_0.0;
                                if id != l {
                                    assert(better(l, m[l]->Up_0, id, m[id]->Up_0));
                                }
                            }
                        }
                    }
                },
                _ => {},
            }
        }
        proof {
            assert forall|l: u64| carries(m, l, peer@) implies keys.contains(l) by {
                assert(keys.to_set().contains(l));
            }
        }
        match found {
            Some((l, _)) => {
                proof {
                    assert forall|x: u64| #[trigger] carries(m, x, peer@) implies x == l || better(
                        l,
                        m[l]->Up_0,
                        x,
                        m[x]->Up_0,
                    ) by {
                        let k = choose|k: int| 0 <= k < keys.len() && keys[k] == x;
                        assert(carries(m, keys[k], peer@));
                    }
                    assert(is_best(m, l, peer@));
                    let c = choose|x: u64| is_best(m, x, peer@);
                    best_is_unique(m, c, l, peer@);
                }
                Some(LinkId(l))
            },
            None => {
                proof {
                    assert forall|x: u64| !is_best(m, x, peer@) by {
                        if is_best(m, x, peer@) {
                            assert(carries(m, x, peer@));
                            let k = choose|k: int| 0 <= k < keys.len() && keys[k] == x;
                            assert(!carries(m, keys[k], peer@));
                        }
                    }
                }
                None
            },
        }
    }

    /// The transport of the best link to a peer.
    fn best_link_transport(&self, peer: &DeviceId) -> (r: Option<TransportId>)
        ensures
            match r {
                Some(t) => self@.best_transport(peer@) == Some(t.0),
                None => self@.best_transport(peer@) is None,
            },
    {
        match self.best_link(peer) {
            Some(l) => match self.links.get(&l.0) {
                Some(LinkState::Up(u)) => Some(u.transport),
                _ => None,
            },
            None => None,
        }
    }

    /// Whether files can get to a peer.
    fn bulk_support_for(&self, peer: &DeviceId) -> (r: Option<BulkSupport>)
        ensures
            r == self@.bulk_for(peer@),
    {
        if self.best_of(peer, true).is_some() {
            return Some(BulkSupport::SideChannel);
        }
        match self.best_link(peer) {
            Some(l) => match self.links.get(&l.0) {
                Some(LinkState::Up(u)) => Some(u.bulk),
                _ => None,
            },
            None => None,
        }
    }

    /// The kind of transport that carries to a peer.
    pub fn transport_for(&self, peer: &DeviceId) -> (r: Option<TransportKind>)
        ensures
            match best(self@.links, peer@) {
                Some(l) => r == Some(self@.links[l]->Up_0.kind),
                None => r is None,
            },
    {
        match self.best_link(peer) {
            Some(l) => match self.links.get(&l.0) {
                Some(LinkState::Up(u)) => Some(u.kind),
                _ => None,
            },
            None => None,
        }
    }

    /// The session a bulk key is derived from: the best link that can carry
    /// files, not the first match. Both ends must derive the key from the same
    /// session's handshake hash, and a peer reachable two ways has more than one
    /// to pick from.
    fn handshake_hash_for(&self, peer: &DeviceId) -> (r: Option<Vec<u8>>)
        ensures
            match best(able(self@.links), peer@) {
                Some(l) => r matches Some(h) && h@ == self@.links[l]->Up_0.handshake_hash,
                None => r is None,
            },
    {
        match self.best_of(peer, true) {
            Some(l) => match self.links.get(&l.0) {
                Some(LinkState::Up(u)) => Some(crate::text::copy_bytes(&u.handshake_hash)),
                _ => None,
            },
            None => None,
        }
    }

    /// The name a peer goes by; empty for one that is not known.
    fn name_of(&self, peer: &DeviceId) -> (r: String)
        ensures
            r@ == self@.name_of(peer@),
    {
        match self.peers.get(&peer.text()) {
            Some(k) => k.record.name.clone(),
            None => String::new(),
        }
    }

    fn fail_link(&mut self, link: LinkId, detail: &str, out: &mut Outcome)
        ensures
            (final(self)@, final(out)@) == old(self)@.fail_link(link.0, detail@, old(out)@),
    {
        // A link that never finished handshaking has no peer yet: naming the
        // device we hoped was there would attribute the failure on the
        // strength of an opener that never verified.
        let peer = match self.links.remove(&link.0) {
            Some(LinkState::Up(u)) => Some(u.peer.clone()),
            _ => None,
        };
        out.push(
            Action::Close { link, reason: LinkDownReason::Protocol(ErrorCode::NotAllowed) },
        );
        out.ui(UiEvent::Error { peer, code: ErrorCode::NotAllowed, detail: detail.to_owned() });
    }

    /// What a record is kept under and as.
    fn keep_record(rec: &PeerRecord, out: &mut Outcome)
        ensures
            final(out)@ == keep(old(out)@, rec@),
    {
        out.push(
            Action::Persist {
                key: join2("peer/", rec.device_id.as_str()),
                value: Some(rec.encode()),
                sensitivity: Sensitivity::Secret,
            },
        );
    }
}

/// What a walk has found stays found.
proof fn first_with_stays(
    peers: Map<Seq<char>, PeerV>,
    keys: Seq<Seq<char>>,
    fp: Seq<char>,
    i: int,
    n: int,
)
    requires
        i <= n,
        first_with(peers, keys, fp, i) is Some,
    ensures
        first_with(peers, keys, fp, n) == first_with(peers, keys, fp, i),
    decreases n - i,
{
    if i < n {
        first_with_stays(peers, keys, fp, i, n - 1);
    }
}

} // verus!
