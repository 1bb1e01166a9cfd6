//! Transport vocabulary. The core never names a socket or an address family;
//! it knows only links that carry whole messages, and what each link can do.
use crate::table::Table;
use crate::text::same;
use crate::wire::ErrorCode;
use vstd::prelude::*;

verus! {

/// How long a peer may stop answering before its socket is treated as broken.
/// Both hosts must bound this: sleep and Wi-Fi loss close nothing, they just
/// go quiet.
pub const DEAD_PEER_MS: u64 = 20_000;

/// How long a dial may go unanswered before the route it was trying is spent.
/// Needed because Network.framework never fails a dial with no viable path,
/// and the core will not start the next route while one is outstanding.
pub const DIAL_TIMEOUT_MS: u64 = 6_000;

/// Host-assigned, unique for the lifetime of a process. The core treats it as
/// opaque and never invents one.
#[derive(Clone, Copy, PartialEq, Eq, PartialOrd, Ord, Hash, Debug, Structural)]
pub struct LinkId(pub u64);

/// Identifies which transport a link came from.
#[derive(Clone, Copy, PartialEq, Eq, PartialOrd, Ord, Hash, Debug, Structural)]
pub struct TransportId(pub u16);

/// Bits of a `LinkId` left to the transport's own counter; the rest name the
/// transport.
pub const LINK_COUNTER_BITS: u32 = 48;

/// The bits of the counter.
pub const COUNTER_MASK: u64 = 0xffff_ffff_ffff;

/// How many different counters fit beside a transport.
pub open spec fn counters() -> int {
    0x1_0000_0000_0000
}

impl LinkId {
    /// Naming the transport in the high bits keeps ids from transports that
    /// each count from 1 from colliding.
    pub fn new(transport: TransportId, counter: u64) -> (id: LinkId)
        ensures
            id.0 == transport.0 * counters() + counter as int % counters(),
    {
        let t: u64 = transport.0 as u64;
        proof {
            assert((t << 48u32) | (counter & 0xffff_ffff_ffffu64) == t * 0x1_0000_0000_0000 + counter
                % 0x1_0000_0000_0000) by (bit_vector)
                requires
                    t <= 0xffff,
            ;
        }
        LinkId((t << LINK_COUNTER_BITS) | (counter & COUNTER_MASK))
    }

    /// Which transport minted this id.
    pub fn transport(self) -> (t: TransportId)
        ensures
            t.0 == self.0 as int / counters(),
    {
        let n: u64 = self.0;
        proof {
            assert(n >> 48u32 == n / 0x1_0000_0000_0000) by (bit_vector);
            assert(n >> 48u32 <= 0xffff) by (bit_vector);
        }
        TransportId((n >> LINK_COUNTER_BITS) as u16)
    }
}

/// The id as [`LinkId::new`] computes it.
pub open spec fn link_id(transport: u16, counter: u64) -> int {
    transport * counters() + counter as int % counters()
}

/// An id names the transport it was made for, whatever the counter has got to.
pub proof fn link_id_names_its_transport(transport: u16, counter: u64)
    ensures
        0 <= link_id(transport, counter) <= u64::MAX,
        link_id(transport, counter) / counters() == transport,
{
    assert((transport * 0x1_0000_0000_0000 + counter as int % 0x1_0000_0000_0000)
        / 0x1_0000_0000_0000 == transport);
}

/// Two transports never give out the same id, however far each has counted.
pub proof fn transports_do_not_collide(a: u16, b: u16, n: u64, m: u64)
    requires
        a != b,
    ensures
        link_id(a, n) != link_id(b, m),
{
    link_id_names_its_transport(a, n);
    link_id_names_its_transport(b, m);
}

/// Where a device can be reached: at most one address per transport, so one
/// transport's sighting cannot evict another's route.
pub struct Routes {
    by_transport: Table<u16, String>,
}

/// The routes of a map, best first: ascending transport number.
pub open spec fn in_preference(m: Map<u16, Seq<char>>) -> Seq<(u16, Seq<char>)> {
    crate::table::ascending::<u16>(m.dom()).map_values(|t: u16| (t, m[t]))
}

/// The view of a list of routes.
pub open spec fn route_views(list: Seq<(TransportId, String)>) -> Seq<(u16, Seq<char>)> {
    list.map_values(|r: (TransportId, String)| (r.0.0, r.1@))
}

impl View for Routes {
    type V = Map<u16, Seq<char>>;

    closed spec fn view(&self) -> Map<u16, Seq<char>> {
        self.by_transport@
    }
}

impl Routes {
    /// No routes.
    pub fn new() -> (r: Routes)
        ensures
            r@ == Map::<u16, Seq<char>>::empty(),
    {
        Routes { by_transport: Table::new() }
    }

    /// Notes an address, in place of the one this transport had.
    pub fn set(&mut self, transport: TransportId, addr: String)
        ensures
            final(self)@ == old(self)@.insert(transport.0, addr@),
    {
        self.by_transport.insert(transport.0, addr);
    }

    /// Forget this transport's address, if it is the one given. Checked because
    /// a withdrawal can race a newer sighting on the same transport.
    /// Returns whether anything was removed.
    pub fn forget(&mut self, transport: TransportId, addr: &str) -> (gone: bool)
        ensures
            gone == (old(self)@.dom().contains(transport.0) && old(self)@[transport.0] == addr@),
            final(self)@ == if gone {
                old(self)@.remove(transport.0)
            } else {
                old(self)@
            },
    {
        let here = match self.by_transport.get(&transport.0) {
            Some(a) => same(a.as_str(), addr),
            None => false,
        };
        if here {
            let _ = self.by_transport.remove(&transport.0);
        }
        here
    }

    /// Whether there is no route.
    pub fn is_empty(&self) -> (r: bool)
        ensures
            r == (self@ == Map::<u16, Seq<char>>::empty()),
    {
        let n = self.by_transport.len();
        proof {
            let d = self@.dom();
            if n == 0 {
                d.lemma_len0_is_empty();
                assert(self@ =~= Map::<u16, Seq<char>>::empty());
            }
        }
        n == 0
    }

    /// Routes to try, best first: ascending `TransportId`, which hosts assign
    /// in preference order.
    pub fn in_preference_order(&self) -> (list: Vec<(TransportId, String)>)
        ensures
            route_views(list@) == in_preference(self@),
    {
        let mut out: Vec<(TransportId, String)> = Vec::new();
        let n = self.by_transport.len();
        for i in 0..n
            invariant
                n == self.by_transport.keys().len(),
                out.len() == i,
                forall|k: int|
                    0 <= k < i ==> (#[trigger] out[k]).0.0 == self.by_transport.keys()[k]
                        && out[k].1@ == self@[self.by_transport.keys()[k]],
        {
            let t: u16 = *self.by_transport.key_at(i);
            let a = self.by_transport.value_at(i).clone();
            out.push((TransportId(t), a));
        }
        assert(route_views(out@) =~= in_preference(self@));
        out
    }

    /// Take everything `other` knows, letting it win where both have an answer.
    pub fn merge_from(&mut self, other: &Routes)
        ensures
            final(self)@ == old(self)@.union_prefer_right(other@),
    {
        let n = other.by_transport.len();
        let ghost ks = other.by_transport.keys();
        assert(self@ =~= old(self)@.union_prefer_right(other@.restrict(ks.take(0).to_set())));
        for i in 0..n
            invariant
                ks == other.by_transport.keys(),
                n == ks.len(),
                ks.to_set() == other@.dom(),
                self@ == old(self)@.union_prefer_right(
                    other@.restrict(ks.take(i as int).to_set()),
                ),
        {
            let t: u16 = *other.by_transport.key_at(i);
            let a = other.by_transport.value_at(i).clone();
            self.by_transport.insert(t, a);
            proof {
                let longer = ks.take(i as int).push(t);
                assert(ks.take(i + 1) =~= longer);
                assert forall|x: u16| longer.to_set().contains(x) <==> ks.take(
                    i as int,
                ).to_set().contains(x) || x == t by {
                    if ks.take(i as int).contains(x) {
                        let j = choose|j: int|
                            0 <= j < ks.take(i as int).len() && ks.take(i as int)[j] == x;
                        assert(longer[j] == x);
                    }
                    assert(longer[i as int] == t);
                    if longer.contains(x) && x != t {
                        let j = choose|j: int| 0 <= j < longer.len() && longer[j] == x;
                        assert(ks.take(i as int)[j] == x);
                    }
                }
                assert(self@ =~= old(self)@.union_prefer_right(
                    other@.restrict(ks.take(i + 1).to_set()),
                ));
            }
        }
        proof {
            assert(ks.take(ks.len() as int) =~= ks);
            assert(other@.restrict(ks.to_set()) =~= other@);
        }
    }
}

impl Clone for Routes {
    fn clone(&self) -> (r: Routes)
        ensures
            r@ == self@,
    {
        let mut r = Routes::new();
        r.merge_from(self);
        assert(r@ =~= self@);
        r
    }
}

#[derive(Clone, Copy, PartialEq, Eq, Debug)]
pub enum TransportKind {
    /// TCP over a local network.
    TcpLan,
    /// A Unix socket on the same machine, used by the loopback tests.
    UnixLoopback,
    /// Bluetooth LE, messages fragmented across GATT writes and notifications.
    BleGatt,
    Custom(&'static str),
}

/// A hint for plugin behaviour, never for correctness.
#[derive(Clone, Copy, PartialEq, Eq, Debug, Structural)]
pub enum LatencyClass {
    Loopback,
    Lan,
    Ble,
    Wan,
}

#[derive(Clone, Copy, PartialEq, Eq, Debug, Structural)]
pub enum BulkSupport {
    /// No bulk transfers; the core refuses one with a clear error.
    Unsupported,
    /// The transport can open a separate channel for bulk bytes.
    SideChannel,
}

#[derive(Clone, Copy, PartialEq, Eq, Debug)]
pub struct LinkAttrs {
    pub transport: TransportId,
    pub kind: TransportKind,
    /// Largest whole message this link accepts, after transport-internal
    /// fragmentation. Enforced on plugins as a `TooLarge` error.
    pub max_message: u32,
    pub reliable: bool,
    pub ordered: bool,
    pub latency: LatencyClass,
    pub bulk: BulkSupport,
}

impl LinkAttrs {
    /// What an ordinary LAN TCP link can do.
    pub open spec fn of_tcp_lan(transport: TransportId) -> LinkAttrs {
        LinkAttrs {
            transport,
            kind: TransportKind::TcpLan,
            max_message: 0x10_0000,
            reliable: true,
            ordered: true,
            latency: LatencyClass::Lan,
            bulk: BulkSupport::SideChannel,
        }
    }

    /// What a BLE link can do.
    pub open spec fn of_ble(transport: TransportId) -> LinkAttrs {
        LinkAttrs {
            transport,
            kind: TransportKind::BleGatt,
            max_message: 0x4000,
            reliable: true,
            ordered: true,
            latency: LatencyClass::Ble,
            bulk: BulkSupport::Unsupported,
        }
    }

    pub fn tcp_lan(transport: TransportId) -> (a: LinkAttrs)
        ensures
            a == LinkAttrs::of_tcp_lan(transport),
    {
        LinkAttrs {
            transport,
            kind: TransportKind::TcpLan,
            max_message: 0x10_0000,
            reliable: true,
            ordered: true,
            latency: LatencyClass::Lan,
            bulk: BulkSupport::SideChannel,
        }
    }

    /// `max_message` is a latency budget, not the ATT MTU: the transport
    /// fragments, so this bounds how much the core hands down at once.
    pub fn ble(transport: TransportId) -> (a: LinkAttrs)
        ensures
            a == LinkAttrs::of_ble(transport),
    {
        LinkAttrs {
            transport,
            kind: TransportKind::BleGatt,
            max_message: 0x4000,
            // The link layer retransmits; a connection that cannot deliver
            // drops, taking the reassembler with it.
            reliable: true,
            ordered: true,
            latency: LatencyClass::Ble,
            // The bulk side channel is a TCP listener, which BLE cannot offer.
            bulk: BulkSupport::Unsupported,
        }
    }

    /// In-process, used by the loopback conformance tests.
    pub fn loopback(transport: TransportId) -> (a: LinkAttrs)
        ensures
            a == (LinkAttrs {
                transport,
                kind: TransportKind::UnixLoopback,
                max_message: 0x10_0000,
                reliable: true,
                ordered: true,
                latency: LatencyClass::Loopback,
                bulk: BulkSupport::SideChannel,
            }),
    {
        let lan = LinkAttrs::tcp_lan(transport);
        LinkAttrs { kind: TransportKind::UnixLoopback, latency: LatencyClass::Loopback, ..lan }
    }

    /// Whether a Noise session on this link may keep its nonce counter
    /// internally; a lossy or unordered link needs caller-supplied nonces and
    /// a replay window instead. See `noise::Session`.
    pub fn supports_stateful_cipher(&self) -> (r: bool)
        ensures
            r == (self.reliable && self.ordered),
    {
        self.reliable && self.ordered
    }
}

#[derive(PartialEq, Eq, Debug)]
pub enum LinkDownReason {
    /// The peer closed cleanly.
    Closed,
    /// The transport failed: reset, timeout, interface went away.
    Transport(String),
    /// We closed it, because the protocol said to.
    Protocol(ErrorCode),
}

/// The model of a [`LinkDownReason`].
pub enum ReasonView {
    Closed,
    Transport(Seq<char>),
    Protocol(ErrorCode),
}

impl View for LinkDownReason {
    type V = ReasonView;

    open spec fn view(&self) -> ReasonView {
        match self {
            LinkDownReason::Closed => ReasonView::Closed,
            LinkDownReason::Transport(t) => ReasonView::Transport(t@),
            LinkDownReason::Protocol(c) => ReasonView::Protocol(*c),
        }
    }
}

impl Clone for LinkDownReason {
    fn clone(&self) -> (r: LinkDownReason)
        ensures
            r@ == self@,
    {
        match self {
            LinkDownReason::Closed => LinkDownReason::Closed,
            LinkDownReason::Transport(t) => LinkDownReason::Transport(t.clone()),
            LinkDownReason::Protocol(c) => LinkDownReason::Protocol(*c),
        }
    }
}

/// An id names the transport that made it, and the ids of one transport differ for as
/// many links as there are counters.
pub proof fn an_id_leads_back_to_its_transport(
    t: TransportId,
    n: u64,
    m: u64,
    a: LinkId,
    b: LinkId,
    back: TransportId,
)
    requires
        call_ensures(LinkId::new, (t, n), a),
        call_ensures(LinkId::new, (t, m), b),
        call_ensures(LinkId::transport, (a,), back),
        n < 0x1_0000_0000_0000,
        m < 0x1_0000_0000_0000,
    ensures
        back == t,
        a == b <==> n == m,
{
    link_id_names_its_transport(t.0, n);
}

/// An address that is noted replaces what its transport had and nothing else; it is
/// forgotten where it is the one named, and a newer one is not.
pub proof fn each_transport_has_its_own_address(
    r: &mut Routes,
    t: TransportId,
    addr: String,
    nothing: (),
    q: &mut Routes,
    named: &str,
    gone: bool,
    other: u16,
)
    requires
        call_ensures(Routes::set, (r, t, addr), nothing),
        call_ensures(Routes::forget, (q, t, named), gone),
        old(q)@ == final(r)@,
    ensures
        final(r)@.dom().contains(t.0),
        final(r)@[t.0] == addr@,
        other != t.0 ==> (final(r)@.dom().contains(other) <==> old(r)@.dom().contains(other))
            && final(r)@[other] == old(r)@[other],
        gone <==> named@ == addr@,
        gone ==> !final(q)@.dom().contains(t.0),
        !gone ==> final(q)@ == old(q)@,
        other != t.0 ==> (final(q)@.dom().contains(other) <==> old(q)@.dom().contains(other)),
{
}

/// What another set of routes knows wins over what was known, and what only one of them
/// knows is kept.
pub proof fn newer_routes_win(
    r: &mut Routes,
    other: Routes,
    nothing: (),
    t: u16,
    empty: Routes,
    none: bool,
)
    requires
        call_ensures(Routes::merge_from, (r, &other), nothing),
        call_ensures(Routes::new, (), empty),
        call_ensures(Routes::is_empty, (&empty,), none),
    ensures
        other@.dom().contains(t) ==> final(r)@.dom().contains(t) && final(r)@[t] == other@[t],
        !other@.dom().contains(t) ==> (final(r)@.dom().contains(t) <==> old(r)@.dom().contains(t)),
        !other@.dom().contains(t) && old(r)@.dom().contains(t) ==> final(r)@[t] == old(r)@[t],
        none,
{
}

/// A link over a network or within a machine takes whole messages of a mebibyte and opens
/// side channels; one over Bluetooth takes sixteen kibibytes and opens none. All of them
/// keep order and lose nothing, so that a session on them may count for itself.
pub proof fn what_each_link_can_do(
    t: TransportId,
    lan: LinkAttrs,
    ble: LinkAttrs,
    local: LinkAttrs,
    any: LinkAttrs,
    counts: bool,
)
    requires
        call_ensures(LinkAttrs::tcp_lan, (t,), lan),
        call_ensures(LinkAttrs::ble, (t,), ble),
        call_ensures(LinkAttrs::loopback, (t,), local),
        call_ensures(LinkAttrs::supports_stateful_cipher, (&any,), counts),
    ensures
        lan.transport == t && ble.transport == t && local.transport == t,
        lan.max_message == 1_048_576 && local.max_message == 1_048_576 && ble.max_message == 16_384,
        lan.bulk == BulkSupport::SideChannel && local.bulk == BulkSupport::SideChannel && ble.bulk
            == BulkSupport::Unsupported,
        lan.reliable && lan.ordered && ble.reliable && ble.ordered && local.reliable
            && local.ordered,
        lan.kind is TcpLan && ble.kind is BleGatt && local.kind is UnixLoopback,
        lan.latency == LatencyClass::Lan && ble.latency == LatencyClass::Ble && local.latency
            == LatencyClass::Loopback,
        counts <==> any.reliable && any.ordered,
{
}

} // verus!
