//! Putting a core together.
use crate::config::CoreConfig;
use crate::engine::model::{PeerV, State};
use crate::engine::{config_view, Core, Known};
use crate::noise::Identity;
use crate::peer::{PeerRecord, RecordView};
use crate::plugin::{manifests_of, names, ManifestView, PluginManifest, Registered};
use crate::plugins::stock::{Kept, Stock};
use crate::table::{ascending, Table};
use crate::text::texts;
use crate::vocab::{EffectKind, EffectSet};
use crate::wire::{called, recognised, Wire};
use vstd::prelude::*;

verus! {

/// Explicit, compile-time plugin registration; not `inventory`/`ctor`/`linkme`.
/// Static linking into an iOS binary with dead-strip enabled removes
/// constructor-registered symbols, silently leaving zero plugins.
pub struct CoreBuilder<W: Wire> {
    wire: W,
    identity: Identity,
    config: CoreConfig,
    effects: Vec<EffectKind>,
    plugins: Vec<Registered>,
    peers: Vec<PeerRecord>,
}

/// The model of a [`CoreBuilder`].
pub struct Plan {
    pub own_secret: Seq<u8>,
    pub own_key: Seq<u8>,
    pub config: crate::engine::model::ConfigV,
    pub effects: Seq<EffectKind>,
    pub manifests: Seq<ManifestView>,
    pub peers: Seq<RecordView>,
}

impl<W: Wire> View for CoreBuilder<W> {
    type V = Plan;

    closed spec fn view(&self) -> Plan {
        Plan {
            own_secret: self.identity.secret(),
            own_key: self.identity.key(),
            config: config_view(self.config),
            effects: self.effects@,
            manifests: manifests_of(self.plugins@),
            peers: self.peers@.map_values(|r: PeerRecord| r@),
        }
    }
}

impl ManifestView {
    /// Whether a host with these effects can serve the plugin's requests.
    pub open spec fn served_by(self, effects: Seq<EffectKind>) -> bool {
        forall|i: int|
            0 <= i < self.requires_effects.len() ==> effects.contains(
                #[trigger] self.requires_effects[i],
            )
    }
}

impl Plan {
    /// Every capability some plugin may send.
    pub open spec fn outgoing(self, n: int) -> Set<Seq<char>>
        decreases n,
    {
        if n <= 0 {
            Set::empty()
        } else {
            self.outgoing(n - 1) + self.manifests[n - 1].outgoing.to_set()
        }
    }

    /// Every capability some plugin can handle.
    pub open spec fn incoming(self, n: int) -> Set<Seq<char>>
        decreases n,
    {
        if n <= 0 {
            Set::empty()
        } else {
            self.incoming(n - 1) + self.manifests[n - 1].incoming.to_set()
        }
    }

    /// Every capability some plugin can handle and this host can carry out.
    pub open spec fn served(self, n: int) -> Set<Seq<char>>
        decreases n,
    {
        if n <= 0 {
            Set::empty()
        } else if self.manifests[n - 1].served_by(self.effects) {
            self.served(n - 1) + self.manifests[n - 1].incoming.to_set()
        } else {
            self.served(n - 1)
        }
    }

    /// The peers of the kept records whose key is one, under the ids and
    /// fingerprints of their keys; a later record replaces an earlier one.
    pub open spec fn restored(
        self,
        known_as: Seq<(Seq<char>, Seq<char>)>,
        n: int,
    ) -> Map<Seq<char>, PeerV>
        decreases n,
    {
        if n <= 0 {
            Map::empty()
        } else if self.peers[n - 1].public_key.len() == 32 {
            self.restored(known_as, n - 1).insert(
                known_as[n - 1].0,
                PeerV { record: self.peers[n - 1], fingerprint: known_as[n - 1].1 },
            )
        } else {
            self.restored(known_as, n - 1)
        }
    }

    /// Whether the devices of the kept records may be known as this.
    pub open spec fn knows<W: Wire>(self, wire: W, known_as: Seq<(Seq<char>, Seq<char>)>) -> bool {
        &&& known_as.len() == self.peers.len()
        &&& forall|i: int|
            0 <= i < known_as.len() && (#[trigger] self.peers[i]).public_key.len() == 32 ==> called(
                wire,
                self.peers[i].public_key,
                known_as[i].0,
            ) && recognised(wire, self.peers[i].public_key, known_as[i].1)
    }

    /// Whether a core is the one that a plan describes, where `s` has just been
    /// built.
    pub open spec fn built<W: Wire>(self, s: State<W>) -> bool {
        let n = self.manifests.len() as int;
        &&& s.own_secret == self.own_secret
        &&& s.own_key == self.own_key
        &&& s.config == self.config
        &&& s.manifests == self.manifests
        &&& s.plugins.len() == self.manifests.len()
        &&& s.caps_out == ascending::<String>(self.outgoing(n))
        &&& s.caps_in == ascending::<String>(self.incoming(n))
        &&& s.caps_served == ascending::<String>(self.served(n))
        &&& forall|k: EffectKind| s.serves.has(k) <==> self.effects.contains(k)
        &&& s.peers.dom().finite()
        &&& s.links == Map::<u64, crate::engine::model::LinkV>::empty()
        &&& s.addrs == Map::<Seq<char>, Map<u16, Seq<char>>>::empty()
        &&& s.seen == Map::<Seq<char>, crate::engine::model::SightingV>::empty()
        &&& s.pairing is None
        &&& s.pair_quiet_until == 0
        &&& s.pair_dials == Map::<u64, (u16, Seq<char>)>::empty()
        &&& s.peer_dials == Map::<u64, (u64, crate::engine::model::DialV)>::empty()
        &&& s.dial_trouble == Map::<Seq<char>, Seq<char>>::empty()
        &&& s.reconnect_at is None
        &&& s.effect_owner == Map::<u64, usize>::empty()
        &&& s.bulk_owner == Map::<u64, usize>::empty()
        &&& s.bulk_wait == Map::<u64, u64>::empty()
        &&& s.next_transfer == 0
        &&& s.next_token == 0
        &&& s.next_dial == 0
        &&& s.next_msg_id == 0
        &&& s.wall_ms == 0
        &&& s.plugin_wake is None
    }
}

fn add_names(set: &mut Table<String, bool>, list: &Vec<&'static str>)
    ensures
        final(set)@.dom() == old(set)@.dom() + names(list@).to_set(),
{
    let ghost all = names(list@);
    assert(old(set)@.dom() + all.take(0).to_set() =~= old(set)@.dom());
    for i in 0..list.len()
        invariant
            all == names(list@),
            set@.dom() == old(set)@.dom() + all.take(i as int).to_set(),
    {
        set.insert(list[i].to_owned(), true);
        proof {
            let longer = all.take(i + 1);
            let shorter = all.take(i as int);
            assert(longer =~= shorter.push(all[i as int]));
            assert forall|c: Seq<char>| longer.to_set().contains(c) <==> shorter.to_set().contains(c) || c
                == all[i as int] by {
                if shorter.contains(c) {
                    let j = choose|j: int| 0 <= j < shorter.len() && shorter[j] == c;
                    assert(longer[j] == c);
                }
                assert(longer[i as int] == all[i as int]);
                if longer.contains(c) && c != all[i as int] {
                    let j = choose|j: int| 0 <= j < longer.len() && longer[j] == c;
                    assert(shorter[j] == c);
                }
            }
            assert(set@.dom() =~= old(set)@.dom() + longer.to_set());
        }
    }
    assert(all.take(all.len() as int) =~= all);
}

fn in_order(set: &Table<String, bool>) -> (r: Vec<String>)
    ensures
        texts(r@) == ascending::<String>(set@.dom()),
{
    let mut out: Vec<String> = Vec::new();
    let n = set.len();
    for i in 0..n
        invariant
            n == set.keys().len(),
            out.len() == i,
            forall|k: int| 0 <= k < i ==> (#[trigger] out@[k])@ == set.keys()[k],
    {
        out.push(set.key_at(i).clone());
    }
    assert(texts(out@) =~= set.keys());
    out
}

fn can_serve(effects: &Vec<EffectKind>, m: &PluginManifest) -> (r: bool)
    ensures
        r == m@.served_by(effects@),
{
    for i in 0..m.requires_effects.len()
        invariant
            forall|k: int|
                0 <= k < i ==> effects@.contains(#[trigger] m@.requires_effects[k]),
    {
        let mut found = false;
        for j in 0..effects.len()
            invariant
                i < m.requires_effects@.len(),
                found ==> effects@.contains(m.requires_effects@[i as int]),
                !found ==> forall|k: int|
                    0 <= k < j ==> effects@[k] != m.requires_effects@[i as int],
        {
            if effects[j] == m.requires_effects[i] {
                found = true;
            }
        }
        if !found {
            assert(!effects@.contains(m@.requires_effects[i as int]));
            return false;
        }
    }
    true
}

impl<W: Wire> CoreBuilder<W> {
    /// Where the wire format's own computations are asked for.
    pub closed spec fn line(&self) -> W {
        self.wire
    }

    /// The plugins registered so far, in order.
    pub closed spec fn registered(&self) -> Seq<Registered> {
        self.plugins@
    }

    pub fn new(identity: Identity, config: CoreConfig, wire: W) -> (b: CoreBuilder<W>)
        ensures
            b.line() == wire,
            b@.own_secret == identity.secret(),
            b@.own_key == identity.key(),
            b@.config == config_view(config),
            b@.effects == Seq::<EffectKind>::empty(),
            b@.manifests == Seq::<ManifestView>::empty(),
            b.registered() == Seq::<Registered>::empty(),
            b@.peers == Seq::<RecordView>::empty(),
    {
        let b = CoreBuilder {
            wire,
            identity,
            config,
            effects: Vec::new(),
            plugins: Vec::new(),
            peers: Vec::new(),
        };
        assert(b@.manifests =~= Seq::<ManifestView>::empty());
        assert(b@.peers =~= Seq::<RecordView>::empty());
        b
    }

    /// Declare which effect kinds this host can actually carry out.
    pub fn effects(self, kinds: Vec<EffectKind>) -> (b: CoreBuilder<W>)
        ensures
            b.line() == self.line(),
            b.registered() == self.registered(),
            b@ == (Plan { effects: self@.effects + kinds@, ..self@ }),
    {
        let mut b = self;
        let mut kinds = kinds;
        b.effects.append(&mut kinds);
        b
    }

    /// Register a plugin, after those that are.
    pub fn plugin<P: Kept>(self, p: P) -> (b: CoreBuilder<W>)
        ensures
            b.line() == self.line(),
            exists|m: PluginManifest, plugin: Stock|
                #[trigger] call_ensures(P::manifest, (&p,), m) && #[trigger] call_ensures(
                    P::kept,
                    (p,),
                    plugin,
                ) && b.registered() == self.registered().push(Registered { plugin, manifest: m })
                    && b@ == (Plan { manifests: self@.manifests.push(m@), ..self@ }),
    {
        let ghost before = self@;
        let mut b = self;
        let manifest = p.manifest();
        let ghost declared = manifest;
        assert(call_ensures(P::manifest, (&p,), declared));
        let plugin = p.kept();
        let ghost kept = plugin;
        assert(call_ensures(P::kept, (p,), kept));
        b.plugins.push(Registered { plugin, manifest });
        assert(b@.manifests =~= before.manifests.push(declared@));
        b
    }

    /// Restore peers the host loaded from storage.
    pub fn restore(self, peers: Vec<PeerRecord>) -> (b: CoreBuilder<W>)
        ensures
            b.line() == self.line(),
            b.registered() == self.registered(),
            b@ == (Plan { peers: self@.peers + peers@.map_values(|r: PeerRecord| r@), ..self@ }),
    {
        let mut b = self;
        let ghost before = b.peers@;
        let ghost added = peers@;
        let mut peers = peers;
        b.peers.append(&mut peers);
        assert(b@.peers =~= before.map_values(|r: PeerRecord| r@) + added.map_values(
            |r: PeerRecord| r@,
        ));
        b
    }

    /// The peers of the kept records.
    fn known(wire: &W, peers: Vec<PeerRecord>, Ghost(plan): Ghost<Plan>) -> (r: (
        Table<String, Known>,
        Ghost<Seq<(Seq<char>, Seq<char>)>>,
    ))
        requires
            plan.peers == peers@.map_values(|r: PeerRecord| r@),
        ensures
            plan.knows(*wire, r.1@),
            r.0@ == plan.restored(r.1@, plan.peers.len() as int),
    {
        let mut out: Table<String, Known> = Table::new();
        let ghost mut known_as: Seq<(Seq<char>, Seq<char>)> = Seq::empty();
        for i in 0..peers.len()
            invariant
                plan.peers == peers@.map_values(|r: PeerRecord| r@),
                known_as.len() == i,
                forall|k: int|
                    0 <= k < i && (#[trigger] plan.peers[k]).public_key.len() == 32 ==> called(
                        *wire,
                        plan.peers[k].public_key,
                        known_as[k].0,
                    ) && recognised(*wire, plan.peers[k].public_key, known_as[k].1),
                out@ == plan.restored(known_as, i as int),
        {
            let rec = peers[i].clone();
            let ghost before = known_as;
            proof {
                assert(plan.peers[i as int] == rec@);
            }
            match (rec.id(wire), rec.fingerprint(wire)) {
                (Some(id), Some(fingerprint)) => {
                    proof {
                        known_as = known_as.push((id@, fingerprint@));
                    }
                    out.insert(id.text(), Known { record: rec, fingerprint });
                },
                _ => {
                    proof {
                        known_as = known_as.push((Seq::empty(), Seq::empty()));
                    }
                },
            }
            proof {
                restored_stays(plan, before, known_as, i as int);
            }
        }
        (out, Ghost(known_as))
    }

    pub fn build(self) -> (core: Core<W>)
        ensures
            self@.built(core@),
            core@.plugins == self.registered(),
            core.line() == self.line(),
            called(self.line(), core@.own_key, core@.own_id),
            recognised(self.line(), core@.own_key, core@.own_fp),
            exists|known_as: Seq<(Seq<char>, Seq<char>)>|
                self@.knows(self.line(), known_as) && core@.peers == #[trigger] self@.restored(
                    known_as,
                    self@.peers.len() as int,
                ),
    {
        let ghost plan = self@;
        let CoreBuilder { wire, identity, config, effects, plugins, peers } = self;
        let mut caps_out: Table<String, bool> = Table::new();
        let mut caps_in: Table<String, bool> = Table::new();
        let mut caps_served: Table<String, bool> = Table::new();
        proof {
            assert(caps_out@.dom() =~= plan.outgoing(0));
            assert(caps_in@.dom() =~= plan.incoming(0));
            assert(caps_served@.dom() =~= plan.served(0));
        }
        for i in 0..plugins.len()
            invariant
                plan.manifests == manifests_of(plugins@),
                plan.effects == effects@,
                caps_out@.dom() == plan.outgoing(i as int),
                caps_in@.dom() == plan.incoming(i as int),
                caps_served@.dom() == plan.served(i as int),
        {
            let m = &plugins[i].manifest;
            assert(plan.manifests[i as int] == m@);
            // Advertised both ways regardless of `requires_effects`: being unable to
            // serve a capability isn't being unable to use it, and a reply
            // shares the request's capability. Servability is found
            // separately, via connect-time announcements and `not_allowed`.
            if can_serve(&effects, m) {
                add_names(&mut caps_served, &m.incoming);
            }
            add_names(&mut caps_out, &m.outgoing);
            add_names(&mut caps_in, &m.incoming);
        }
        let (known, known_as) = Self::known(&wire, peers, Ghost(plan));
        let id = identity.device_id(&wire);
        let fp = identity.fingerprint(&wire);
        let serves = EffectSet::new(&effects);
        let core = Core {
            wire,
            identity,
            id,
            fp,
            config,
            peers: known,
            links: Table::new(),
            addrs: Table::new(),
            seen: Table::new(),
            pairing: None,
            pair_quiet_until: 0,
            pending_pair_dials: Table::new(),
            pending_peer_dials: Table::new(),
            dial_trouble: Table::new(),
            reconnect_at: None,
            plugins,
            effect_owner: Table::new(),
            bulk_owner: Table::new(),
            next_transfer: 0,
            bulk_wait: Table::new(),
            caps_out: in_order(&caps_out),
            caps_in: in_order(&caps_in),
            caps_served: in_order(&caps_served),
            serves,
            next_token: 0,
            next_dial: 0,
            next_msg_id: 0,
            wall_ms: 0,
            plugin_wake: None,
        };
        assert(core@.peers == plan.restored(known_as@, plan.peers.len() as int));
        proof {
            restored_is_finite(plan, known_as@, plan.peers.len() as int);
        }
        core
    }
}

/// No more peers are restored than there are records.
proof fn restored_is_finite(plan: Plan, known_as: Seq<(Seq<char>, Seq<char>)>, n: int)
    ensures
        plan.restored(known_as, n).dom().finite(),
    decreases n,
{
    if n > 0 {
        restored_is_finite(plan, known_as, n - 1);
    }
}

/// What a later key is known as does not matter to earlier records.
proof fn restored_stays(
    plan: Plan,
    a: Seq<(Seq<char>, Seq<char>)>,
    b: Seq<(Seq<char>, Seq<char>)>,
    n: int,
)
    requires
        n <= a.len() <= b.len(),
        forall|i: int| 0 <= i < n ==> a[i] == b[i],
    ensures
        plan.restored(a, n) == plan.restored(b, n),
    decreases n,
{
    if n > 0 {
        restored_stays(plan, a, b, n - 1);
    }
}

/// Nothing is served that is not also advertised as handled.
pub proof fn served_is_incoming(plan: Plan, n: int)
    ensures
        plan.served(n).subset_of(plan.incoming(n)),
    decreases n,
{
    if n > 0 {
        served_is_incoming(plan, n - 1);
    }
}

/// What a core offers is what its plugins declare: a capability can be sent or handled
/// exactly where some plugin declares it so, and is served exactly where one of those
/// that handle it needs nothing the host cannot do.
pub proof fn what_is_offered_is_what_is_declared(plan: Plan, n: int, c: Seq<char>)
    requires
        0 <= n <= plan.manifests.len(),
    ensures
        plan.outgoing(n).contains(c) <==> exists|i: int|
            0 <= i < n && (#[trigger] plan.manifests[i]).outgoing.contains(c),
        plan.incoming(n).contains(c) <==> exists|i: int|
            0 <= i < n && (#[trigger] plan.manifests[i]).incoming.contains(c),
        plan.served(n).contains(c) <==> exists|i: int|
            0 <= i < n && (#[trigger] plan.manifests[i]).incoming.contains(c) && forall|k: int|
                0 <= k < plan.manifests[i].requires_effects.len() ==> plan.effects.contains(
                    #[trigger] plan.manifests[i].requires_effects[k],
                ),
        plan.outgoing(n).finite(),
        plan.incoming(n).finite(),
        plan.served(n).finite(),
    decreases n,
{
    if n > 0 {
        what_is_offered_is_what_is_declared(plan, n - 1, c);
        let m = plan.manifests[n - 1];
        vstd::seq_lib::seq_to_set_is_finite(m.outgoing);
        vstd::seq_lib::seq_to_set_is_finite(m.incoming);
    }
}

/// A core that has just been built offers what its plugins declare, once each; knows
/// every device it has a record of, by what its key is known as; and has reached nobody,
/// seen nobody and promised nothing.
pub proof fn a_new_core_is_as_planned<W: Wire>(
    b: CoreBuilder<W>,
    core: Core<W>,
    c: Seq<char>,
    k: EffectKind,
)
    requires
        call_ensures(CoreBuilder::<W>::build, (b,), core),
    ensures
        core@.caps_out.contains(c) <==> exists|i: int|
            0 <= i < b@.manifests.len() && (#[trigger] b@.manifests[i]).outgoing.contains(c),
        core@.caps_in.contains(c) <==> exists|i: int|
            0 <= i < b@.manifests.len() && (#[trigger] b@.manifests[i]).incoming.contains(c),
        core@.caps_served.contains(c) ==> core@.caps_in.contains(c),
        core@.serves.has(k) <==> b@.effects.contains(k),
        core@.plugins == b.registered(),
        core@.config == b@.config,
        core@.own_key == b@.own_key,
        core@.own_secret == b@.own_secret,
        called(b.line(), b@.own_key, core@.own_id),
        recognised(b.line(), b@.own_key, core@.own_fp),
        core@.links.dom().is_empty(),
        core@.seen.dom().is_empty(),
        core@.pairing is None,
        core@.peer_dials.dom().is_empty(),
        core@.pair_dials.dom().is_empty(),
        core@.reconnect_at is None,
{
    let n = b@.manifests.len() as int;
    what_is_offered_is_what_is_declared(b@, n, c);
    served_is_incoming(b@, n);
    crate::table::each_is_listed_once::<String>(b@.outgoing(n));
    crate::table::each_is_listed_once::<String>(b@.incoming(n));
    crate::table::each_is_listed_once::<String>(b@.served(n));
}

/// Every record whose key is one is a peer again, under the id and the fingerprint of its
/// key, unless a later record has the same id; and every peer comes of a record.
pub proof fn every_record_is_a_peer_again(
    plan: Plan,
    known_as: Seq<(Seq<char>, Seq<char>)>,
    n: int,
    i: int,
    id: Seq<char>,
)
    requires
        0 <= n <= plan.peers.len(),
        plan.peers.len() == known_as.len(),
    ensures
        0 <= i < n && plan.peers[i].public_key.len() == 32 ==> plan.restored(
            known_as,
            n,
        ).dom().contains(known_as[i].0),
        0 <= i < n && plan.peers[i].public_key.len() == 32 && (forall|j: int|
            i < j < n ==> (#[trigger] known_as[j]).0 != known_as[i].0) ==> plan.restored(
            known_as,
            n,
        )[known_as[i].0].record == plan.peers[i] && plan.restored(
            known_as,
            n,
        )[known_as[i].0].fingerprint == known_as[i].1,
        plan.restored(known_as, n).dom().contains(id) ==> exists|j: int|
            0 <= j < n && (#[trigger] known_as[j]).0 == id && plan.restored(known_as, n)[id].record
                == plan.peers[j] && plan.peers[j].public_key.len() == 32,
    decreases n,
{
    if n > 0 {
        every_record_is_a_peer_again(plan, known_as, n - 1, i, id);
        assert(known_as[n - 1].0 == known_as[n - 1].0);
    }
}

/// Each step of putting a core together adds to what was there and changes nothing else.
pub proof fn building_only_adds<W: Wire>(
    b: CoreBuilder<W>,
    kinds: Vec<EffectKind>,
    with_effects: CoreBuilder<W>,
    peers: Vec<PeerRecord>,
    with_peers: CoreBuilder<W>,
    k: EffectKind,
    i: int,
)
    requires
        call_ensures(CoreBuilder::<W>::effects, (b, kinds), with_effects),
        call_ensures(CoreBuilder::<W>::restore, (b, peers), with_peers),
    ensures
        with_effects@.effects.contains(k) <==> b@.effects.contains(k) || kinds@.contains(k),
        with_effects@.peers == b@.peers,
        with_effects.registered() == b.registered(),
        with_peers@.peers.len() == b@.peers.len() + peers.len(),
        0 <= i < peers.len() ==> with_peers@.peers[b@.peers.len() + i] == peers@[i]@,
        0 <= i < b@.peers.len() ==> with_peers@.peers[i] == b@.peers[i],
        with_peers@.effects == b@.effects,
        with_peers.registered() == b.registered(),
{
    let all = b@.effects + kinds@;
    if b@.effects.contains(k) {
        let j = choose|j: int| 0 <= j < b@.effects.len() && b@.effects[j] == k;
        assert(all[j] == k);
    }
    if kinds@.contains(k) {
        let j = choose|j: int| 0 <= j < kinds@.len() && kinds@[j] == k;
        assert(all[b@.effects.len() + j] == k);
    }
    if all.contains(k) {
        let j = choose|j: int| 0 <= j < all.len() && all[j] == k;
        if j < b@.effects.len() {
            assert(b@.effects[j] == k);
        } else {
            assert(kinds@[j - b@.effects.len()] == k);
        }
    }
}

} // verus!
