//! The facade a host in another language sees: records and numbers in, records
//! and numbers out.
//!
//! Synchronous only. Run actions through one serial executor; never call
//! `handle()` from inside an action handler, or the host deadlocks itself.
pub mod bodies;
pub mod bulk;
pub mod types;

use crate::body::value_of;
use crate::config::CoreConfig;
use crate::engine::asking::{
    lives, may_run, may_wake, ours, the_first_lists_bind_for_life, DayV,
};
use crate::engine::builder::{CoreBuilder, Plan};
use crate::engine::model::{best, ConfigV, State};
use crate::engine::{config_view, Core};
use crate::ffi::types::{
    actions_of, kind_of, state_of, FfiEffectKind, FfiError, FfiErrorView, FfiEvent, FfiOutcome,
    FfiPeerState, FfiTransportKind,
};
use crate::ids::{DeviceId, Fingerprint};
use crate::link::{DEAD_PEER_MS, DIAL_TIMEOUT_MS};
use crate::noise::{x25519_public, Identity};
use crate::peer::{PeerRecord, PeerState, RecordView};
use crate::plugin::{both_ways, ManifestView, Registered};
use crate::plugins::clipboard::{ClipView, ClipboardPlugin, Directions};
use crate::plugins::command::{CommandPlugin, RunnerView};
use crate::plugins::media::{
    acted, landed, verb, MediaCommand, MediaPlugin, MediaState, RemoteView, StateView,
};
use crate::plugins::ping::PingPlugin;
use crate::plugins::session::{SessionPlugin, SessionView};
use crate::plugins::share::{SharePlugin, ShareView};
use crate::plugins::stock::Stock;
use crate::plugins::touchpad::{PadView, TouchpadPlugin};
use crate::plugins::wol::{ConfigView, WakerView, WolConfig, WolPlugin};
use crate::text::{copy_texts, opt_text, texts};
use crate::vocab::{ActionView, EffectKind, EffectView, Event, Now};
use crate::wire::{called, recognised, Wire};
use vstd::prelude::*;

verus! {

#[derive(Clone, Debug)]
pub struct FfiConfig {
    pub name: String,
    pub platform: String,
    pub pairing_window_ms: u64,
    pub handshake_timeout_ms: u64,
}

impl Default for FfiConfig {
    fn default() -> (c: FfiConfig)
        ensures
            c.name@ == "acrylius"@,
            c.platform@ == "ios"@,
            c.pairing_window_ms == 120_000,
            c.handshake_timeout_ms == 15_000,
    {
        let d = CoreConfig::default();
        FfiConfig {
            name: d.name,
            platform: "ios".to_owned(),
            pairing_window_ms: d.pairing_window_ms,
            handshake_timeout_ms: d.handshake_timeout_ms,
        }
    }
}

/// Sensible defaults, so a host does not have to invent a pairing window.
pub fn default_config(name: String, platform: String) -> (c: FfiConfig)
    ensures
        c == (FfiConfig {
            name,
            platform,
            pairing_window_ms: 120_000,
            handshake_timeout_ms: 15_000,
        }),
{
    let d = FfiConfig::default();
    FfiConfig {
        name,
        platform,
        pairing_window_ms: d.pairing_window_ms,
        handshake_timeout_ms: d.handshake_timeout_ms,
    }
}

/// A fresh static identity, as raw private key bytes.
///
/// Store in Keychain with `WhenUnlockedThisDeviceOnly`, no biometric ACL:
/// biometrics belong on the action, not the key. Fallible rather than
/// returning empty bytes on failure, which would get persisted as a
/// permanent bad identity.
pub fn generate_identity() -> (r: Result<Vec<u8>, FfiError>)
    ensures
        r matches Ok(k) ==> k@.len() == 32,
        r matches Err(e) ==> e@ is Effect,
{
    match Identity::generate() {
        Ok(i) => Ok(crate::text::copy_bytes(i.private().as_slice())),
        Err(e) => Err(FfiError::Effect { detail: e.message() }),
    }
}

/// A device's public fingerprint, from its private key. Lets a host show its
/// own identity before building a core.
pub fn fingerprint_of<W: Wire>(wire: &W, identity_key: Vec<u8>) -> (r: Result<String, FfiError>)
    ensures
        match r {
            Ok(t) => identity_key@.len() == 32 && recognised(
                *wire,
                x25519_public(identity_key@),
                t@,
            ),
            Err(e) => identity_key@.len() != 32 && e@ == not_a_key(),
        },
{
    match identity(identity_key.as_slice()) {
        Ok(id) => Ok(id.fingerprint(wire).text()),
        Err(e) => Err(e),
    }
}

/// What is said of bytes that are no private key.
pub open spec fn not_a_key() -> FfiErrorView {
    FfiErrorView::BadInput("an identity key is 32 bytes"@)
}

/// The identity that a stored private key is.
pub fn identity(key: &[u8]) -> (r: Result<Identity, FfiError>)
    ensures
        match r {
            Ok(id) => key@.len() == 32 && id.wf() && id.secret() == key@,
            Err(e) => key@.len() != 32 && e@ == not_a_key(),
        },
{
    match crate::peer::key_array(key) {
        Some(k) => Ok(Identity::from_private(k)),
        None => Err(FfiError::BadInput { detail: "an identity key is 32 bytes".to_owned() }),
    }
}

/// A paired device, for the UI.
#[derive(Clone, Debug)]
pub struct FfiPeer {
    pub device_id: String,
    pub name: String,
    pub platform: String,
    pub fingerprint: String,
    /// Reachable, being reached, or not.
    ///
    /// Three states rather than a bool: a peer mid-handshake and a peer that
    /// gave up look identical through `reachable` alone.
    pub state: FfiPeerState,
    /// What is carrying the session, when one is up. `None` means
    /// unreachable, not unknown.
    pub transport: Option<FfiTransportKind>,
    /// Why the last attempt to reach it ended without a session.
    ///
    /// Only set alongside `Unreachable`. Read at draw time, not delivered as
    /// an event, so a peer reconnecting normally doesn't flicker an error.
    pub trouble: Option<String>,
}

impl FfiPeer {
    /// Whether this is how a host is told of the peer with this record, which
    /// the core `s` knows under the id shown.
    pub open spec fn shows<W: Wire>(self, s: State<W>, rec: RecordView) -> bool {
        let id = self.device_id@;
        &&& self.name@ == rec.name
        &&& self.platform@ == rec.platform
        &&& self.state == state_of(s.peer_state(id))
        &&& match best(s.links, id) {
            Some(l) => self.transport matches Some(k) && k.stands_for(s.links[l]->Up_0.kind),
            None => self.transport is None,
        }
        &&& opt_text(self.trouble) == if s.peer_state(id) == PeerState::Unreachable
            && s.dial_trouble.dom().contains(id) {
            Some(s.dial_trouble[id])
        } else {
            None
        }
    }

    /// Whether the id and the fingerprint shown may be those of the record's key.
    pub open spec fn names<W: Wire>(self, wire: W, rec: RecordView) -> bool {
        &&& called(wire, rec.public_key, self.device_id@)
        &&& recognised(wire, rec.public_key, self.fingerprint@)
    }

    /// A peer as a host is told of it, given what its key is known by.
    pub fn of<W: Wire>(
        core: &Core<W>,
        rec: &PeerRecord,
        id: DeviceId,
        fp: Fingerprint,
    ) -> (r: FfiPeer)
        ensures
            r.device_id@ == id@,
            r.fingerprint@ == fp@,
            r.shows(core@, rec@),
    {
        let state = core.peer_state(&id);
        // Only surfaced while unreachable: a stale reason is worse than none.
        let trouble = match state {
            PeerState::Unreachable => match core.dial_trouble(&id) {
                Some(t) => Some(t.to_owned()),
                None => None,
            },
            _ => None,
        };
        FfiPeer {
            device_id: id.text(),
            name: rec.name.clone(),
            platform: rec.platform.clone(),
            fingerprint: fp.text(),
            state: FfiPeerState::from(state),
            transport: match core.transport_for(&id) {
                Some(k) => Some(FfiTransportKind::from(k)),
                None => None,
            },
            trouble,
        }
    }
}

/// The records among the blobs a host kept, in their order; one that cannot be
/// read is left out.
pub open spec fn records_in(blobs: Seq<Vec<u8>>) -> Seq<RecordView>
    decreases blobs.len(),
{
    if blobs.len() == 0 {
        Seq::empty()
    } else {
        match value_of::<PeerRecord>(blobs.last()@) {
            Some(r) => records_in(blobs.drop_last()).push(r),
            None => records_in(blobs.drop_last()),
        }
    }
}

/// What every host of this kind registers, in order.
pub open spec fn registered() -> Seq<ManifestView> {
    seq![
        both_ways("org.acrylius.ping"@, crate::plugins::ping::CAP@, Seq::empty()),
        both_ways(
            "org.acrylius.session"@,
            crate::plugins::session::CAP@,
            seq![EffectKind::Session],
        ),
        both_ways("org.acrylius.wol"@, crate::plugins::wol::CAP@, seq![EffectKind::Wol]),
        both_ways(
            "org.acrylius.clipboard"@,
            crate::plugins::clipboard::CAP@,
            seq![EffectKind::Clipboard],
        ),
        both_ways(
            "org.acrylius.command"@,
            crate::plugins::command::CAP@,
            seq![EffectKind::Command],
        ),
        both_ways("org.acrylius.media"@, crate::plugins::media::CAP@, seq![EffectKind::Media]),
        both_ways("org.acrylius.share"@, crate::plugins::share::CAP@, seq![EffectKind::Share]),
        both_ways(
            "org.acrylius.touchpad"@,
            crate::plugins::touchpad::CAP@,
            seq![EffectKind::Touchpad],
        ),
    ]
}

/// How the plugins of a phone start: all of them afresh. It never volunteers its
/// pasteboard, relays for nobody and runs nothing on request.
pub open spec fn start_as_a_phone(plugins: Seq<Registered>) -> bool {
    &&& plugins.len() == 8
    &&& plugins[0].plugin matches Stock::Ping(p) && p.pongs == 0
    &&& plugins[1].plugin matches Stock::Session(p) && p@ == (SessionView {
        pending: Map::empty(),
        connected: Seq::empty(),
        last: None,
    })
    &&& plugins[2].plugin matches Stock::Wol(p) && p@ == (WakerView {
        config: ConfigView {
            macs: Seq::empty(),
            broadcast: Seq::empty(),
            port: 0,
            last_ipv4: Seq::empty(),
        },
        allowlist: Seq::empty(),
        pending: Map::empty(),
    })
    &&& plugins[3].plugin matches Stock::Clipboard(p) && p@ == (ClipView {
        directions: Directions { send: false, receive: true },
        connected: Seq::empty(),
        last_local: None,
        last_remote: None,
        pending: Map::empty(),
    })
    &&& plugins[4].plugin matches Stock::Command(p) && p@ == (RunnerView {
        catalog: Seq::empty(),
        remote: Map::empty(),
        pending: Map::empty(),
    })
    &&& plugins[5].plugin matches Stock::Media(p) && p@ == (RemoteView {
        pending: Map::empty(),
        connected: Seq::empty(),
        last: None,
    })
    &&& plugins[6].plugin matches Stock::Share(p) && p@ == (ShareView {
        offered: Map::empty(),
        sending: Map::empty(),
    })
    &&& plugins[7].plugin matches Stock::Touchpad(p) && p@ == (PadView { order: 0, owner: None })
}

/// A phone runs no command and wakes no machine for anybody, however long it lives
/// and whatever arrives.
pub proof fn a_phone_runs_and_wakes_nothing<W: Wire>(
    states: Seq<State<W>>,
    days: Seq<DayV>,
    n: int,
    i: int,
)
    requires
        lives(states, days),
        start_as_a_phone(states[0].plugins),
        0 <= n < days.len(),
        0 <= i < days[n].out.len(),
    ensures
        !(days[n].out[i] matches ActionView::Effect { effect, .. } && (effect is RunCommand
            || effect is SendMagicPacket)),
{
    let plugins = states[0].plugins;
    assert(ours(plugins));
    the_first_lists_bind_for_life(states, days, n, i);
    match days[n].out[i] {
        ActionView::Effect { effect: EffectView::RunCommand { id }, .. } => {
            assert(!may_run(plugins, id));
        },
        ActionView::Effect { effect: EffectView::SendMagicPacket { macs, dests, port }, .. } => {
            assert(!may_wake(plugins, macs[0], dests, port));
        },
        _ => {},
    }
}

/// The core a host gets.
pub open spec fn plan_for(
    config: FfiConfig,
    identity_key: Seq<u8>,
    blobs: Seq<Vec<u8>>,
    effects: Seq<FfiEffectKind>,
) -> Plan {
    Plan {
        own_secret: identity_key,
        own_key: x25519_public(identity_key),
        config: config_for(config),
        effects: effects.map_values(|k: FfiEffectKind| kind_of(k)),
        manifests: registered(),
        peers: records_in(blobs),
    }
}

/// What a host's choices leave open is a default for a phone.
pub open spec fn config_for(config: FfiConfig) -> ConfigV {
    ConfigV {
        name: config.name@,
        platform: config.platform@,
        pairing_window_ms: config.pairing_window_ms,
        accept_pair_requests: true,
        pair_cooldown_ms: 30_000,
        pair_denied_cooldown_ms: 300_000,
        reconnect_every_ms: 10_000,
        handshake_timeout_ms: config.handshake_timeout_ms,
        dial_timeout_ms: (DIAL_TIMEOUT_MS * 2) as u64,
    }
}

fn core_config(config: FfiConfig) -> (c: CoreConfig)
    ensures
        config_view(c) == config_for(config),
{
    let d = CoreConfig::default();
    CoreConfig {
        name: config.name,
        platform: config.platform,
        pairing_window_ms: config.pairing_window_ms,
        handshake_timeout_ms: config.handshake_timeout_ms,
        // Not exposed to hosts: only a sensible default for a phone.
        reconnect_every_ms: d.reconnect_every_ms,
        // Backstop for a transport's own dial bound. See [`dial_timeout_ms`].
        dial_timeout_ms: d.dial_timeout_ms,
        // A phone is never dialled, so these just bound its own pairing
        // attempts.
        accept_pair_requests: d.accept_pair_requests,
        pair_cooldown_ms: d.pair_cooldown_ms,
        pair_denied_cooldown_ms: d.pair_denied_cooldown_ms,
    }
}

fn read_records(blobs: &Vec<Vec<u8>>) -> (r: Vec<PeerRecord>)
    ensures
        r@.map_values(|p: PeerRecord| p@) == records_in(blobs@),
{
    let mut out: Vec<PeerRecord> = Vec::new();
    assert(blobs@.take(0) =~= Seq::empty());
    assert(out@.map_values(|p: PeerRecord| p@) =~= records_in(blobs@.take(0)));
    for i in 0..blobs.len()
        invariant
            out@.map_values(|p: PeerRecord| p@) == records_in(blobs@.take(i as int)),
    {
        proof {
            assert(blobs@.take(i + 1).drop_last() =~= blobs@.take(i as int));
            assert(blobs@.take(i + 1).last() == blobs@[i as int]);
        }
        match PeerRecord::decode(blobs[i].as_slice()) {
            Some(p) => {
                let ghost before = out@.map_values(|p: PeerRecord| p@);
                out.push(p);
                assert(out@.map_values(|p: PeerRecord| p@) =~= before.push(p@));
            },
            None => {},
        }
    }
    assert(blobs@.take(blobs@.len() as int) =~= blobs@);
    out
}

fn effect_kinds(effects: &Vec<FfiEffectKind>) -> (r: Vec<EffectKind>)
    ensures
        r@ == effects@.map_values(|k: FfiEffectKind| kind_of(k)),
{
    let mut out: Vec<EffectKind> = Vec::new();
    for i in 0..effects.len()
        invariant
            out.len() == i,
            forall|k: int| 0 <= k < i ==> out@[k] == kind_of(effects@[k]),
    {
        out.push(EffectKind::from(effects[i]));
    }
    assert(out@ =~= effects@.map_values(|k: FfiEffectKind| kind_of(k)));
    out
}

/// A core, behind plain records.
pub struct AcryliusCore<W: Wire> {
    inner: Core<W>,
}

impl<W: Wire> View for AcryliusCore<W> {
    type V = State<W>;

    closed spec fn view(&self) -> State<W> {
        self.inner@
    }
}

/// What one call of `handle` came to, where `ev` is the event the host's was
/// read as.
pub open spec fn handled_as<W: Wire>(
    s: State<W>,
    monotonic_ms: u64,
    wall_ms: u64,
    ev: Event,
    next: State<W>,
    out: FfiOutcome,
) -> bool {
    exists|actions: Seq<ActionView>|
        (#[trigger] (State { wall_ms, ..s }).handled(monotonic_ms, ev, next, actions)) && out@
            == actions_of(actions)
}

/// What one call of `handle` came to, where the event's texts were read as `id`
/// and `fp`.
pub open spec fn answered<W: Wire>(
    s: State<W>,
    monotonic_ms: u64,
    wall_ms: u64,
    event: FfiEvent,
    id: Result<DeviceId, String>,
    fp: Option<Fingerprint>,
    next: State<W>,
    r: Result<FfiOutcome, FfiError>,
) -> bool {
    match r {
        Ok(out) => exists|ev: Event|
            event.read_as(id, fp, Ok(ev)) && #[trigger] handled_as(
                s,
                monotonic_ms,
                wall_ms,
                ev,
                next,
                out,
            ),
        Err(e) => event.read_as(id, fp, Err(e)) && next == s,
    }
}

impl<W: Wire> AcryliusCore<W> {
    /// Where the wire format's own computations are asked for.
    pub closed spec fn line(&self) -> W {
        self.inner.line()
    }

    /// Build a core.
    ///
    /// `effects` is what this host can actually carry out; a plugin with a
    /// missing effect still loads and can still send.
    ///
    /// `peers` are raw blobs from earlier `Persist` actions, in any order.
    /// One that fails to decode is skipped; see [`Self::restored_peers`].
    pub fn new(
        wire: W,
        config: FfiConfig,
        identity_key: Vec<u8>,
        peers: Vec<Vec<u8>>,
        effects: Vec<FfiEffectKind>,
    ) -> (r: Result<AcryliusCore<W>, FfiError>)
        ensures
            match r {
                Ok(c) => {
                    let plan = plan_for(config, identity_key@, peers@, effects@);
                    &&& identity_key@.len() == 32
                    &&& plan.built(c@)
                    &&& start_as_a_phone(c@.plugins)
                    &&& c.line() == wire
                    &&& called(wire, c@.own_key, c@.own_id)
                    &&& recognised(wire, c@.own_key, c@.own_fp)
                    &&& exists|known_as: Seq<(Seq<char>, Seq<char>)>|
                        plan.knows(wire, known_as) && c@.peers == #[trigger] plan.restored(
                            known_as,
                            plan.peers.len() as int,
                        )
                },
                Err(e) => identity_key@.len() != 32 && e@ == not_a_key(),
            },
    {
        let id = match identity(identity_key.as_slice()) {
            Ok(id) => id,
            Err(e) => {
                return Err(e);
            },
        };
        let ghost plan = plan_for(config, identity_key@, peers@, effects@);
        let records = read_records(&peers);
        let b = CoreBuilder::new(id, core_config(config), wire).effects(effect_kinds(&effects));
        let b = b.plugin(PingPlugin::default()).plugin(SessionPlugin::default());
        // Relays for nobody: sends magic packets itself; empty allowlist refuses relay use.
        let wol = WolPlugin::new(WolConfig::default(), Vec::new());
        assert(wol@.allowlist =~= Seq::<Seq<char>>::empty());
        let b = b.plugin(wol);
        let b = b.plugin(
            ClipboardPlugin::new(
                Directions {
                    // Never volunteers pasteboard contents: iOS 16+ prompts per read.
                    send: false,
                    receive: true,
                },
            ),
        );
        // Runs nothing on request; can still list/run what a peer offers.
        let command = CommandPlugin::new(Vec::new());
        assert(command@.catalog =~= Seq::empty());
        let b = b.plugin(command);
        // Drives a peer's players; doesn't offer its own.
        let b = b.plugin(MediaPlugin::default());
        // No Share effect registered: an offer gets an explicit refusal, not silence.
        let b = b.plugin(SharePlugin::default());
        // No Touchpad effect registered: a phone has none of its own to serve.
        let b = b.plugin(TouchpadPlugin::default());
        let b = b.restore(records);
        proof {
            assert(start_as_a_phone(b.registered()));
            assert(b@.manifests =~= plan.manifests);
            assert(b@.effects =~= plan.effects);
            assert(b@.peers =~= plan.peers);
            assert(b@ == plan);
        }
        Ok(AcryliusCore { inner: b.build() })
    }

    /// The single entry point.
    ///
    /// `monotonic_ms` drives deadlines and only moves forward. `wall_ms` is
    /// Unix-epoch millis, used only for the handshake timestamp peers compare
    /// against their own clock. Don't pass the same value for both, or it
    /// reads as a stale timestamp and gets refused.
    pub fn handle(&mut self, monotonic_ms: u64, wall_ms: u64, event: FfiEvent) -> (r: Result<
        FfiOutcome,
        FfiError,
    >)
        requires
            old(self)@.clock_fits(monotonic_ms),
        ensures
            exists|id: Result<DeviceId, String>, fp: Option<Fingerprint>|
                event.texts_read(old(self).line(), id, fp) && #[trigger] answered(
                    old(self)@,
                    monotonic_ms,
                    wall_ms,
                    event,
                    id,
                    fp,
                    final(self)@,
                    r,
                ),
            event.names() is None ==> r is Ok,
            r matches Ok(out) ==> final(self)@.is_next_deadline(out.next_deadline_ms),
    {
        let read = Event::try_from(self.inner.wire(), event);
        let ghost (id, fp) = choose|id: Result<DeviceId, String>, fp: Option<Fingerprint>|
            #[trigger] event.read_as(id, fp, read) && event.texts_read(self.line(), id, fp);
        match read {
            Ok(ev) => {
                let out = self.handle_event(monotonic_ms, wall_ms, ev);
                assert(event.read_as(id, fp, Ok(ev)));
                assert(handled_as(old(self)@, monotonic_ms, wall_ms, ev, self@, out));
                assert(answered(
                    old(self)@,
                    monotonic_ms,
                    wall_ms,
                    event,
                    id,
                    fp,
                    self@,
                    Ok::<FfiOutcome, FfiError>(out),
                ));
                Ok(out)
            },
            Err(e) => {
                assert(answered(
                    old(self)@,
                    monotonic_ms,
                    wall_ms,
                    event,
                    id,
                    fp,
                    self@,
                    Err::<FfiOutcome, FfiError>(e),
                ));
                Err(e)
            },
        }
    }

    /// Takes an event whose texts have been read.
    pub fn handle_event(&mut self, monotonic_ms: u64, wall_ms: u64, ev: Event) -> (out: FfiOutcome)
        requires
            old(self)@.clock_fits(monotonic_ms),
        ensures
            handled_as(old(self)@, monotonic_ms, wall_ms, ev, final(self)@, out),
            final(self)@.is_next_deadline(out.next_deadline_ms),
    {
        let done = self.inner.handle(Now { monotonic_ms, wall_ms }, ev);
        FfiOutcome::from(done)
    }

    pub fn device_id(&self) -> (t: String)
        ensures
            t@ == self@.own_id,
    {
        self.inner.device_id().text()
    }

    pub fn fingerprint(&self) -> (t: String)
        ensures
            t@ == self@.own_fp,
    {
        self.inner.fingerprint().text()
    }

    /// The code currently awaiting confirmation, if any, for a view that
    /// missed the `PairingSas` event.
    pub fn pending_sas(&self) -> (r: Option<String>)
        ensures
            match r {
                Some(t) => self@.pairing matches Some(w) && (w.awaiting matches Some(a) && t@ == a.sas),
                None => self@.pairing is None || self@.pairing->Some_0.awaiting is None,
            },
    {
        match self.inner.pending_sas() {
            Some(t) => Some(t.to_owned()),
            None => None,
        }
    }

    /// The records of the paired devices whose key is one, in the order of ids.
    pub open spec fn listed(self) -> Seq<RecordView> {
        self@.records().filter(|r: RecordView| r.public_key.len() == 32)
    }

    /// Every paired device.
    pub fn peers(&self) -> (r: Vec<FfiPeer>)
        ensures
            self@.peers.dom().finite(),
            r@.len() == self.listed().len(),
            forall|i: int|
                0 <= i < r@.len() ==> (#[trigger] r@[i]).shows(self@, self.listed()[i])
                    && r@[i].names(self.line(), self.listed()[i]),
    {
        let known = self.inner.peers();
        let mut out: Vec<FfiPeer> = Vec::new();
        let ghost all = self@.records();
        assert(all == known@.map_values(|p: PeerRecord| p@));
        let ghost keyed = |r: RecordView| r.public_key.len() == 32;
        proof {
            reveal(Seq::filter);
            assert(all.take(0).filter(keyed) =~= Seq::empty());
        }
        for i in 0..known.len()
            invariant
                all == self@.records(),
                known@.len() == all.len(),
                forall|k: int| 0 <= k < all.len() ==> (#[trigger] known@[k])@ == all[k],
                keyed == (|r: RecordView| r.public_key.len() == 32),
                out@.len() == all.take(i as int).filter(keyed).len(),
                forall|k: int|
                    0 <= k < out@.len() ==> (#[trigger] out@[k]).shows(
                        self@,
                        all.take(i as int).filter(keyed)[k],
                    ) && out@[k].names(self.line(), all.take(i as int).filter(keyed)[k]),
        {
            let rec = &known[i];
            proof {
                reveal(Seq::filter);
                assert(all.take(i + 1).drop_last() =~= all.take(i as int));
                assert(all.take(i + 1).last() == rec@);
            }
            match (rec.id(self.inner.wire()), rec.fingerprint(self.inner.wire())) {
                (Some(id), Some(fp)) => {
                    out.push(FfiPeer::of(&self.inner, rec, id, fp));
                },
                _ => {},
            }
        }
        assert(all.take(all.len() as int) =~= all);
        out
    }

    pub fn restored_peers(&self) -> (n: u32)
        ensures
            n == if self@.peers.dom().len() <= u32::MAX {
                self@.peers.dom().len()
            } else {
                u32::MAX as nat
            },
    {
        let n: usize = self.inner.peers().len();
        if n <= u32::MAX as usize {
            n as u32
        } else {
            u32::MAX
        }
    }

    pub fn caps_in(&self) -> (r: Vec<String>)
        ensures
            texts(r@) == self@.caps_in,
    {
        copy_texts(self.inner.caps_in())
    }

    /// What this device can carry out itself; anything in `caps_in` but absent
    /// here it asks a peer for and refuses if asked.
    pub fn caps_served(&self) -> (r: Vec<String>)
        ensures
            texts(r@) == self@.caps_served,
    {
        copy_texts(self.inner.caps_served())
    }

    pub fn caps_out(&self) -> (r: Vec<String>)
        ensures
            texts(r@) == self@.caps_out,
    {
        copy_texts(self.inner.caps_out())
    }
}

/// How long to wait for a lock to be answered before calling it a failure.
///
/// Must match what the host actually waits before answering, or a client
/// times out before a real failure occurs.
pub fn session_lock_budget_ms() -> (n: u64)
    ensures
        n == crate::plugins::session::LOCK_REPLY_BUDGET_MS,
{
    crate::plugins::session::LOCK_REPLY_BUDGET_MS
}

/// See [`session_lock_budget_ms`].
pub fn session_unlock_budget_ms() -> (n: u64)
    ensures
        n == crate::plugins::session::UNLOCK_REPLY_BUDGET_MS,
{
    crate::plugins::session::UNLOCK_REPLY_BUDGET_MS
}

/// See [`session_lock_budget_ms`].
pub fn media_command_budget_ms() -> (n: u64)
    ensures
        n == crate::plugins::media::CONTROL_REPLY_BUDGET_MS,
{
    crate::plugins::media::CONTROL_REPLY_BUDGET_MS
}

/// How long a peer may stop answering before its socket is treated as broken.
/// See [`DEAD_PEER_MS`].
pub fn dead_peer_ms() -> (n: u64)
    ensures
        n == DEAD_PEER_MS,
{
    DEAD_PEER_MS
}

/// How long a dial may go unanswered before the route it was trying is spent.
/// See [`DIAL_TIMEOUT_MS`].
///
/// The transport must use this exact number for its own dial bound, or the
/// core's backstop and the host's timeout drift out of order.
pub fn dial_timeout_ms() -> (n: u64)
    ensures
        n == DIAL_TIMEOUT_MS,
{
    DIAL_TIMEOUT_MS
}

/// What a later reading says of a command: nothing, of a verb that is none.
pub open spec fn shows_it_landed(
    ty: Seq<char>,
    player: Seq<char>,
    value: i64,
    before: StateView,
    now: StateView,
) -> Option<bool> {
    match verb(ty, value) {
        Ok(action) => acted(action, player, before, now),
        Err(_) => None,
    }
}

/// Whether a reading taken after a command shows the player having acted on it.
///
/// Same rule the desktop uses. `None` means a reading can't answer the
/// question (a seek moves a position that also moves on its own, say), and the
/// caller should stop waiting rather than guess.
pub fn media_command_landed(
    verb: String,
    player: String,
    value: i64,
    before: &MediaState,
    now: &MediaState,
) -> (r: Option<bool>)
    ensures
        r == shows_it_landed(verb@, player@, value, before@, now@),
{
    let cmd = MediaCommand { player: player.clone(), value };
    // A verb this build does not know is not a question a reading can answer.
    match MediaPlugin::action_for(verb.as_str(), &cmd) {
        Ok(action) => landed(&action, player.as_str(), before, now),
        Err(_) => None,
    }
}

/// The core gives up on a dial only after a host that keeps to
/// [`dial_timeout_ms`] has: only the host can hang up.
pub proof fn hosts_give_up_first(config: FfiConfig)
    ensures
        DIAL_TIMEOUT_MS < config_for(config).dial_timeout_ms,
{
}

/// A host is shown a peer as the core has it: by its name and platform, how it stands, what
/// carries it while something does, and what went wrong only while it cannot be reached.
pub proof fn a_peer_is_shown_as_it_stands<W: Wire>(
    core: Core<W>,
    rec: PeerRecord,
    id: DeviceId,
    fp: Fingerprint,
    r: FfiPeer,
)
    requires
        call_ensures(FfiPeer::of::<W>, (&core, &rec, id, fp), r),
    ensures
        r.device_id@ == id@,
        r.fingerprint@ == fp@,
        r.name@ == rec.name@,
        r.platform@ == rec.platform@,
        r.state == FfiPeerState::Reachable <==> core@.peer_state(id@) == PeerState::Reachable,
        r.state == FfiPeerState::Connecting <==> core@.peer_state(id@) == PeerState::Connecting,
        r.transport is Some <==> r.state == FfiPeerState::Reachable,
        r.state != FfiPeerState::Unreachable ==> r.trouble is None,
        r.state == FfiPeerState::Unreachable && core@.dial_trouble.dom().contains(id@) ==> (
        r.trouble matches Some(t) && t@ == core@.dial_trouble[id@]),
{
}

/// Of what a host kept, every blob that is a record is one again, in the order they came
/// in, and the others are left out.
pub proof fn every_record_that_was_kept_is_read(blobs: Seq<Vec<u8>>, b: Vec<u8>, r: RecordView)
    ensures
        value_of::<PeerRecord>(b@) == Some(r) ==> records_in(blobs.push(b)) == records_in(
            blobs,
        ).push(r),
        value_of::<PeerRecord>(b@) is None ==> records_in(blobs.push(b)) == records_in(blobs),
        records_in(Seq::empty()).len() == 0,
{
    assert(blobs.push(b).drop_last() =~= blobs);
}

/// A core that a host gets is called what the host calls itself and keeps to the host's
/// times; what the host leaves open is the default of a phone.
pub proof fn a_host_gets_the_core_it_asked_for(
    name: String,
    platform: String,
    c: FfiConfig,
    lock: u64,
    unlock: u64,
    media: u64,
    dead: u64,
    dial: u64,
)
    requires
        call_ensures(default_config, (name, platform), c),
        call_ensures(session_lock_budget_ms, (), lock),
        call_ensures(session_unlock_budget_ms, (), unlock),
        call_ensures(media_command_budget_ms, (), media),
        call_ensures(dead_peer_ms, (), dead),
        call_ensures(dial_timeout_ms, (), dial),
    ensures
        c.name == name,
        c.platform == platform,
        c.pairing_window_ms == 120_000,
        c.handshake_timeout_ms == 15_000,
        config_for(c).name == name@,
        config_for(c).platform == platform@,
        config_for(c).pairing_window_ms == 120_000,
        config_for(c).handshake_timeout_ms == 15_000,
        config_for(c).accept_pair_requests,
        config_for(c).pair_cooldown_ms == 30_000,
        config_for(c).pair_denied_cooldown_ms == 300_000,
        config_for(c).reconnect_every_ms == 10_000,
        config_for(c).dial_timeout_ms == 2 * dial,
        dial == 6_000,
        dead == 20_000,
{
}

/// What a host is answered by its core about itself is what the core holds.
pub proof fn a_facade_answers_for_its_core<W: Wire>(
    c: AcryliusCore<W>,
    id: String,
    fp: String,
    sas: Option<String>,
    n: u32,
    sends: Vec<String>,
    takes: Vec<String>,
    serves: Vec<String>,
)
    requires
        call_ensures(AcryliusCore::<W>::device_id, (&c,), id),
        call_ensures(AcryliusCore::<W>::fingerprint, (&c,), fp),
        call_ensures(AcryliusCore::<W>::pending_sas, (&c,), sas),
        call_ensures(AcryliusCore::<W>::restored_peers, (&c,), n),
        call_ensures(AcryliusCore::<W>::caps_out, (&c,), sends),
        call_ensures(AcryliusCore::<W>::caps_in, (&c,), takes),
        call_ensures(AcryliusCore::<W>::caps_served, (&c,), serves),
    ensures
        id@ == c@.own_id,
        fp@ == c@.own_fp,
        sas is Some <==> c@.pairing is Some && c@.pairing->Some_0.awaiting is Some,
        sas matches Some(t) ==> t@ == c@.pairing->Some_0.awaiting->Some_0.sas,
        c@.peers.dom().len() <= u32::MAX ==> n == c@.peers.dom().len(),
        texts(sends@) == c@.caps_out,
        texts(takes@) == c@.caps_in,
        texts(serves@) == c@.caps_served,
{
}

} // verus!
