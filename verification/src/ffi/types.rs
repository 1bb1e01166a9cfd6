//! The core's vocabulary as a host in another language sees it: plain numbers,
//! texts and records.
//!
//! Conversions only. Each is exhaustive, and none of them decides anything
//! beyond what a text a host hands in can be read as.
use crate::ids::{DeviceId, Fingerprint};
use crate::link::{
    BulkSupport, LatencyClass, LinkAttrs, LinkDownReason, LinkId, TransportId, TransportKind,
};
use crate::peer::PeerState;
use crate::plugin::{quote, quoted, FaultView};
use crate::plugins::media::verb;
use crate::text::{join2, opt_text, texts};
use crate::vocab::{
    Action, ActionView, DialToken, DiscoveredPeer, Effect, EffectKind, EffectResult, EffectToken,
    EffectView, Event, LocalCommand, MediaAction, Outcome, Sensitivity, TouchPoint, TouchpadOp,
    TouchpadView, TransferId, UiEvent, UiView,
};
use crate::wire::{fingerprint_read, id_read, Wire};
use vstd::prelude::*;

verus! {

// ------------------------------------------------------------------ transport

#[derive(Clone, Debug)]
pub enum FfiTransportKind {
    TcpLan,
    UnixLoopback,
    BleGatt,
    Custom { name: String },
}

impl FfiTransportKind {
    /// Whether this is how a host is told of `k`.
    pub open spec fn stands_for(self, k: TransportKind) -> bool {
        match k {
            TransportKind::TcpLan => self is TcpLan,
            TransportKind::UnixLoopback => self is UnixLoopback,
            TransportKind::BleGatt => self is BleGatt,
            TransportKind::Custom(n) => self matches FfiTransportKind::Custom { name } && name@
                == n@,
        }
    }

    /// What is carrying a session, so a UI can show which transport took over.
    pub fn from(k: TransportKind) -> (r: FfiTransportKind)
        ensures
            r.stands_for(k),
    {
        match k {
            TransportKind::TcpLan => FfiTransportKind::TcpLan,
            TransportKind::UnixLoopback => FfiTransportKind::UnixLoopback,
            TransportKind::BleGatt => FfiTransportKind::BleGatt,
            TransportKind::Custom(name) => FfiTransportKind::Custom { name: name.to_owned() },
        }
    }
}

// ----------------------------------------------------------------- peer state

/// Whether a peer can be reached, is being reached, or cannot be.
#[derive(Clone, Copy, PartialEq, Eq, Debug, Structural)]
pub enum FfiPeerState {
    Unreachable,
    Connecting,
    Reachable,
}

/// How a host is told of a peer's state.
pub open spec fn state_of(s: PeerState) -> FfiPeerState {
    match s {
        PeerState::Unreachable => FfiPeerState::Unreachable,
        PeerState::Connecting => FfiPeerState::Connecting,
        PeerState::Reachable => FfiPeerState::Reachable,
    }
}

impl FfiPeerState {
    pub fn from(s: PeerState) -> (r: FfiPeerState)
        ensures
            r == state_of(s),
    {
        match s {
            PeerState::Unreachable => FfiPeerState::Unreachable,
            PeerState::Connecting => FfiPeerState::Connecting,
            PeerState::Reachable => FfiPeerState::Reachable,
        }
    }
}

#[derive(Clone, Copy, PartialEq, Eq, Debug, Structural)]
pub enum FfiLatency {
    Loopback,
    Lan,
    Ble,
    Wan,
}

#[derive(Clone, Copy, PartialEq, Eq, Debug, Structural)]
pub enum FfiBulk {
    Unsupported,
    SideChannel,
}

#[derive(Clone, Debug)]
pub struct FfiLinkAttrs {
    pub transport: u16,
    pub kind: FfiTransportKind,
    pub max_message: u32,
    pub reliable: bool,
    pub ordered: bool,
    pub latency: FfiLatency,
    pub bulk: FfiBulk,
}

/// `String::leak`: the same text, never freed.
#[verifier::external_body]
fn leak(name: String) -> (r: &'static str)
    ensures
        r@ == name@,
{
    name.leak()
}

/// The latency class a host named.
pub open spec fn latency_of(l: FfiLatency) -> LatencyClass {
    match l {
        FfiLatency::Loopback => LatencyClass::Loopback,
        FfiLatency::Lan => LatencyClass::Lan,
        FfiLatency::Ble => LatencyClass::Ble,
        FfiLatency::Wan => LatencyClass::Wan,
    }
}

/// The bulk support a host named.
pub open spec fn bulk_of(b: FfiBulk) -> BulkSupport {
    match b {
        FfiBulk::Unsupported => BulkSupport::Unsupported,
        FfiBulk::SideChannel => BulkSupport::SideChannel,
    }
}

impl FfiLinkAttrs {
    /// Whether these are the attributes `a`.
    pub open spec fn stands_for(self, a: LinkAttrs) -> bool {
        &&& a.transport.0 == self.transport
        &&& self.kind.stands_for(a.kind)
        &&& a.max_message == self.max_message
        &&& a.reliable == self.reliable
        &&& a.ordered == self.ordered
        &&& a.latency == latency_of(self.latency)
        &&& a.bulk == bulk_of(self.bulk)
    }
}

impl LinkAttrs {
    /// The attributes a host described.
    ///
    /// A custom transport's name is kept for good: it is one of the fixed set
    /// of transports a host defines at startup.
    pub fn from(a: FfiLinkAttrs) -> (r: LinkAttrs)
        ensures
            a.stands_for(r),
    {
        LinkAttrs {
            transport: TransportId(a.transport),
            kind: match a.kind {
                FfiTransportKind::TcpLan => TransportKind::TcpLan,
                FfiTransportKind::UnixLoopback => TransportKind::UnixLoopback,
                FfiTransportKind::BleGatt => TransportKind::BleGatt,
                FfiTransportKind::Custom { name } => TransportKind::Custom(leak(name)),
            },
            max_message: a.max_message,
            reliable: a.reliable,
            ordered: a.ordered,
            latency: match a.latency {
                FfiLatency::Loopback => LatencyClass::Loopback,
                FfiLatency::Lan => LatencyClass::Lan,
                FfiLatency::Ble => LatencyClass::Ble,
                FfiLatency::Wan => LatencyClass::Wan,
            },
            bulk: match a.bulk {
                FfiBulk::Unsupported => BulkSupport::Unsupported,
                FfiBulk::SideChannel => BulkSupport::SideChannel,
            },
        }
    }
}

/// Attributes of a BLE link, so a host doesn't get `max_message`/`bulk` wrong
/// (a BLE link cannot carry a side channel).
pub fn ble_attrs(transport: u16) -> (r: FfiLinkAttrs)
    ensures
        r.stands_for(LinkAttrs::of_ble(TransportId(transport))),
{
    let a = LinkAttrs::ble(TransportId(transport));
    FfiLinkAttrs {
        transport,
        kind: FfiTransportKind::BleGatt,
        max_message: a.max_message,
        reliable: a.reliable,
        ordered: a.ordered,
        latency: FfiLatency::Ble,
        bulk: FfiBulk::Unsupported,
    }
}

/// Mint a link id for a transport's own counter, so a host's transport calling
/// this with `1, 2, 3…` can't collide with one here doing the same.
pub fn link_id(transport: u16, counter: u64) -> (r: u64)
    ensures
        r == crate::link::link_id(transport, counter),
{
    LinkId::new(TransportId(transport), counter).0
}

/// Attributes of an ordinary LAN TCP link, so a host doesn't spell them out
/// and get one wrong.
pub fn tcp_lan_attrs(transport: u16) -> (r: FfiLinkAttrs)
    ensures
        r.stands_for(LinkAttrs::of_tcp_lan(TransportId(transport))),
{
    let a = LinkAttrs::tcp_lan(TransportId(transport));
    FfiLinkAttrs {
        transport,
        kind: FfiTransportKind::TcpLan,
        max_message: a.max_message,
        reliable: a.reliable,
        ordered: a.ordered,
        latency: FfiLatency::Lan,
        bulk: FfiBulk::SideChannel,
    }
}

#[derive(Clone, Debug)]
pub enum FfiLinkDown {
    Closed,
    Transport { detail: String },
    Protocol { code: String },
}

// ---------------------------------------------------------------------- events

#[derive(Clone, Debug)]
pub struct FfiDiscoveredPeer {
    pub fingerprint: Option<String>,
    pub name: String,
    pub addr: String,
    pub pairing: bool,
}

#[derive(Clone, Debug)]
pub enum FfiEvent {
    LinkUp { link: u64, attrs: FfiLinkAttrs, dial: Option<u64> },
    LinkRecv { link: u64, msg: Vec<u8> },
    LinkDown { link: u64, reason: FfiLinkDown },
    DialFailed { dial: u64, reason: String },
    Discovered { transport: u16, peer: FfiDiscoveredPeer },
    /// Something discovery had found is gone. See [`Event::Undiscovered`].
    Undiscovered { transport: u16, addr: String },
    Tick,
    /// Dial `addr` and try to pair with whatever answers.
    RequestPairing { transport: u16, addr: String },
    ConfirmPairing { accept: bool },
    SetPeerAddress { peer: String, transport: u16, addr: String },
    Connect { peer: String },
    /// The network changed; try every peer again. See
    /// [`LocalCommand::ReconsiderRoutes`].
    ReconsiderRoutes,
    Disconnect { peer: String },
    Revoke { peer: String },
    PluginCommand { peer: String, cap: String, ty: String, body: Vec<u8> },
    EffectDone { token: u64, result: FfiEffectResult },
    BulkListening { transfer: u64, endpoint: String },
    /// The far end connected: sent between `accept` and `receive`, the only
    /// moment either is known.
    BulkStarted { transfer: u64 },
    BulkFinished { transfer: u64, ok: bool, detail: String },
}

#[derive(Clone, Debug)]
pub enum FfiEffectResult {
    Done { data: Vec<u8> },
    Failed { detail: String },
    Unsupported,
}

/// The result a host reported.
pub open spec fn result_of(r: FfiEffectResult) -> EffectResult {
    match r {
        FfiEffectResult::Done { data } => EffectResult::Done(data),
        FfiEffectResult::Failed { detail } => EffectResult::Failed(detail),
        FfiEffectResult::Unsupported => EffectResult::Unsupported,
    }
}

impl EffectResult {
    pub fn from(r: FfiEffectResult) -> (x: EffectResult)
        ensures
            x == result_of(r),
    {
        match r {
            FfiEffectResult::Done { data } => EffectResult::Done(data),
            FfiEffectResult::Failed { detail } => EffectResult::Failed(detail),
            FfiEffectResult::Unsupported => EffectResult::Unsupported,
        }
    }
}

/// Malformed input (a device id, say) is refused here, not turned into a
/// silent no-match lookup.
#[derive(Clone, PartialEq, Eq, Debug)]
pub enum FfiError {
    BadInput { detail: String },
    /// Something the host attempted and couldn't do, and not the caller's
    /// fault: a missing file, a refused socket, a full disk.
    Effect { detail: String },
}

/// The model of an [`FfiError`].
pub enum FfiErrorView {
    BadInput(Seq<char>),
    Effect(Seq<char>),
}

impl View for FfiError {
    type V = FfiErrorView;

    open spec fn view(&self) -> FfiErrorView {
        match self {
            FfiError::BadInput { detail } => FfiErrorView::BadInput(detail@),
            FfiError::Effect { detail } => FfiErrorView::Effect(detail@),
        }
    }
}

impl FfiError {
    /// The error as text.
    pub fn message(&self) -> (t: String)
        ensures
            t@ == match self@ {
                FfiErrorView::BadInput(d) => d,
                FfiErrorView::Effect(d) => d,
            },
    {
        match self {
            FfiError::BadInput { detail } => detail.clone(),
            FfiError::Effect { detail } => detail.clone(),
        }
    }
}

/// What is said of a text that is no device id.
pub open spec fn no_device_id(t: Seq<char>, why: Seq<char>) -> FfiErrorView {
    FfiErrorView::BadInput("device id "@ + quoted(t) + ": "@ + why)
}

fn bad_id(t: &str, why: &str) -> (e: FfiError)
    ensures
        e@ == no_device_id(t@, why@),
{
    let told = join2("device id ", quote(t).as_str());
    let told = join2(told.as_str(), ": ");
    FfiError::BadInput { detail: join2(told.as_str(), why) }
}

impl FfiEvent {
    /// The text of the peer that the event is about, where it is about one.
    pub open spec fn names(self) -> Option<String> {
        match self {
            FfiEvent::SetPeerAddress { peer, .. } => Some(peer),
            FfiEvent::Connect { peer } => Some(peer),
            FfiEvent::Disconnect { peer } => Some(peer),
            FfiEvent::Revoke { peer } => Some(peer),
            FfiEvent::PluginCommand { peer, .. } => Some(peer),
            _ => None,
        }
    }

    /// The text of the peer that the event is about, where it is about one.
    fn named(&self) -> (r: Option<&String>)
        ensures
            match r {
                Some(t) => self.names() == Some(*t),
                None => self.names() is None,
            },
    {
        match self {
            FfiEvent::SetPeerAddress { peer, .. } => Some(peer),
            FfiEvent::Connect { peer } => Some(peer),
            FfiEvent::Disconnect { peer } => Some(peer),
            FfiEvent::Revoke { peer } => Some(peer),
            FfiEvent::PluginCommand { peer, .. } => Some(peer),
            _ => None,
        }
    }

    /// The text that should be a fingerprint, where a discovery carries one.
    fn hinted(&self) -> (r: Option<&String>)
        ensures
            opt_ref(r) == self.hint(),
    {
        match self {
            FfiEvent::Discovered { peer, .. } => peer.fingerprint.as_ref(),
            _ => None,
        }
    }

    /// The text that should be a fingerprint, where a discovery carries one.
    pub open spec fn hint(self) -> Option<String> {
        match self {
            FfiEvent::Discovered { peer, .. } => peer.fingerprint,
            _ => None,
        }
    }

    /// Whether a wire format may read the texts of this event as `id` and `fp`.
    pub open spec fn texts_read<W: Wire>(
        self,
        wire: W,
        id: Result<DeviceId, String>,
        fp: Option<Fingerprint>,
    ) -> bool {
        &&& self.names() matches Some(t) ==> id_read(wire, t@, id)
        &&& match self.hint() {
            Some(t) => fingerprint_read(wire, t@, fp),
            None => fp is None,
        }
    }

    /// Whether `ev` is what this event says, where `id` is the peer it names
    /// and `fp` the fingerprint it carries.
    pub open spec fn means(self, id: Option<DeviceId>, fp: Option<Fingerprint>, ev: Event) -> bool {
        match self {
            FfiEvent::LinkUp { link, attrs, dial } => {
                &&& ev matches Event::LinkUp { link: l, attrs: a, dial: d }
                &&& l.0 == link
                &&& attrs.stands_for(a)
                &&& d == match dial {
                    Some(n) => Some(DialToken(n)),
                    None => None,
                }
            },
            FfiEvent::LinkRecv { link, msg } => ev == (Event::LinkRecv { link: LinkId(link), msg }),
            FfiEvent::LinkDown { link, reason } => ev == (Event::LinkDown {
                link: LinkId(link),
                reason: match reason {
                    FfiLinkDown::Closed | FfiLinkDown::Protocol { .. } => LinkDownReason::Closed,
                    FfiLinkDown::Transport { detail } => LinkDownReason::Transport(detail),
                },
            }),
            FfiEvent::DialFailed { dial, reason } => ev == (Event::DialFailed {
                dial: DialToken(dial),
                reason,
            }),
            FfiEvent::Discovered { transport, peer } => ev == (Event::Discovered {
                transport: TransportId(transport),
                peer: DiscoveredPeer {
                    fingerprint: fp,
                    name: peer.name,
                    addr: peer.addr,
                    pairing: peer.pairing,
                },
            }),
            FfiEvent::Undiscovered { transport, addr } => ev == (Event::Undiscovered {
                transport: TransportId(transport),
                addr,
            }),
            FfiEvent::Tick => ev is Tick,
            FfiEvent::RequestPairing { transport, addr } => ev == Event::Local(
                LocalCommand::RequestPairing { transport: TransportId(transport), addr },
            ),
            FfiEvent::ConfirmPairing { accept } => ev == Event::Local(
                LocalCommand::ConfirmPairing { accept },
            ),
            FfiEvent::SetPeerAddress { peer: _, transport, addr } => id matches Some(peer) && ev
                == Event::Local(
                LocalCommand::SetPeerAddress { peer, transport: TransportId(transport), addr },
            ),
            FfiEvent::Connect { peer: _ } => id matches Some(peer) && ev == Event::Local(
                LocalCommand::Connect { peer },
            ),
            FfiEvent::ReconsiderRoutes => ev == Event::Local(LocalCommand::ReconsiderRoutes),
            FfiEvent::Disconnect { peer: _ } => id matches Some(peer) && ev == Event::Local(
                LocalCommand::Disconnect { peer },
            ),
            FfiEvent::Revoke { peer: _ } => id matches Some(peer) && ev == Event::Local(
                LocalCommand::Revoke { peer },
            ),
            FfiEvent::PluginCommand { peer: _, cap, ty, body } => id matches Some(peer) && ev
                == Event::Local(LocalCommand::Plugin { peer, cap, ty, body }),
            FfiEvent::EffectDone { token, result } => ev == (Event::EffectDone {
                token: EffectToken(token),
                result: result_of(result),
            }),
            FfiEvent::BulkListening { transfer, endpoint } => ev == (Event::BulkListening {
                transfer: TransferId(transfer),
                endpoint,
            }),
            FfiEvent::BulkStarted { transfer } => ev == (Event::BulkStarted {
                transfer: TransferId(transfer),
            }),
            FfiEvent::BulkFinished { transfer, ok, detail } => ev == (Event::BulkFinished {
                transfer: TransferId(transfer),
                ok,
                detail,
            }),
        }
    }

    /// What becomes of the event, where `id` is what its peer's text was read
    /// as and `fp` what its fingerprint was read as: an event, or the refusal
    /// of a text that is no device id.
    pub open spec fn read_as(
        self,
        id: Result<DeviceId, String>,
        fp: Option<Fingerprint>,
        r: Result<Event, FfiError>,
    ) -> bool {
        match self.names() {
            Some(t) => match id {
                Ok(peer) => r matches Ok(ev) && self.means(Some(peer), fp, ev),
                Err(why) => r matches Err(e) && e@ == no_device_id(t@, why@),
            },
            None => r matches Ok(ev) && self.means(None, fp, ev),
        }
    }
}

/// What a reference to an optional text holds.
pub open spec fn opt_ref(r: Option<&String>) -> Option<String> {
    match r {
        Some(t) => Some(*t),
        None => None,
    }
}

impl Event {
    /// The event a host reported, given what its texts were read as.
    pub fn read(e: FfiEvent, id: Result<DeviceId, String>, fp: Option<Fingerprint>) -> (r: Result<
        Event,
        FfiError,
    >)
        ensures
            e.read_as(id, fp, r),
    {
        let peer: Option<DeviceId> = match e.named() {
            Some(t) => match id {
                Ok(peer) => Some(peer),
                Err(why) => {
                    return Err(bad_id(t.as_str(), why.as_str()));
                },
            },
            None => None,
        };
        Ok(event_of(e, peer, fp))
    }

    /// The event a host reported. Where it names a peer, the text has to be a
    /// device id; a fingerprint that cannot be read is left out.
    pub fn try_from<W: Wire>(wire: &W, e: FfiEvent) -> (r: Result<Event, FfiError>)
        ensures
            exists|id: Result<DeviceId, String>, fp: Option<Fingerprint>|
                #[trigger] e.read_as(id, fp, r) && e.texts_read(*wire, id, fp),
            e.names() is None ==> r is Ok,
    {
        let id: Result<DeviceId, String> = match e.named() {
            Some(t) => {
                let text = t.as_str();
                let read = wire.parse_device_id(text);
                assert(call_ensures(W::parse_device_id, (wire, text), read));
                read
            },
            None => Err(String::new()),
        };
        let fp: Option<Fingerprint> = match e.hinted() {
            Some(t) => {
                let text = t.as_str();
                let read = wire.parse_fingerprint(text);
                assert(call_ensures(W::parse_fingerprint, (wire, text), read));
                read
            },
            None => None,
        };
        let r = Event::read(e, id, fp);
        assert(e.read_as(id, fp, r) && e.texts_read(*wire, id, fp));
        r
    }
}

/// The event a host reported, its peer already read.
fn event_of(e: FfiEvent, id: Option<DeviceId>, fp: Option<Fingerprint>) -> (ev: Event)
    requires
        e.names() is Some ==> id is Some,
    ensures
        e.means(
            if e.names() is Some {
                id
            } else {
                None
            },
            fp,
            ev,
        ),
{
    match (e, id) {
        (FfiEvent::LinkUp { link, attrs, dial }, _) => Event::LinkUp {
            link: LinkId(link),
            attrs: LinkAttrs::from(attrs),
            dial: match dial {
                Some(n) => Some(DialToken(n)),
                None => None,
            },
        },
        (FfiEvent::LinkRecv { link, msg }, _) => Event::LinkRecv { link: LinkId(link), msg },
        (FfiEvent::LinkDown { link, reason }, _) => Event::LinkDown {
            link: LinkId(link),
            reason: match reason {
                FfiLinkDown::Closed | FfiLinkDown::Protocol { .. } => LinkDownReason::Closed,
                FfiLinkDown::Transport { detail } => LinkDownReason::Transport(detail),
            },
        },
        (FfiEvent::DialFailed { dial, reason }, _) => Event::DialFailed {
            dial: DialToken(dial),
            reason,
        },
        (FfiEvent::Discovered { transport, peer }, _) => Event::Discovered {
            transport: TransportId(transport),
            peer: DiscoveredPeer {
                fingerprint: fp,
                name: peer.name,
                addr: peer.addr,
                pairing: peer.pairing,
            },
        },
        (FfiEvent::Undiscovered { transport, addr }, _) => Event::Undiscovered {
            transport: TransportId(transport),
            addr,
        },
        (FfiEvent::RequestPairing { transport, addr }, _) => Event::Local(
            LocalCommand::RequestPairing { transport: TransportId(transport), addr },
        ),
        (FfiEvent::ConfirmPairing { accept }, _) => Event::Local(
            LocalCommand::ConfirmPairing { accept },
        ),
        (FfiEvent::SetPeerAddress { peer: _, transport, addr }, Some(peer)) => Event::Local(
            LocalCommand::SetPeerAddress { peer, transport: TransportId(transport), addr },
        ),
        (FfiEvent::Connect { .. }, Some(peer)) => Event::Local(LocalCommand::Connect { peer }),
        (FfiEvent::ReconsiderRoutes, _) => Event::Local(LocalCommand::ReconsiderRoutes),
        (FfiEvent::Disconnect { .. }, Some(peer)) => Event::Local(
            LocalCommand::Disconnect { peer },
        ),
        (FfiEvent::Revoke { .. }, Some(peer)) => Event::Local(LocalCommand::Revoke { peer }),
        (FfiEvent::PluginCommand { peer: _, cap, ty, body }, Some(peer)) => Event::Local(
            LocalCommand::Plugin { peer, cap, ty, body },
        ),
        (FfiEvent::EffectDone { token, result }, _) => Event::EffectDone {
            token: EffectToken(token),
            result: EffectResult::from(result),
        },
        (FfiEvent::BulkListening { transfer, endpoint }, _) => Event::BulkListening {
            transfer: TransferId(transfer),
            endpoint,
        },
        (FfiEvent::BulkStarted { transfer }, _) => Event::BulkStarted {
            transfer: TransferId(transfer),
        },
        (FfiEvent::BulkFinished { transfer, ok, detail }, _) => Event::BulkFinished {
            transfer: TransferId(transfer),
            ok,
            detail,
        },
        // Every event that names a peer has one by now.
        (_, _) => Event::Tick,
    }
}

// --------------------------------------------------------------------- actions

/// What a host can carry out. A plugin whose effect is missing still loads
/// and can still send; it just can't serve.
#[derive(Clone, Copy, PartialEq, Eq, Debug, Structural)]
pub enum FfiEffectKind {
    Session,
    Clipboard,
    Command,
    Wol,
    Media,
    Share,
    Touchpad,
    Custom,
}

/// The class of effect a host named.
pub open spec fn kind_of(k: FfiEffectKind) -> EffectKind {
    match k {
        FfiEffectKind::Session => EffectKind::Session,
        FfiEffectKind::Clipboard => EffectKind::Clipboard,
        FfiEffectKind::Command => EffectKind::Command,
        FfiEffectKind::Wol => EffectKind::Wol,
        FfiEffectKind::Media => EffectKind::Media,
        FfiEffectKind::Share => EffectKind::Share,
        FfiEffectKind::Touchpad => EffectKind::Touchpad,
        FfiEffectKind::Custom => EffectKind::Custom,
    }
}

impl EffectKind {
    pub fn from(k: FfiEffectKind) -> (r: EffectKind)
        ensures
            r == kind_of(k),
    {
        match k {
            FfiEffectKind::Session => EffectKind::Session,
            FfiEffectKind::Clipboard => EffectKind::Clipboard,
            FfiEffectKind::Command => EffectKind::Command,
            FfiEffectKind::Wol => EffectKind::Wol,
            FfiEffectKind::Media => EffectKind::Media,
            FfiEffectKind::Share => EffectKind::Share,
            FfiEffectKind::Touchpad => EffectKind::Touchpad,
            FfiEffectKind::Custom => EffectKind::Custom,
        }
    }
}

#[derive(Clone, Debug)]
pub enum FfiEffect {
    LockSession,
    UnlockSession,
    QuerySession,
    ClipboardRead,
    ClipboardWrite { mime: String, data: Vec<u8> },
    ListCommands,
    RunCommand { id: String },
    MediaQuery,
    /// Empty `player` means active; `value` is ms for seek/position, percent
    /// for volume (already range-checked).
    MediaControl { player: String, verb: String, value: i64 },
    SendMagicPacket { macs: Vec<String>, dests: Vec<String>, port: u16 },
    /// Never reached on a phone, which serves no touchpad; here so the
    /// conversion below stays total.
    Touchpad { verb: String, order: u32, w_mm: u16, h_mm: u16, points: Vec<FfiTouchPoint> },
    Custom { ns: String, verb: String, payload: Vec<u8> },
}

#[derive(Clone, Copy, PartialEq, Eq, Debug, Structural)]
pub struct FfiTouchPoint {
    pub id: u8,
    pub x: u16,
    pub y: u16,
}

/// A media action as a verb and a value: one enum to keep in sync, not two.
pub open spec fn media_verb(a: MediaAction) -> (Seq<char>, i64) {
    match a {
        MediaAction::Play => ("play"@, 0),
        MediaAction::Pause => ("pause"@, 0),
        MediaAction::PlayPause => ("playpause"@, 0),
        MediaAction::Next => ("next"@, 0),
        MediaAction::Previous => ("previous"@, 0),
        MediaAction::Stop => ("stop"@, 0),
        MediaAction::Seek { offset_ms } => ("seek"@, offset_ms),
        MediaAction::SetPosition { ms } => (
            "position"@,
            if ms <= i64::MAX {
                ms as i64
            } else {
                i64::MAX
            },
        ),
        MediaAction::SetVolume { percent } => ("volume"@, percent as i64),
    }
}

/// What a host is handed of an action is what a device would ask for to get it, so
/// both ends speak of an action in the same words. A position past the largest
/// value and a volume past a hundred cannot be asked for.
pub proof fn a_verb_names_its_action(a: MediaAction)
    requires
        a matches MediaAction::SetPosition { ms } ==> ms <= i64::MAX,
        a matches MediaAction::SetVolume { percent } ==> percent <= 100,
    ensures
        verb(media_verb(a).0, media_verb(a).1) == Ok::<MediaAction, FaultView>(a),
{
    reveal_strlit("play");
    reveal_strlit("pause");
    reveal_strlit("playpause");
    reveal_strlit("next");
    reveal_strlit("previous");
    reveal_strlit("stop");
    reveal_strlit("seek");
    reveal_strlit("position");
    reveal_strlit("volume");
    assert("play"@.len() == 4);
    assert("pause"@.len() == 5);
    assert("playpause"@.len() == 9);
    assert("next"@[0] == 'n');
    assert("previous"@.len() == 8);
    assert("stop"@[1] == 't');
    assert("seek"@[1] == 'e');
    assert("position"@[1] == 'o');
    assert("volume"@.len() == 6);
}

fn verb_of(a: MediaAction) -> (r: (&'static str, i64))
    ensures
        (r.0@, r.1) == media_verb(a),
{
    match a {
        MediaAction::Play => ("play", 0),
        MediaAction::Pause => ("pause", 0),
        MediaAction::PlayPause => ("playpause", 0),
        MediaAction::Next => ("next", 0),
        MediaAction::Previous => ("previous", 0),
        MediaAction::Stop => ("stop", 0),
        MediaAction::Seek { offset_ms } => ("seek", offset_ms),
        MediaAction::SetPosition { ms } => (
            "position",
            if ms <= i64::MAX as u64 {
                ms as i64
            } else {
                i64::MAX
            },
        ),
        MediaAction::SetVolume { percent } => ("volume", percent as i64),
    }
}

/// How a host is told of a finger.
pub open spec fn point_of(p: TouchPoint) -> FfiTouchPoint {
    FfiTouchPoint { id: p.id, x: p.x, y: p.y }
}

/// How a host is told of every finger.
pub open spec fn points_of(points: Seq<TouchPoint>) -> Seq<FfiTouchPoint> {
    points.map_values(|p: TouchPoint| point_of(p))
}

fn touch_points(points: &Vec<TouchPoint>) -> (r: Vec<FfiTouchPoint>)
    ensures
        r@ == points_of(points@),
{
    let mut out: Vec<FfiTouchPoint> = Vec::new();
    for i in 0..points.len()
        invariant
            out.len() == i,
            forall|k: int| 0 <= k < i ==> out@[k] == point_of(points@[k]),
    {
        let p = points[i];
        out.push(FfiTouchPoint { id: p.id, x: p.x, y: p.y });
    }
    assert(out@ =~= points_of(points@));
    out
}

/// The model of an [`FfiEffect`].
pub enum FfiEffectView {
    LockSession,
    UnlockSession,
    QuerySession,
    ClipboardRead,
    ClipboardWrite { mime: Seq<char>, data: Seq<u8> },
    ListCommands,
    RunCommand { id: Seq<char> },
    MediaQuery,
    MediaControl { player: Seq<char>, verb: Seq<char>, value: i64 },
    SendMagicPacket { macs: Seq<Seq<char>>, dests: Seq<Seq<char>>, port: u16 },
    Touchpad { verb: Seq<char>, order: u32, w_mm: u16, h_mm: u16, points: Seq<FfiTouchPoint> },
    Custom { ns: Seq<char>, verb: Seq<char>, payload: Seq<u8> },
}

impl View for FfiEffect {
    type V = FfiEffectView;

    open spec fn view(&self) -> FfiEffectView {
        match self {
            FfiEffect::LockSession => FfiEffectView::LockSession,
            FfiEffect::UnlockSession => FfiEffectView::UnlockSession,
            FfiEffect::QuerySession => FfiEffectView::QuerySession,
            FfiEffect::ClipboardRead => FfiEffectView::ClipboardRead,
            FfiEffect::ClipboardWrite { mime, data } => FfiEffectView::ClipboardWrite {
                mime: mime@,
                data: data@,
            },
            FfiEffect::ListCommands => FfiEffectView::ListCommands,
            FfiEffect::RunCommand { id } => FfiEffectView::RunCommand { id: id@ },
            FfiEffect::MediaQuery => FfiEffectView::MediaQuery,
            FfiEffect::MediaControl { player, verb, value } => FfiEffectView::MediaControl {
                player: player@,
                verb: verb@,
                value: *value,
            },
            FfiEffect::SendMagicPacket { macs, dests, port } => FfiEffectView::SendMagicPacket {
                macs: texts(macs@),
                dests: texts(dests@),
                port: *port,
            },
            FfiEffect::Touchpad { verb, order, w_mm, h_mm, points } => FfiEffectView::Touchpad {
                verb: verb@,
                order: *order,
                w_mm: *w_mm,
                h_mm: *h_mm,
                points: points@,
            },
            FfiEffect::Custom { ns, verb, payload } => FfiEffectView::Custom {
                ns: ns@,
                verb: verb@,
                payload: payload@,
            },
        }
    }
}

/// How a host is told of an effect.
pub open spec fn effect_of(e: EffectView) -> FfiEffectView {
    match e {
        EffectView::LockSession => FfiEffectView::LockSession,
        EffectView::UnlockSession => FfiEffectView::UnlockSession,
        EffectView::QuerySession => FfiEffectView::QuerySession,
        EffectView::ClipboardRead => FfiEffectView::ClipboardRead,
        EffectView::ClipboardWrite { mime, data } => FfiEffectView::ClipboardWrite { mime, data },
        EffectView::ListCommands => FfiEffectView::ListCommands,
        EffectView::RunCommand { id } => FfiEffectView::RunCommand { id },
        EffectView::MediaQuery => FfiEffectView::MediaQuery,
        EffectView::MediaControl { player, action } => FfiEffectView::MediaControl {
            player,
            verb: media_verb(action).0,
            value: media_verb(action).1,
        },
        EffectView::SendMagicPacket { macs, dests, port } => FfiEffectView::SendMagicPacket {
            macs,
            dests,
            port,
        },
        EffectView::Touchpad { order, op } => match op {
            TouchpadView::Begin { w_mm, h_mm } => FfiEffectView::Touchpad {
                verb: "begin"@,
                order,
                w_mm,
                h_mm,
                points: Seq::empty(),
            },
            TouchpadView::Frame { points } => FfiEffectView::Touchpad {
                verb: "frame"@,
                order,
                w_mm: 0,
                h_mm: 0,
                points: points_of(points),
            },
            TouchpadView::End => FfiEffectView::Touchpad {
                verb: "end"@,
                order,
                w_mm: 0,
                h_mm: 0,
                points: Seq::empty(),
            },
        },
        EffectView::Custom { ns, verb, payload } => FfiEffectView::Custom { ns, verb, payload },
    }
}

impl FfiEffect {
    pub fn from(e: Effect) -> (r: FfiEffect)
        ensures
            r@ == effect_of(e@),
    {
        match e {
            Effect::LockSession => FfiEffect::LockSession,
            Effect::UnlockSession => FfiEffect::UnlockSession,
            Effect::QuerySession => FfiEffect::QuerySession,
            Effect::ClipboardRead => FfiEffect::ClipboardRead,
            Effect::ClipboardWrite { mime, data } => FfiEffect::ClipboardWrite { mime, data },
            Effect::ListCommands => FfiEffect::ListCommands,
            Effect::RunCommand { id } => FfiEffect::RunCommand { id },
            Effect::MediaQuery => FfiEffect::MediaQuery,
            Effect::MediaControl { player, action } => {
                let (verb, value) = verb_of(action);
                FfiEffect::MediaControl { player, verb: verb.to_owned(), value }
            },
            Effect::SendMagicPacket { macs, dests, port } => FfiEffect::SendMagicPacket {
                macs,
                dests,
                port,
            },
            Effect::Touchpad { order, op } => match op {
                TouchpadOp::Begin { w_mm, h_mm } => FfiEffect::Touchpad {
                    verb: "begin".to_owned(),
                    order,
                    w_mm,
                    h_mm,
                    points: Vec::new(),
                },
                TouchpadOp::Frame { points } => FfiEffect::Touchpad {
                    verb: "frame".to_owned(),
                    order,
                    w_mm: 0,
                    h_mm: 0,
                    points: touch_points(&points),
                },
                TouchpadOp::End => FfiEffect::Touchpad {
                    verb: "end".to_owned(),
                    order,
                    w_mm: 0,
                    h_mm: 0,
                    points: Vec::new(),
                },
            },
            Effect::Custom { ns, verb, payload } => FfiEffect::Custom { ns, verb, payload },
        }
    }
}

#[derive(Clone, Debug)]
pub enum FfiUiEvent {
    PairingSas { name: String, fingerprint: String, sas: String },
    PairingComplete { peer: String, name: String },
    /// A peer has been forgotten. See [`UiEvent::Revoked`].
    Revoked { peer: String },
    PairingFailed { reason: String },
    /// A device nearby that this one is not paired with. See
    /// [`UiEvent::Discovered`].
    Discovered {
        fingerprint: String,
        name: String,
        addr: String,
        /// As wide as every other transport id across this boundary: a tap
        /// hands it straight back as `FfiEvent::RequestPairing`'s `transport`.
        transport: u16,
        pairing: bool,
    },
    /// A device that was nearby is not any more. See [`UiEvent::Undiscovered`].
    Undiscovered { fingerprint: String },
    PeerReachable { peer: String, name: String },
    PeerUnreachable { peer: String },
    Plugin { peer: String, cap: String, ty: String, body: Vec<u8> },
    Error {
        /// Which peer this is about, when it is about one. See
        /// [`UiEvent::Error`].
        peer: Option<String>,
        code: String,
        detail: String,
    },
}

/// The model of an [`FfiUiEvent`].
pub enum FfiUiView {
    PairingSas { name: Seq<char>, fingerprint: Seq<char>, sas: Seq<char> },
    PairingComplete { peer: Seq<char>, name: Seq<char> },
    Revoked { peer: Seq<char> },
    PairingFailed { reason: Seq<char> },
    Discovered {
        fingerprint: Seq<char>,
        name: Seq<char>,
        addr: Seq<char>,
        transport: u16,
        pairing: bool,
    },
    Undiscovered { fingerprint: Seq<char> },
    PeerReachable { peer: Seq<char>, name: Seq<char> },
    PeerUnreachable { peer: Seq<char> },
    Plugin { peer: Seq<char>, cap: Seq<char>, ty: Seq<char>, body: Seq<u8> },
    Error { peer: Option<Seq<char>>, code: Seq<char>, detail: Seq<char> },
}

impl View for FfiUiEvent {
    type V = FfiUiView;

    open spec fn view(&self) -> FfiUiView {
        match self {
            FfiUiEvent::PairingSas { name, fingerprint, sas } => FfiUiView::PairingSas {
                name: name@,
                fingerprint: fingerprint@,
                sas: sas@,
            },
            FfiUiEvent::PairingComplete { peer, name } => FfiUiView::PairingComplete {
                peer: peer@,
                name: name@,
            },
            FfiUiEvent::Revoked { peer } => FfiUiView::Revoked { peer: peer@ },
            FfiUiEvent::PairingFailed { reason } => FfiUiView::PairingFailed { reason: reason@ },
            FfiUiEvent::Discovered { fingerprint, name, addr, transport, pairing } =>
                FfiUiView::Discovered {
                fingerprint: fingerprint@,
                name: name@,
                addr: addr@,
                transport: *transport,
                pairing: *pairing,
            },
            FfiUiEvent::Undiscovered { fingerprint } => FfiUiView::Undiscovered {
                fingerprint: fingerprint@,
            },
            FfiUiEvent::PeerReachable { peer, name } => FfiUiView::PeerReachable {
                peer: peer@,
                name: name@,
            },
            FfiUiEvent::PeerUnreachable { peer } => FfiUiView::PeerUnreachable { peer: peer@ },
            FfiUiEvent::Plugin { peer, cap, ty, body } => FfiUiView::Plugin {
                peer: peer@,
                cap: cap@,
                ty: ty@,
                body: body@,
            },
            FfiUiEvent::Error { peer, code, detail } => FfiUiView::Error {
                peer: opt_text(*peer),
                code: code@,
                detail: detail@,
            },
        }
    }
}

/// How a host is told of something to show.
pub open spec fn ui_of(e: UiView) -> FfiUiView {
    match e {
        UiView::PairingSas { name, fingerprint, sas } => FfiUiView::PairingSas {
            name,
            fingerprint,
            sas,
        },
        UiView::PairingComplete { peer, name } => FfiUiView::PairingComplete { peer, name },
        UiView::Revoked { peer } => FfiUiView::Revoked { peer },
        UiView::PairingFailed { reason } => FfiUiView::PairingFailed { reason },
        UiView::Discovered { fingerprint, name, addr, transport, pairing } =>
            FfiUiView::Discovered { fingerprint, name, addr, transport, pairing },
        UiView::Undiscovered { fingerprint } => FfiUiView::Undiscovered { fingerprint },
        UiView::PeerReachable { peer, name } => FfiUiView::PeerReachable { peer, name },
        UiView::PeerUnreachable { peer } => FfiUiView::PeerUnreachable { peer },
        UiView::Plugin { peer, cap, ty, body } => FfiUiView::Plugin { peer, cap, ty, body },
        UiView::Error { peer, code, detail } => FfiUiView::Error {
            peer,
            code: code.name(),
            detail,
        },
    }
}

impl FfiUiEvent {
    pub fn from(e: UiEvent) -> (r: FfiUiEvent)
        ensures
            r@ == ui_of(e@),
    {
        match e {
            UiEvent::Discovered { fingerprint, name, addr, transport, pairing } =>
                FfiUiEvent::Discovered {
                fingerprint: fingerprint.text(),
                name,
                addr,
                transport: transport.0,
                pairing,
            },
            UiEvent::Undiscovered { fingerprint } => FfiUiEvent::Undiscovered {
                fingerprint: fingerprint.text(),
            },
            UiEvent::PairingSas { name, fingerprint, sas } => FfiUiEvent::PairingSas {
                name,
                fingerprint: fingerprint.text(),
                sas,
            },
            UiEvent::PairingComplete { peer, name } => FfiUiEvent::PairingComplete {
                peer: peer.text(),
                name,
            },
            UiEvent::Revoked { peer } => FfiUiEvent::Revoked { peer: peer.text() },
            UiEvent::PairingFailed { reason } => FfiUiEvent::PairingFailed { reason },
            UiEvent::PeerReachable { peer, name } => FfiUiEvent::PeerReachable {
                peer: peer.text(),
                name,
            },
            UiEvent::PeerUnreachable { peer } => FfiUiEvent::PeerUnreachable {
                peer: peer.text(),
            },
            UiEvent::Plugin { peer, cap, ty, body } => FfiUiEvent::Plugin {
                peer: peer.text(),
                cap,
                ty,
                body,
            },
            UiEvent::Error { peer, code, detail } => FfiUiEvent::Error {
                peer: match peer {
                    Some(p) => Some(p.text()),
                    None => None,
                },
                code: code.as_str().to_owned(),
                detail,
            },
        }
    }
}

/// Where the host must persist a value. `Secret` means the iOS Keychain
/// (`WhenUnlockedThisDeviceOnly`) or a `0600` file on Linux, and never a plain
/// file, log, or backup.
#[derive(Clone, Copy, PartialEq, Eq, Debug, Structural)]
pub enum FfiSensitivity {
    Secret,
    Ordinary,
}

/// How a host is told where a value belongs.
pub open spec fn sensitivity_of(s: Sensitivity) -> FfiSensitivity {
    match s {
        Sensitivity::Secret => FfiSensitivity::Secret,
        Sensitivity::Ordinary => FfiSensitivity::Ordinary,
    }
}

#[derive(Clone, Debug)]
pub enum FfiAction {
    Dial { transport: u16, addr: String, dial: u64 },
    LinkSend { link: u64, msg: Vec<u8> },
    Close { link: u64 },
    Effect { token: u64, effect: FfiEffect },
    Persist { key: String, value: Option<Vec<u8>>, sensitivity: FfiSensitivity },
    Advertise { transport: u16, enable: bool, txt: Vec<FfiTxt> },
    Discover { transport: u16, enable: bool },
    Ui { event: FfiUiEvent },
    /// Send a file: host looks up the transfer, calls `bulk_send`. Key comes
    /// from the core (session-derived), never computed by the host.
    BulkSend { transfer: u64, endpoint: String, key: Vec<u8> },
    /// Accept a file. The host binds, answers with `BulkListening` and its
    /// endpoint, then writes what arrives.
    ///
    /// `expect_bytes` is what the far end claims to send, so the host can
    /// decide before anything hits disk.
    BulkListen {
        transfer: u64,
        /// The number the sender will put in its greeting; check the greeting
        /// against this, but key the listener on `transfer`.
        offered_as: u64,
        key: Vec<u8>,
        expect_bytes: u64,
    },
    /// A bulk transfer this host can't carry out; answers with a failed
    /// `BulkFinished` rather than leaving the peer waiting.
    BulkUnsupported { transfer: u64 },
}

/// A TXT pair as a record, for languages without tuples.
#[derive(Clone, Debug)]
pub struct FfiTxt {
    pub key: String,
    pub value: String,
}

impl View for FfiTxt {
    type V = (Seq<char>, Seq<char>);

    open spec fn view(&self) -> (Seq<char>, Seq<char>) {
        (self.key@, self.value@)
    }
}

/// The model of an [`FfiAction`].
pub enum FfiActionView {
    Dial { transport: u16, addr: Seq<char>, dial: u64 },
    LinkSend { link: u64, msg: Seq<u8> },
    Close { link: u64 },
    Effect { token: u64, effect: FfiEffectView },
    Persist { key: Seq<char>, value: Option<Seq<u8>>, sensitivity: FfiSensitivity },
    Advertise { transport: u16, enable: bool, txt: Seq<(Seq<char>, Seq<char>)> },
    Discover { transport: u16, enable: bool },
    Ui { event: FfiUiView },
    BulkSend { transfer: u64, endpoint: Seq<char>, key: Seq<u8> },
    BulkListen { transfer: u64, offered_as: u64, key: Seq<u8>, expect_bytes: u64 },
    BulkUnsupported { transfer: u64 },
}

impl View for FfiAction {
    type V = FfiActionView;

    open spec fn view(&self) -> FfiActionView {
        match self {
            FfiAction::Dial { transport, addr, dial } => FfiActionView::Dial {
                transport: *transport,
                addr: addr@,
                dial: *dial,
            },
            FfiAction::LinkSend { link, msg } => FfiActionView::LinkSend { link: *link, msg: msg@ },
            FfiAction::Close { link } => FfiActionView::Close { link: *link },
            FfiAction::Effect { token, effect } => FfiActionView::Effect {
                token: *token,
                effect: effect@,
            },
            FfiAction::Persist { key, value, sensitivity } => FfiActionView::Persist {
                key: key@,
                value: match value {
                    Some(v) => Some(v@),
                    None => None,
                },
                sensitivity: *sensitivity,
            },
            FfiAction::Advertise { transport, enable, txt } => FfiActionView::Advertise {
                transport: *transport,
                enable: *enable,
                txt: txt@.map_values(|t: FfiTxt| t@),
            },
            FfiAction::Discover { transport, enable } => FfiActionView::Discover {
                transport: *transport,
                enable: *enable,
            },
            FfiAction::Ui { event } => FfiActionView::Ui { event: event@ },
            FfiAction::BulkSend { transfer, endpoint, key } => FfiActionView::BulkSend {
                transfer: *transfer,
                endpoint: endpoint@,
                key: key@,
            },
            FfiAction::BulkListen { transfer, offered_as, key, expect_bytes } =>
                FfiActionView::BulkListen {
                transfer: *transfer,
                offered_as: *offered_as,
                key: key@,
                expect_bytes: *expect_bytes,
            },
            FfiAction::BulkUnsupported { transfer } => FfiActionView::BulkUnsupported {
                transfer: *transfer,
            },
        }
    }
}

/// How a host is told of an action.
pub open spec fn action_of(a: ActionView) -> FfiActionView {
    match a {
        ActionView::Dial { transport, addr, dial } => FfiActionView::Dial { transport, addr, dial },
        ActionView::LinkSend { link, msg } => FfiActionView::LinkSend { link, msg },
        ActionView::Close { link, .. } => FfiActionView::Close { link },
        ActionView::Effect { token, effect } => FfiActionView::Effect {
            token,
            effect: effect_of(effect),
        },
        ActionView::Persist { key, value, sensitivity } => FfiActionView::Persist {
            key,
            value,
            sensitivity: sensitivity_of(sensitivity),
        },
        ActionView::Advertise { transport, enable, txt } => FfiActionView::Advertise {
            transport,
            enable,
            txt,
        },
        ActionView::Discover { transport, enable } => FfiActionView::Discover { transport, enable },
        ActionView::BulkSend { transfer, endpoint, key } => FfiActionView::BulkSend {
            transfer,
            endpoint,
            key,
        },
        ActionView::BulkListen { transfer, offered_as, key, expect_bytes } =>
            FfiActionView::BulkListen { transfer, offered_as, key, expect_bytes },
        ActionView::BulkCancel { transfer } => FfiActionView::BulkUnsupported { transfer },
        ActionView::Ui(e) => FfiActionView::Ui { event: ui_of(e) },
    }
}

fn txt_records(txt: &Vec<(String, String)>) -> (r: Vec<FfiTxt>)
    ensures
        r@.map_values(|t: FfiTxt| t@) == txt@.map_values(|p: (String, String)| (p.0@, p.1@)),
{
    let mut out: Vec<FfiTxt> = Vec::new();
    for i in 0..txt.len()
        invariant
            out.len() == i,
            forall|k: int| 0 <= k < i ==> (#[trigger] out@[k])@ == (txt@[k].0@, txt@[k].1@),
    {
        out.push(FfiTxt { key: txt[i].0.clone(), value: txt[i].1.clone() });
    }
    assert(out@.map_values(|t: FfiTxt| t@) =~= txt@.map_values(
        |p: (String, String)| (p.0@, p.1@),
    ));
    out
}

impl FfiAction {
    pub fn from(a: Action) -> (r: FfiAction)
        ensures
            r@ == action_of(a@),
    {
        match a {
            Action::Dial { transport, addr, dial } => FfiAction::Dial {
                transport: transport.0,
                addr,
                dial: dial.0,
            },
            Action::LinkSend { link, msg } => FfiAction::LinkSend { link: link.0, msg },
            Action::Close { link, .. } => FfiAction::Close { link: link.0 },
            Action::Effect { token, effect } => FfiAction::Effect {
                token: token.0,
                effect: FfiEffect::from(effect),
            },
            Action::Persist { key, value, sensitivity } => FfiAction::Persist {
                key,
                value,
                sensitivity: match sensitivity {
                    Sensitivity::Secret => FfiSensitivity::Secret,
                    Sensitivity::Ordinary => FfiSensitivity::Ordinary,
                },
            },
            Action::Advertise { transport, enable, txt } => FfiAction::Advertise {
                transport: transport.0,
                enable,
                txt: txt_records(&txt),
            },
            Action::Discover { transport, enable } => FfiAction::Discover {
                transport: transport.0,
                enable,
            },
            Action::BulkSend { transfer, endpoint, key } => FfiAction::BulkSend {
                transfer: transfer.0,
                endpoint,
                key,
            },
            // Reached only if the host declared the Share effect: the plugin
            // refuses an offer otherwise.
            Action::BulkListen { transfer, offered_as, key, expect_bytes } =>
                FfiAction::BulkListen { transfer: transfer.0, offered_as, key, expect_bytes },
            Action::BulkCancel { transfer } => FfiAction::BulkUnsupported { transfer: transfer.0 },
            Action::Ui(e) => FfiAction::Ui { event: FfiUiEvent::from(e) },
        }
    }
}

#[derive(Clone, Debug)]
pub struct FfiOutcome {
    pub actions: Vec<FfiAction>,
    /// Absolute monotonic milliseconds. The host arms one timer and re-arms
    /// it on every outcome.
    pub next_deadline_ms: Option<u64>,
}

/// How a host is told of everything to do.
pub open spec fn actions_of(actions: Seq<ActionView>) -> Seq<FfiActionView> {
    actions.map_values(|a: ActionView| action_of(a))
}

impl View for FfiOutcome {
    type V = Seq<FfiActionView>;

    open spec fn view(&self) -> Seq<FfiActionView> {
        self.actions@.map_values(|a: FfiAction| a@)
    }
}

impl FfiOutcome {
    pub fn from(o: Outcome) -> (r: FfiOutcome)
        ensures
            r@ == actions_of(o@),
            r.next_deadline_ms == o.next_deadline_ms,
    {
        let mut out: Vec<FfiAction> = Vec::new();
        let ghost all = o.actions@;
        for a in it: o.actions
            invariant
                it.seq() == all,
                out.len() == it.index(),
                forall|k: int| 0 <= k < out.len() ==> (#[trigger] out@[k])@ == action_of(all[k]@),
        {
            out.push(FfiAction::from(a));
        }
        let r = FfiOutcome { actions: out, next_deadline_ms: o.next_deadline_ms };
        assert(r@ =~= actions_of(o@));
        r
    }
}

/// A host is told of an action as the core put it out, field by field; why a link is
/// closed is the core's own affair, and a transfer called off is one it cannot have.
pub proof fn a_host_is_told_of_an_action_as_it_is(a: Action, r: FfiAction)
    requires
        call_ensures(FfiAction::from, (a,), r),
    ensures
        a matches Action::Dial { transport, addr, dial } ==> (
        r matches FfiAction::Dial { transport: t, addr: x, dial: d } && t == transport.0 && x@
            == addr@ && d == dial.0),
        a matches Action::LinkSend { link, msg } ==> (
        r matches FfiAction::LinkSend { link: l, msg: m } && l == link.0 && m@ == msg@),
        a matches Action::Close { link, reason } ==> (r matches FfiAction::Close { link: l } && l
            == link.0),
        a matches Action::Effect { token, effect } ==> (
        r matches FfiAction::Effect { token: t, effect: e } && t == token.0 && e@ == effect_of(
            effect@,
        )),
        a matches Action::Persist { key, value, sensitivity } ==> (
        r matches FfiAction::Persist { key: k, value: v, sensitivity: s } && k@ == key@ && (
        value matches Some(b) ==> (v matches Some(c) && c@ == b@)) && (value is None ==> v is None)
            && (sensitivity == Sensitivity::Secret <==> s == FfiSensitivity::Secret)),
        a matches Action::BulkSend { transfer, endpoint, key } ==> (
        r matches FfiAction::BulkSend { transfer: t, endpoint: p, key: k } && t == transfer.0 && p@
            == endpoint@ && k@ == key@),
        a matches Action::BulkListen { transfer, offered_as, key, expect_bytes } ==> (
        r matches FfiAction::BulkListen { transfer: t, offered_as: o, key: k, expect_bytes: n }
            && t == transfer.0 && o == offered_as && k@ == key@ && n == expect_bytes),
        a matches Action::BulkCancel { transfer } ==> (
        r matches FfiAction::BulkUnsupported { transfer: t } && t == transfer.0),
        a matches Action::Discover { transport, enable } ==> (
        r matches FfiAction::Discover { transport: t, enable: e } && t == transport.0 && e
            == enable),
        a matches Action::Advertise { transport, enable, txt } ==> (
        r matches FfiAction::Advertise { transport: t, enable: e, txt: x } && t == transport.0 && e
            == enable),
        a matches Action::Ui(shown) ==> (r matches FfiAction::Ui { event } && event@ == ui_of(
            shown@,
        )),
{
    assert(r@ == action_of(a@));
}

/// What a host is to show is what the core put out, field by field; an error goes by its
/// name.
pub proof fn a_host_shows_what_was_put_out(e: UiEvent, r: FfiUiEvent)
    requires
        call_ensures(FfiUiEvent::from, (e,), r),
    ensures
        e matches UiEvent::PairingSas { name, fingerprint, sas } ==> (
        r matches FfiUiEvent::PairingSas { name: n, fingerprint: f, sas: s } && n@ == name@ && f@
            == fingerprint@ && s@ == sas@),
        e matches UiEvent::PairingComplete { peer, name } ==> (
        r matches FfiUiEvent::PairingComplete { peer: p, name: n } && p@ == peer@ && n@ == name@),
        e matches UiEvent::PairingFailed { reason } ==> (
        r matches FfiUiEvent::PairingFailed { reason: w } && w@ == reason@),
        e matches UiEvent::Revoked { peer } ==> (r matches FfiUiEvent::Revoked { peer: p } && p@
            == peer@),
        e matches UiEvent::Discovered { fingerprint, name, addr, transport, pairing } ==> (
        r matches FfiUiEvent::Discovered {
            fingerprint: f,
            name: n,
            addr: a,
            transport: t,
            pairing: p,
        } && f@ == fingerprint@ && n@ == name@ && a@ == addr@ && t == transport.0 && p == pairing),
        e matches UiEvent::Undiscovered { fingerprint } ==> (
        r matches FfiUiEvent::Undiscovered { fingerprint: f } && f@ == fingerprint@),
        e matches UiEvent::PeerReachable { peer, name } ==> (
        r matches FfiUiEvent::PeerReachable { peer: p, name: n } && p@ == peer@ && n@ == name@),
        e matches UiEvent::PeerUnreachable { peer } ==> (
        r matches FfiUiEvent::PeerUnreachable { peer: p } && p@ == peer@),
        e matches UiEvent::Plugin { peer, cap, ty, body } ==> (
        r matches FfiUiEvent::Plugin { peer: p, cap: c, ty: t, body: b } && p@ == peer@ && c@
            == cap@ && t@ == ty@ && b@ == body@),
        e matches UiEvent::Error { peer, code, detail } ==> (
        r matches FfiUiEvent::Error { peer: p, code: c, detail: d } && c@ == code.name() && d@
            == detail@ && (peer matches Some(id) ==> (p matches Some(t) && t@ == id@)) && (peer
            is None ==> p is None)),
{
    assert(r@ == ui_of(e@));
}

/// What a host is to do is what the core asked for, field by field: a lock is a lock and
/// an unlock an unlock, a finger is where it is, and an action on a player goes by its
/// verb and its value.
pub proof fn a_host_does_what_was_asked_for(e: Effect, r: FfiEffect, i: int)
    requires
        call_ensures(FfiEffect::from, (e,), r),
    ensures
        e is LockSession <==> r is LockSession,
        e is UnlockSession <==> r is UnlockSession,
        e is QuerySession <==> r is QuerySession,
        e is ClipboardRead <==> r is ClipboardRead,
        e is ListCommands <==> r is ListCommands,
        e is MediaQuery <==> r is MediaQuery,
        e matches Effect::ClipboardWrite { mime, data } ==> (
        r matches FfiEffect::ClipboardWrite { mime: m, data: d } && m@ == mime@ && d@ == data@),
        e matches Effect::RunCommand { id } ==> (r matches FfiEffect::RunCommand { id: n } && n@
            == id@),
        e matches Effect::MediaControl { player, action } ==> (
        r matches FfiEffect::MediaControl { player: p, verb: v, value: n } && p@ == player@ && (v@,
        n) == media_verb(action)),
        e matches Effect::SendMagicPacket { macs, dests, port } ==> (
        r matches FfiEffect::SendMagicPacket { macs: m, dests: d, port: p } && texts(m@) == texts(
            macs@,
        ) && texts(d@) == texts(dests@) && p == port),
        e matches Effect::Touchpad { order, op } ==> (
        r matches FfiEffect::Touchpad { verb: v, order: n, w_mm: w, h_mm: h, points: p } && n
            == order && (op matches TouchpadOp::Begin { w_mm, h_mm } ==> v@ == "begin"@ && w == w_mm
            && h == h_mm) && (op is End ==> v@ == "end"@) && (op matches TouchpadOp::Frame {
            points,
        } ==> v@ == "frame"@ && p.len() == points.len() && (0 <= i < points.len() ==> p@[i].id
            == points@[i].id && p@[i].x == points@[i].x && p@[i].y == points@[i].y))),
        e matches Effect::Custom { ns, verb: v, payload } ==> (
        r matches FfiEffect::Custom { ns: n, verb: w, payload: p } && n@ == ns@ && w@ == v@ && p@
            == payload@),
{
    assert(r@ == effect_of(e@));
    match e {
        Effect::Touchpad { order, op: TouchpadOp::Frame { points } } => {
            assert(points_of(points@).len() == points@.len());
            if 0 <= i < points.len() {
                assert(points_of(points@)[i] == point_of(points@[i]));
            }
        },
        _ => {},
    }
}

/// Every action of an outcome reaches the host, in order, and the host is woken when the
/// core asks to be.
pub proof fn every_action_reaches_the_host(o: Outcome, r: FfiOutcome, i: int)
    requires
        call_ensures(FfiOutcome::from, (o,), r),
    ensures
        r.actions.len() == o.actions.len(),
        0 <= i < o.actions.len() ==> r.actions@[i]@ == action_of(o.actions@[i]@),
        r.next_deadline_ms == o.next_deadline_ms,
{
    assert(r@ == actions_of(o@));
    assert(r@.len() == r.actions@.len());
    assert(actions_of(o@).len() == o.actions@.len());
    if 0 <= i < o.actions.len() {
        assert(r@[i] == r.actions@[i]@);
        assert(actions_of(o@)[i] == action_of(o.actions@[i]@));
    }
}

/// What a host reports is taken as it was reported, field by field, with the peer and the
/// fingerprint that its texts were read as.
pub proof fn a_report_is_taken_as_it_was_made(
    e: FfiEvent,
    id: Result<DeviceId, String>,
    fp: Option<Fingerprint>,
    r: Result<Event, FfiError>,
)
    requires
        call_ensures(Event::read, (e, id, fp), r),
    ensures
        e matches FfiEvent::LinkRecv { link, msg } ==> r == Ok::<Event, FfiError>(
            Event::LinkRecv { link: LinkId(link), msg },
        ),
        e matches FfiEvent::LinkUp { link, attrs, dial } ==> (r matches Ok(
            Event::LinkUp { link: l, attrs: a, dial: d },
        ) && l.0 == link && a.transport.0 == attrs.transport && a.max_message == attrs.max_message
            && a.reliable == attrs.reliable && a.ordered == attrs.ordered && (a.bulk
            == BulkSupport::SideChannel <==> attrs.bulk == FfiBulk::SideChannel) && (
        dial matches Some(n) ==> d == Some(DialToken(n))) && (dial is None ==> d is None)),
        e matches FfiEvent::LinkDown { link, reason } ==> (r matches Ok(
            Event::LinkDown { link: l, reason: w },
        ) && l.0 == link && (reason matches FfiLinkDown::Transport { detail } ==> w
            == LinkDownReason::Transport(detail)) && (!(reason is Transport) ==> w is Closed)),
        e matches FfiEvent::DialFailed { dial, reason } ==> r == Ok::<Event, FfiError>(
            Event::DialFailed { dial: DialToken(dial), reason },
        ),
        e matches FfiEvent::Discovered { transport, peer } ==> (r matches Ok(
            Event::Discovered { transport: t, peer: p },
        ) && t.0 == transport && p.fingerprint == fp && p.name == peer.name && p.addr == peer.addr
            && p.pairing == peer.pairing),
        e matches FfiEvent::Undiscovered { transport, addr } ==> r == Ok::<Event, FfiError>(
            Event::Undiscovered { transport: TransportId(transport), addr },
        ),
        e is Tick ==> (r matches Ok(ev) && ev is Tick),
        e matches FfiEvent::RequestPairing { transport, addr } ==> r == Ok::<Event, FfiError>(
            Event::Local(
                LocalCommand::RequestPairing { transport: TransportId(transport), addr },
            ),
        ),
        e matches FfiEvent::ConfirmPairing { accept } ==> r == Ok::<Event, FfiError>(
            Event::Local(LocalCommand::ConfirmPairing { accept }),
        ),
        e is ReconsiderRoutes ==> r == Ok::<Event, FfiError>(
            Event::Local(LocalCommand::ReconsiderRoutes),
        ),
        e matches FfiEvent::BulkListening { transfer, endpoint } ==> r == Ok::<Event, FfiError>(
            Event::BulkListening { transfer: TransferId(transfer), endpoint },
        ),
        e matches FfiEvent::BulkStarted { transfer } ==> r == Ok::<Event, FfiError>(
            Event::BulkStarted { transfer: TransferId(transfer) },
        ),
        e matches FfiEvent::BulkFinished { transfer, ok, detail } ==> r == Ok::<Event, FfiError>(
            Event::BulkFinished { transfer: TransferId(transfer), ok, detail },
        ),
        e matches FfiEvent::EffectDone { token, result } ==> (r matches Ok(
            Event::EffectDone { token: t, result: x },
        ) && t.0 == token && (result matches FfiEffectResult::Done { data } ==> x
            == EffectResult::Done(data)) && (result matches FfiEffectResult::Failed { detail } ==> x
            == EffectResult::Failed(detail)) && (result is Unsupported ==> x is Unsupported)),
{
}

/// What a host asks of a peer is asked of the peer that its text was read as; a text that
/// is no device id is refused, and nothing is asked.
pub proof fn a_peer_is_the_one_that_was_named(
    e: FfiEvent,
    id: Result<DeviceId, String>,
    fp: Option<Fingerprint>,
    r: Result<Event, FfiError>,
)
    requires
        call_ensures(Event::read, (e, id, fp), r),
        e is SetPeerAddress || e is Connect || e is Disconnect || e is Revoke || e
            is PluginCommand,
    ensures
        id is Err ==> (r matches Err(w) && w@ is BadInput),
        id matches Ok(peer) ==> (e is Connect ==> r == Ok::<Event, FfiError>(
            Event::Local(LocalCommand::Connect { peer }),
        )),
        id matches Ok(peer) ==> (e is Disconnect ==> r == Ok::<Event, FfiError>(
            Event::Local(LocalCommand::Disconnect { peer }),
        )),
        id matches Ok(peer) ==> (e is Revoke ==> r == Ok::<Event, FfiError>(
            Event::Local(LocalCommand::Revoke { peer }),
        )),
        id matches Ok(peer) ==> (e matches FfiEvent::SetPeerAddress { peer: _, transport, addr }
            ==> r == Ok::<Event, FfiError>(
            Event::Local(
                LocalCommand::SetPeerAddress { peer, transport: TransportId(transport), addr },
            ),
        )),
        id matches Ok(peer) ==> (e matches FfiEvent::PluginCommand { peer: _, cap, ty, body }
            ==> r == Ok::<Event, FfiError>(
            Event::Local(LocalCommand::Plugin { peer, cap, ty, body }),
        )),
{
}

/// Each class, state and kind is told by its own name.
pub proof fn every_name_stands_for_its_own(
    k: FfiEffectKind,
    kind: EffectKind,
    s: PeerState,
    state: FfiPeerState,
    t: TransportKind,
    carrier: FfiTransportKind,
)
    requires
        call_ensures(EffectKind::from, (k,), kind),
        call_ensures(FfiPeerState::from, (s,), state),
        call_ensures(FfiTransportKind::from, (t,), carrier),
    ensures
        k == FfiEffectKind::Session <==> kind == EffectKind::Session,
        k == FfiEffectKind::Clipboard <==> kind == EffectKind::Clipboard,
        k == FfiEffectKind::Command <==> kind == EffectKind::Command,
        k == FfiEffectKind::Wol <==> kind == EffectKind::Wol,
        k == FfiEffectKind::Media <==> kind == EffectKind::Media,
        k == FfiEffectKind::Share <==> kind == EffectKind::Share,
        k == FfiEffectKind::Touchpad <==> kind == EffectKind::Touchpad,
        k == FfiEffectKind::Custom <==> kind == EffectKind::Custom,
        s == PeerState::Reachable <==> state == FfiPeerState::Reachable,
        s == PeerState::Connecting <==> state == FfiPeerState::Connecting,
        s == PeerState::Unreachable <==> state == FfiPeerState::Unreachable,
        t is TcpLan <==> carrier is TcpLan,
        t is BleGatt <==> carrier is BleGatt,
        t is UnixLoopback <==> carrier is UnixLoopback,
        t matches TransportKind::Custom(n) ==> (carrier matches FfiTransportKind::Custom { name }
            && name@ == n@),
{
}

/// A link that a host describes is as it described it; the descriptions it is offered are
/// those of the links there are.
pub proof fn a_link_is_as_it_was_described(
    a: FfiLinkAttrs,
    r: LinkAttrs,
    n: u16,
    ble: FfiLinkAttrs,
    lan: FfiLinkAttrs,
    counter: u64,
    id: u64,
)
    requires
        call_ensures(LinkAttrs::from, (a,), r),
        call_ensures(ble_attrs, (n,), ble),
        call_ensures(tcp_lan_attrs, (n,), lan),
        call_ensures(link_id, (n, counter), id),
    ensures
        r.transport.0 == a.transport,
        r.max_message == a.max_message,
        r.reliable == a.reliable,
        r.ordered == a.ordered,
        a.bulk == FfiBulk::SideChannel <==> r.bulk == BulkSupport::SideChannel,
        a.latency == FfiLatency::Ble <==> r.latency == LatencyClass::Ble,
        a.latency == FfiLatency::Lan <==> r.latency == LatencyClass::Lan,
        a.latency == FfiLatency::Wan <==> r.latency == LatencyClass::Wan,
        a.kind is TcpLan <==> r.kind is TcpLan,
        a.kind is BleGatt <==> r.kind is BleGatt,
        ble.transport == n && ble.max_message == 16_384 && ble.bulk == FfiBulk::Unsupported
            && ble.reliable && ble.ordered && ble.kind is BleGatt,
        lan.transport == n && lan.max_message == 1_048_576 && lan.bulk == FfiBulk::SideChannel
            && lan.reliable && lan.ordered && lan.kind is TcpLan,
        id as int / 0x1_0000_0000_0000 == n,
{
    crate::link::link_id_names_its_transport(n, counter);
}

/// A text that is no device id is given back in quotes, and why it is none after it.
pub proof fn a_bad_id_is_shown_with_its_fault(
    t: Seq<char>,
    why: Seq<char>,
    e: FfiError,
    told: String,
)
    requires
        e@ == no_device_id(t, why),
        call_ensures(FfiError::message, (&e,), told),
    ensures
        e is BadInput,
        told@ == "device id "@ + quoted(t) + ": "@ + why,
{
}

} // verus!
