//! The Event / Action vocabulary: the normative host seam. There is no trait
//! to implement and nothing to link against.
//!
//! Host rule: actions run on a single serial executor, results come back as
//! events, and `handle()` is never called from inside an action handler.
use crate::ids::{opt_id, DeviceId, Fingerprint};
use crate::link::{LinkAttrs, LinkDownReason, LinkId, ReasonView, TransportId};
use crate::text::texts;
use crate::wire::ErrorCode;
use vstd::prelude::*;

verus! {

/// The two clocks the core needs; a struct rather than two arguments so they
/// cannot be transposed.
#[derive(Clone, Copy, PartialEq, Eq, Debug, Structural)]
pub struct Now {
    /// Deadlines only. Must not jump when the system clock is corrected, or a
    /// pairing window could be extended by changing the time.
    pub monotonic_ms: u64,
    /// Milliseconds since the Unix epoch. Only for the handshake timestamp two
    /// devices compare against each other; nothing local may depend on it.
    pub wall_ms: u64,
}

/// Correlates an [`Action::Effect`] with the [`Event::EffectDone`] answering it.
#[derive(Clone, Copy, PartialEq, Eq, PartialOrd, Ord, Hash, Debug, Structural)]
pub struct EffectToken(pub u64);

/// One bulk transfer. Allocated by the host that starts it; unique within a
/// session, which is all the key derivation needs.
#[derive(Clone, Copy, PartialEq, Eq, PartialOrd, Ord, Hash, Debug, Structural)]
pub struct TransferId(pub u64);

/// The half of the range the core mints from, leaving the rest to hosts that
/// number their own sends. See [`crate::plugin::Cx::new_transfer`].
pub const MINTED_HERE: u64 = 0x8000_0000_0000_0000;

/// A transfer number without the [`MINTED_HERE`] marker.
pub open spec fn short_form(n: u64) -> u64 {
    if n >= MINTED_HERE {
        (n - MINTED_HERE) as u64
    } else {
        n
    }
}

impl TransferId {
    /// The number to show a person, without the [`MINTED_HERE`] marker they
    /// would otherwise have to retype.
    pub fn short(self) -> (n: u64)
        ensures
            n == short_form(self.0),
    {
        let n: u64 = self.0;
        proof {
            assert(n & !0x8000_0000_0000_0000u64 == if n >= 0x8000_0000_0000_0000u64 {
                (n - 0x8000_0000_0000_0000u64) as u64
            } else {
                n
            }) by (bit_vector);
        }
        n & !MINTED_HERE
    }

    /// Whether `typed` is a way of writing this id, full or short form.
    pub fn written_as(self, typed: u64) -> (r: bool)
        ensures
            r == (typed == self.0 || typed == short_form(self.0)),
    {
        typed == self.0 || typed == self.short()
    }
}

/// Correlates an [`Action::Dial`] with the link it eventually produces.
#[derive(Clone, Copy, PartialEq, Eq, PartialOrd, Ord, Hash, Debug, Structural)]
pub struct DialToken(pub u64);

/// A peer found by discovery. Untrusted: it supplies candidate addresses and
/// nothing more. Identity comes from the handshake, never from an advertisement.
#[derive(Clone, PartialEq, Eq, Debug)]
pub struct DiscoveredPeer {
    /// A hint for matching against a known peer; the handshake settles it.
    pub fingerprint: Option<Fingerprint>,
    pub name: String,
    /// Transport-defined and opaque to the core: a `host:port`, a BLE address.
    pub addr: String,
    /// Whether the advertiser says it currently has a pairing window open.
    pub pairing: bool,
}

#[derive(Debug)]
pub enum Event {
    /// A link is usable. `dial` is set when this link answers an
    /// [`Action::Dial`], and `None` when the peer connected to us.
    LinkUp { link: LinkId, attrs: LinkAttrs, dial: Option<DialToken> },
    /// One whole message. The transport has already dealt with framing and any
    /// fragmentation of its own.
    LinkRecv { link: LinkId, msg: Vec<u8> },
    LinkDown { link: LinkId, reason: LinkDownReason },
    /// A dial failed before any link existed.
    DialFailed { dial: DialToken, reason: String },
    Discovered { transport: TransportId, peer: DiscoveredPeer },
    /// Something discovery had found is no longer there. By address, because
    /// mDNS withdraws an instance, not a fingerprint.
    Undiscovered { transport: TransportId, addr: String },
    /// The single host timer fired. See [`Outcome::next_deadline_ms`].
    Tick,
    /// A host has somewhere for the other end to connect for a bulk transfer.
    /// Only the side that can accept connections sends this.
    BulkListening { transfer: TransferId, endpoint: String },
    /// The far end has connected and bytes are on their way. Ends the bounded
    /// wait for a sender that never dials; the transfer itself is unbounded.
    BulkStarted { transfer: TransferId },
    /// A bulk transfer ended, one way or the other. `detail` is empty on
    /// success.
    BulkFinished { transfer: TransferId, ok: bool, detail: String },
    /// A local UI or CLI asked for something.
    Local(LocalCommand),
    EffectDone { token: EffectToken, result: EffectResult },
}

/// Something a human asked for, locally.
#[derive(Clone, PartialEq, Eq, Debug)]
pub enum LocalCommand {
    /// Dial `addr` and try to pair with whatever answers. The address decides
    /// where to knock and nothing else; the SAS settles who answered.
    RequestPairing { transport: TransportId, addr: String },
    /// Answer the SAS prompt. `false` means the digits did not match: the one
    /// observable sign of a relayed handshake, not a typo.
    ConfirmPairing { accept: bool },
    /// Tell the core where a peer can be reached, bypassing discovery.
    SetPeerAddress { peer: DeviceId, transport: TransportId, addr: String },
    /// Take back what a transport's address for a peer was said to be, if it is
    /// still that one.
    ForgetPeerAddress { peer: DeviceId, transport: TransportId, addr: String },
    Connect { peer: DeviceId },
    /// The network changed; try every peer again from the addresses on file.
    /// Unlike `Connect`, this may dial a peer that is already reachable, when
    /// a better transport has become possible.
    ReconsiderRoutes,
    Disconnect { peer: DeviceId },
    /// Forget a peer entirely. Its next connection is a stranger's.
    Revoke { peer: DeviceId },
    /// Hand a plugin something to send.
    Plugin { peer: DeviceId, cap: String, ty: String, body: Vec<u8> },
}

/// One finger: which one, and where, as fractions of the pad in 1/65535ths.
#[derive(Clone, Copy, PartialEq, Eq, Debug, Structural)]
pub struct TouchPoint {
    pub id: u8,
    pub x: u16,
    pub y: u16,
}

/// What a host does to its virtual touchpad.
#[derive(Clone, PartialEq, Eq, Debug)]
pub enum TouchpadOp {
    /// Make a pad of this size.
    Begin { w_mm: u16, h_mm: u16 },
    /// Every finger that is down.
    Frame { points: Vec<TouchPoint> },
    /// Take the pad away.
    End,
}

/// Something only the host can do. The core never touches a desktop, a
/// clipboard or a socket itself.
#[derive(Clone, PartialEq, Eq, Debug)]
pub enum Effect {
    LockSession,
    UnlockSession,
    QuerySession,
    ClipboardRead,
    ClipboardWrite { mime: String, data: Vec<u8> },
    ListCommands,
    RunCommand { id: String },
    /// What is playing, everywhere on this machine.
    MediaQuery,
    /// Act on a player. An empty `player` means whichever is active; the
    /// host decides what that means, because only it can see them.
    MediaControl { player: String, action: MediaAction },
    SendMagicPacket { macs: Vec<String>, dests: Vec<String>, port: u16 },
    /// `order` says which of two is newer, for a host that runs them apart.
    Touchpad { order: u32, op: TouchpadOp },
    /// Escape hatch so adding a plugin never means editing this enum. A host
    /// that does not recognise `ns` answers [`EffectResult::Unsupported`].
    Custom { ns: String, verb: String, payload: Vec<u8> },
}

/// What to do to a player. Integers keep `Effect` comparable (`Eq`); ranges
/// are checked by the plugin, so a host may pass them on unchecked.
#[derive(Clone, Copy, PartialEq, Eq, Debug, Structural)]
pub enum MediaAction {
    Play,
    Pause,
    PlayPause,
    Next,
    Previous,
    Stop,
    /// Relative, and may be negative.
    Seek { offset_ms: i64 },
    SetPosition { ms: u64 },
    /// 0 to 100.
    SetVolume { percent: u8 },
}

/// The model of a [`TouchpadOp`].
pub enum TouchpadView {
    Begin { w_mm: u16, h_mm: u16 },
    Frame { points: Seq<TouchPoint> },
    End,
}

impl View for TouchpadOp {
    type V = TouchpadView;

    open spec fn view(&self) -> TouchpadView {
        match self {
            TouchpadOp::Begin { w_mm, h_mm } => TouchpadView::Begin { w_mm: *w_mm, h_mm: *h_mm },
            TouchpadOp::Frame { points } => TouchpadView::Frame { points: points@ },
            TouchpadOp::End => TouchpadView::End,
        }
    }
}

/// The model of an [`Effect`].
pub enum EffectView {
    LockSession,
    UnlockSession,
    QuerySession,
    ClipboardRead,
    ClipboardWrite { mime: Seq<char>, data: Seq<u8> },
    ListCommands,
    RunCommand { id: Seq<char> },
    MediaQuery,
    MediaControl { player: Seq<char>, action: MediaAction },
    SendMagicPacket { macs: Seq<Seq<char>>, dests: Seq<Seq<char>>, port: u16 },
    Touchpad { order: u32, op: TouchpadView },
    Custom { ns: Seq<char>, verb: Seq<char>, payload: Seq<u8> },
}

impl View for Effect {
    type V = EffectView;

    open spec fn view(&self) -> EffectView {
        match self {
            Effect::LockSession => EffectView::LockSession,
            Effect::UnlockSession => EffectView::UnlockSession,
            Effect::QuerySession => EffectView::QuerySession,
            Effect::ClipboardRead => EffectView::ClipboardRead,
            Effect::ClipboardWrite { mime, data } => EffectView::ClipboardWrite {
                mime: mime@,
                data: data@,
            },
            Effect::ListCommands => EffectView::ListCommands,
            Effect::RunCommand { id } => EffectView::RunCommand { id: id@ },
            Effect::MediaQuery => EffectView::MediaQuery,
            Effect::MediaControl { player, action } => EffectView::MediaControl {
                player: player@,
                action: *action,
            },
            Effect::SendMagicPacket { macs, dests, port } => EffectView::SendMagicPacket {
                macs: texts(macs@),
                dests: texts(dests@),
                port: *port,
            },
            Effect::Touchpad { order, op } => EffectView::Touchpad { order: *order, op: op@ },
            Effect::Custom { ns, verb, payload } => EffectView::Custom {
                ns: ns@,
                verb: verb@,
                payload: payload@,
            },
        }
    }
}

/// Coarse classes of effect, declared by a host at construction. A host that
/// cannot provide what a plugin requires has that plugin's capabilities left
/// out of the handshake; every host registers the identical plugin set.
#[derive(Clone, Copy, PartialEq, Eq, PartialOrd, Ord, Hash, Debug, Structural)]
pub enum EffectKind {
    Session,
    Clipboard,
    Command,
    Wol,
    Media,
    /// Somewhere to put an incoming file. Gates receiving only; offering needs
    /// no capability, since the sender reads its own bytes.
    Share,
    Touchpad,
    Custom,
}

impl EffectView {
    /// The class an effect belongs to.
    pub open spec fn kind(self) -> EffectKind {
        match self {
            EffectView::LockSession | EffectView::UnlockSession | EffectView::QuerySession =>
                EffectKind::Session,
            EffectView::ClipboardRead | EffectView::ClipboardWrite { .. } => EffectKind::Clipboard,
            EffectView::ListCommands | EffectView::RunCommand { .. } => EffectKind::Command,
            EffectView::SendMagicPacket { .. } => EffectKind::Wol,
            EffectView::MediaQuery | EffectView::MediaControl { .. } => EffectKind::Media,
            EffectView::Touchpad { .. } => EffectKind::Touchpad,
            EffectView::Custom { .. } => EffectKind::Custom,
        }
    }
}

impl Effect {
    pub fn kind(&self) -> (k: EffectKind)
        ensures
            k == self@.kind(),
    {
        match self {
            Effect::LockSession | Effect::UnlockSession | Effect::QuerySession => EffectKind::Session,
            Effect::ClipboardRead | Effect::ClipboardWrite { .. } => EffectKind::Clipboard,
            Effect::ListCommands | Effect::RunCommand { .. } => EffectKind::Command,
            Effect::SendMagicPacket { .. } => EffectKind::Wol,
            Effect::MediaQuery | Effect::MediaControl { .. } => EffectKind::Media,
            Effect::Touchpad { .. } => EffectKind::Touchpad,
            Effect::Custom { .. } => EffectKind::Custom,
        }
    }
}

/// What a host can actually carry out. A bitmask because a `Cx` is built for
/// every message and must not allocate.
#[derive(Clone, Copy, PartialEq, Eq, Debug, Structural)]
pub struct EffectSet(u16);

impl Default for EffectSet {
    /// The set of no class.
    fn default() -> (s: EffectSet)
        ensures
            s.is_exact(),
            forall|k: EffectKind| !s.has(k),
    {
        proof {
            assert forall|k: EffectKind| !EffectSet(0).has(k) by {
                let b = kind_bit(k);
                assert(0u16 & b == 0) by (bit_vector);
            }
        }
        EffectSet(0)
    }
}

/// The bit of a class.
pub open spec fn kind_bit(k: EffectKind) -> u16 {
    match k {
        EffectKind::Session => 1u16,
        EffectKind::Clipboard => 2u16,
        EffectKind::Command => 4u16,
        EffectKind::Wol => 8u16,
        EffectKind::Media => 16u16,
        EffectKind::Share => 32u16,
        EffectKind::Touchpad => 64u16,
        EffectKind::Custom => 128u16,
    }
}

proof fn bits_are_apart(a: EffectKind, b: EffectKind)
    ensures
        kind_bit(a) & kind_bit(b) != 0 <==> a == b,
{
    assert(1u16 & 2u16 == 0 && 1u16 & 4u16 == 0 && 1u16 & 8u16 == 0 && 1u16 & 16u16 == 0 && 1u16
        & 32u16 == 0 && 1u16 & 64u16 == 0 && 1u16 & 128u16 == 0 && 2u16 & 4u16 == 0 && 2u16 & 8u16
        == 0 && 2u16 & 16u16 == 0 && 2u16 & 32u16 == 0 && 2u16 & 64u16 == 0 && 2u16 & 128u16 == 0
        && 4u16 & 8u16 == 0 && 4u16 & 16u16 == 0 && 4u16 & 32u16 == 0 && 4u16 & 64u16 == 0 && 4u16
        & 128u16 == 0 && 8u16 & 16u16 == 0 && 8u16 & 32u16 == 0 && 8u16 & 64u16 == 0 && 8u16
        & 128u16 == 0 && 16u16 & 32u16 == 0 && 16u16 & 64u16 == 0 && 16u16 & 128u16 == 0 && 32u16
        & 64u16 == 0 && 32u16 & 128u16 == 0 && 64u16 & 128u16 == 0) by (bit_vector);
    assert(forall|x: u16, y: u16| #[trigger] (x & y) == y & x) by (bit_vector);
    assert(1u16 & 1u16 != 0 && 2u16 & 2u16 != 0 && 4u16 & 4u16 != 0 && 8u16 & 8u16 != 0 && 16u16
        & 16u16 != 0 && 32u16 & 32u16 != 0 && 64u16 & 64u16 != 0 && 128u16 & 128u16 != 0) by (bit_vector);
}

impl EffectSet {
    /// Whether a class is in the set.
    pub closed spec fn has(self, k: EffectKind) -> bool {
        self.0 & kind_bit(k) != 0
    }

    /// Whether the set holds nothing but classes that there are.
    pub closed spec fn is_exact(self) -> bool {
        self.0 <= 255
    }

    /// The set of the given classes.
    pub fn new(kinds: &Vec<EffectKind>) -> (s: EffectSet)
        ensures
            s.is_exact(),
            forall|k: EffectKind| s.has(k) <==> kinds@.contains(k),
    {
        let mut set: u16 = 0;
        proof {
            assert forall|k: EffectKind| !EffectSet(0).has(k) by {
                let b = kind_bit(k);
                assert(0u16 & b == 0) by (bit_vector);
            }
        }
        for i in 0..kinds.len()
            invariant
                set <= 255,
                forall|k: EffectKind|
                    EffectSet(set).has(k) <==> kinds@.take(i as int).contains(k),
        {
            let b: u16 = Self::bit(kinds[i]);
            let ghost before = set;
            set = set | b;
            proof {
                assert(before <= 255 && b <= 255 ==> before | b <= 255) by (bit_vector);
                assert forall|k: EffectKind|
                    EffectSet(set).has(k) <==> kinds@.take(i + 1).contains(k) by {
                    let kb = kind_bit(k);
                    assert((before | b) & kb != 0 <==> (before & kb != 0 || b & kb != 0))
                        by (bit_vector);
                    bits_are_apart(kinds@[i as int], k);
                    let longer = kinds@.take(i + 1);
                    assert(EffectSet(before).has(k) <==> kinds@.take(i as int).contains(k));
                    if kinds@.take(i as int).contains(k) {
                        let j = choose|j: int| 0 <= j < i && kinds@.take(i as int)[j] == k;
                        assert(longer[j] == k);
                    }
                    assert(longer[i as int] == kinds@[i as int]);
                    if longer.contains(k) && k != kinds@[i as int] {
                        let j = choose|j: int| 0 <= j < longer.len() && longer[j] == k;
                        assert(kinds@.take(i as int)[j] == k);
                    }
                }
            }
        }
        assert(kinds@.take(kinds@.len() as int) =~= kinds@);
        EffectSet(set)
    }

    /// For a host that has not said otherwise, and tests not about this.
    pub fn all() -> (s: EffectSet)
        ensures
            forall|k: EffectKind| s.has(k),
    {
        proof {
            assert forall|k: EffectKind| EffectSet(0xffff).has(k) by {
                let b = kind_bit(k);
                assert(b != 0 ==> 0xffffu16 & b != 0) by (bit_vector);
            }
        }
        EffectSet(0xffff)
    }

    pub fn contains(self, kind: EffectKind) -> (r: bool)
        ensures
            r == self.has(kind),
    {
        self.0 & Self::bit(kind) != 0
    }

    fn bit(kind: EffectKind) -> (b: u16)
        ensures
            b == kind_bit(kind),
    {
        match kind {
            EffectKind::Session => 1,
            EffectKind::Clipboard => 2,
            EffectKind::Command => 4,
            EffectKind::Wol => 8,
            EffectKind::Media => 16,
            EffectKind::Share => 32,
            EffectKind::Touchpad => 64,
            EffectKind::Custom => 128,
        }
    }
}

/// Two sets with the same classes are the same set: neither the order in which they
/// were given nor how often matters, and no classes give the default.
pub proof fn a_set_is_its_classes(a: EffectSet, b: EffectSet)
    requires
        a.is_exact(),
        b.is_exact(),
        forall|k: EffectKind| a.has(k) == b.has(k),
    ensures
        a == b,
{
    let (x, y) = (a.0, b.0);
    assert(a.has(EffectKind::Session) == b.has(EffectKind::Session));
    assert(a.has(EffectKind::Clipboard) == b.has(EffectKind::Clipboard));
    assert(a.has(EffectKind::Command) == b.has(EffectKind::Command));
    assert(a.has(EffectKind::Wol) == b.has(EffectKind::Wol));
    assert(a.has(EffectKind::Media) == b.has(EffectKind::Media));
    assert(a.has(EffectKind::Share) == b.has(EffectKind::Share));
    assert(a.has(EffectKind::Touchpad) == b.has(EffectKind::Touchpad));
    assert(a.has(EffectKind::Custom) == b.has(EffectKind::Custom));
    assert(x == y) by (bit_vector)
        requires
            x <= 255,
            y <= 255,
            (x & 1u16 != 0) == (y & 1u16 != 0),
            (x & 2u16 != 0) == (y & 2u16 != 0),
            (x & 4u16 != 0) == (y & 4u16 != 0),
            (x & 8u16 != 0) == (y & 8u16 != 0),
            (x & 16u16 != 0) == (y & 16u16 != 0),
            (x & 32u16 != 0) == (y & 32u16 != 0),
            (x & 64u16 != 0) == (y & 64u16 != 0),
            (x & 128u16 != 0) == (y & 128u16 != 0),
    ;
}

#[derive(Clone, PartialEq, Eq, Debug)]
pub enum EffectResult {
    /// Opaque to the core; the plugin that asked knows how to read it.
    Done(Vec<u8>),
    /// The host tried and could not.
    Failed(String),
    /// The host does not implement this effect: a static property of the host,
    /// not a transient failure.
    Unsupported,
}

/// The model of an [`EffectResult`].
pub enum ResultView {
    Done(Seq<u8>),
    Failed(Seq<char>),
    Unsupported,
}

impl View for EffectResult {
    type V = ResultView;

    open spec fn view(&self) -> ResultView {
        match self {
            EffectResult::Done(b) => ResultView::Done(b@),
            EffectResult::Failed(t) => ResultView::Failed(t@),
            EffectResult::Unsupported => ResultView::Unsupported,
        }
    }
}

/// Anything a UI or CLI should show.
#[derive(Clone, PartialEq, Eq, Debug)]
pub enum UiEvent {
    /// Both ends show this; the person compares, then answers with
    /// [`LocalCommand::ConfirmPairing`]. The comparison is the security
    /// boundary: a UI that skips it has removed the authentication.
    PairingSas { name: String, fingerprint: Fingerprint, sas: String },
    PairingComplete { peer: DeviceId, name: String },
    /// A peer has been forgotten and its record is gone: the only reliable
    /// moment to redraw the peer list.
    Revoked { peer: DeviceId },
    PairingFailed { reason: String },
    /// A nearby device this one is not paired with. Untrusted: a name to show
    /// and an address to try, nothing more. Paired devices are not reported
    /// here; they are already in `peers`.
    Discovered {
        fingerprint: Fingerprint,
        name: String,
        /// Transport-defined and opaque: a `host:port`, a BLE address.
        addr: String,
        transport: TransportId,
        /// Whether it says it is already busy pairing with somebody; advisory.
        pairing: bool,
    },
    /// A machine that was on the network is not any more, and should stop being
    /// offered. The counterpart to [`UiEvent::Discovered`], and said only for
    /// devices that were reported through it.
    Undiscovered { fingerprint: Fingerprint },
    PeerReachable { peer: DeviceId, name: String },
    PeerUnreachable { peer: DeviceId },
    /// A plugin has something to say to the local UI.
    Plugin { peer: DeviceId, cap: String, ty: String, body: Vec<u8> },
    Error {
        /// Which peer this is about, when it is about one; `None` for errors
        /// belonging to the machine rather than a conversation with somebody.
        peer: Option<DeviceId>,
        code: ErrorCode,
        detail: String,
    },
}

/// The model of a [`UiEvent`].
pub enum UiView {
    PairingSas { name: Seq<char>, fingerprint: Seq<char>, sas: Seq<char> },
    PairingComplete { peer: Seq<char>, name: Seq<char> },
    Revoked { peer: Seq<char> },
    PairingFailed { reason: Seq<char> },
    Discovered {
        fingerprint: Seq<char>,
        name: Seq<char>,
        addr: Seq<char>,
        transport: u16,
        pairing: bool,
    },
    Undiscovered { fingerprint: Seq<char> },
    PeerReachable { peer: Seq<char>, name: Seq<char> },
    PeerUnreachable { peer: Seq<char> },
    Plugin { peer: Seq<char>, cap: Seq<char>, ty: Seq<char>, body: Seq<u8> },
    Error { peer: Option<Seq<char>>, code: ErrorCode, detail: Seq<char> },
}

impl View for UiEvent {
    type V = UiView;

    open spec fn view(&self) -> UiView {
        match self {
            UiEvent::PairingSas { name, fingerprint, sas } => UiView::PairingSas {
                name: name@,
                fingerprint: fingerprint@,
                sas: sas@,
            },
            UiEvent::PairingComplete { peer, name } => UiView::PairingComplete {
                peer: peer@,
                name: name@,
            },
            UiEvent::Revoked { peer } => UiView::Revoked { peer: peer@ },
            UiEvent::PairingFailed { reason } => UiView::PairingFailed { reason: reason@ },
            UiEvent::Discovered { fingerprint, name, addr, transport, pairing } =>
                UiView::Discovered {
                fingerprint: fingerprint@,
                name: name@,
                addr: addr@,
                transport: transport.0,
                pairing: *pairing,
            },
            UiEvent::Undiscovered { fingerprint } => UiView::Undiscovered {
                fingerprint: fingerprint@,
            },
            UiEvent::PeerReachable { peer, name } => UiView::PeerReachable {
                peer: peer@,
                name: name@,
            },
            UiEvent::PeerUnreachable { peer } => UiView::PeerUnreachable { peer: peer@ },
            UiEvent::Plugin { peer, cap, ty, body } => UiView::Plugin {
                peer: peer@,
                cap: cap@,
                ty: ty@,
                body: body@,
            },
            UiEvent::Error { peer, code, detail } => UiView::Error {
                peer: opt_id(*peer),
                code: *code,
                detail: detail@,
            },
        }
    }
}

/// Where a persisted value should live. The core does no IO, so it says what a
/// value is and lets the host decide where that belongs: Keychain on iOS, a
/// `0600` file on Linux.
#[derive(Clone, Copy, PartialEq, Eq, Debug, Structural)]
pub enum Sensitivity {
    /// Key material. Never a plain file, never a log, never a backup.
    Secret,
    /// Peer records, watermarks, settings.
    Ordinary,
}

#[derive(Clone, PartialEq, Eq, Debug)]
pub enum Action {
    Dial { transport: TransportId, addr: String, dial: DialToken },
    LinkSend { link: LinkId, msg: Vec<u8> },
    Close { link: LinkId, reason: LinkDownReason },
    Effect { token: EffectToken, effect: Effect },
    Persist { key: String, value: Option<Vec<u8>>, sensitivity: Sensitivity },
    /// Start or stop advertising ourselves over a transport's discovery.
    Advertise { transport: TransportId, enable: bool, txt: Vec<(String, String)> },
    Discover { transport: TransportId, enable: bool },
    /// Accept a bulk connection for `transfer`, and say where.
    ///
    /// The host answers with [`Event::BulkListening`] once it has somewhere,
    /// [`Event::BulkStarted`] when the far end actually connects, and
    /// [`Event::BulkFinished`] when the transfer ends. A host that cannot listen
    /// reports that as a finished-and-failed transfer rather than staying
    /// silent.
    BulkListen {
        transfer: TransferId,
        /// What the *sender* calls this transfer, which is a different number.
        ///
        /// The greeting on the bulk socket is written by the dialer, and a
        /// dialer only knows its own numbering, so this, not `transfer`, is
        /// what a listener must check that greeting against. Getting it wrong
        /// does not fail politely: the listener rejects the one connection it
        /// was waiting for, and the sender sees the socket close on it.
        offered_as: u64,
        /// Derived from the session. The core is the only thing that knows the
        /// session secret; the host gets a scoped, single-use key and nothing
        /// else.
        key: Vec<u8>,
        /// What the far end says it is sending, so a host can decide whether it
        /// wants it before anything arrives.
        expect_bytes: u64,
    },
    /// Connect to `endpoint` and stream the bytes for `transfer`.
    BulkSend { transfer: TransferId, endpoint: String, key: Vec<u8> },
    /// Stop a transfer that has not finished.
    BulkCancel { transfer: TransferId },
    Ui(UiEvent),
}

/// The model of an [`Action`].
pub enum ActionView {
    Dial { transport: u16, addr: Seq<char>, dial: u64 },
    LinkSend { link: u64, msg: Seq<u8> },
    Close { link: u64, reason: ReasonView },
    Effect { token: u64, effect: EffectView },
    Persist { key: Seq<char>, value: Option<Seq<u8>>, sensitivity: Sensitivity },
    Advertise { transport: u16, enable: bool, txt: Seq<(Seq<char>, Seq<char>)> },
    Discover { transport: u16, enable: bool },
    BulkListen { transfer: u64, offered_as: u64, key: Seq<u8>, expect_bytes: u64 },
    BulkSend { transfer: u64, endpoint: Seq<char>, key: Seq<u8> },
    BulkCancel { transfer: u64 },
    Ui(UiView),
}

impl View for Action {
    type V = ActionView;

    open spec fn view(&self) -> ActionView {
        match self {
            Action::Dial { transport, addr, dial } => ActionView::Dial {
                transport: transport.0,
                addr: addr@,
                dial: dial.0,
            },
            Action::LinkSend { link, msg } => ActionView::LinkSend { link: link.0, msg: msg@ },
            Action::Close { link, reason } => ActionView::Close { link: link.0, reason: reason@ },
            Action::Effect { token, effect } => ActionView::Effect {
                token: token.0,
                effect: effect@,
            },
            Action::Persist { key, value, sensitivity } => ActionView::Persist {
                key: key@,
                value: match value {
                    Some(v) => Some(v@),
                    None => None,
                },
                sensitivity: *sensitivity,
            },
            Action::Advertise { transport, enable, txt } => ActionView::Advertise {
                transport: transport.0,
                enable: *enable,
                txt: txt@.map_values(|p: (String, String)| (p.0@, p.1@)),
            },
            Action::Discover { transport, enable } => ActionView::Discover {
                transport: transport.0,
                enable: *enable,
            },
            Action::BulkListen { transfer, offered_as, key, expect_bytes } =>
                ActionView::BulkListen {
                transfer: transfer.0,
                offered_as: *offered_as,
                key: key@,
                expect_bytes: *expect_bytes,
            },
            Action::BulkSend { transfer, endpoint, key } => ActionView::BulkSend {
                transfer: transfer.0,
                endpoint: endpoint@,
                key: key@,
            },
            Action::BulkCancel { transfer } => ActionView::BulkCancel { transfer: transfer.0 },
            Action::Ui(e) => ActionView::Ui(e@),
        }
    }
}

/// What one call to `Core::handle` produced.
#[derive(Debug)]
pub struct Outcome {
    pub actions: Vec<Action>,
    /// Absolute monotonic milliseconds at which the host should deliver
    /// [`Event::Tick`], or `None` for "no timer needed".
    ///
    /// A single re-armed deadline rather than `SetTimer`/`CancelTimer` actions
    /// with tokens, which would leak and desync across a host boundary.
    pub next_deadline_ms: Option<u64>,
}

impl View for Outcome {
    type V = Seq<ActionView>;

    open spec fn view(&self) -> Seq<ActionView> {
        self.actions@.map_values(|a: Action| a@)
    }
}

impl Outcome {
    /// Nothing to do.
    pub fn new() -> (o: Outcome)
        ensures
            o@ == Seq::<ActionView>::empty(),
            o.next_deadline_ms is None,
    {
        let o = Outcome { actions: Vec::new(), next_deadline_ms: None };
        assert(o@ =~= Seq::<ActionView>::empty());
        o
    }

    pub(crate) fn push(&mut self, a: Action)
        ensures
            final(self)@ == old(self)@.push(a@),
    {
        self.actions.push(a);
        assert(self@ =~= old(self)@.push(a@));
    }

    pub(crate) fn ui(&mut self, e: UiEvent)
        ensures
            final(self)@ == old(self)@.push(ActionView::Ui(e@)),
    {
        self.push(Action::Ui(e));
    }
}

/// An effect is of the class of what it asks for.
pub proof fn an_effect_is_of_its_class(e: Effect, k: EffectKind)
    requires
        call_ensures(Effect::kind, (&e,), k),
    ensures
        k == EffectKind::Session <==> e is LockSession || e is UnlockSession || e is QuerySession,
        k == EffectKind::Clipboard <==> e is ClipboardRead || e is ClipboardWrite,
        k == EffectKind::Command <==> e is ListCommands || e is RunCommand,
        k == EffectKind::Wol <==> e is SendMagicPacket,
        k == EffectKind::Media <==> e is MediaQuery || e is MediaControl,
        k == EffectKind::Touchpad <==> e is Touchpad,
        k == EffectKind::Custom <==> e is Custom,
        k != EffectKind::Share,
{
}

/// A transfer can be written in full or without its mark, and the two do not run into
/// each other: both lead to it, and nothing else does.
pub proof fn a_transfer_is_named_two_ways(t: TransferId, n: u64, typed: u64, r: bool)
    requires
        call_ensures(TransferId::short, (t,), n),
        call_ensures(TransferId::written_as, (t, typed), r),
    ensures
        n < 0x8000_0000_0000_0000,
        n == t.0 || n + 0x8000_0000_0000_0000 == t.0,
        r <==> typed == t.0 || typed == n,
{
}

/// What the screen is given is what was put out, field by field.
pub proof fn the_screen_shows_what_was_put_out(e: UiEvent)
    ensures
        e matches UiEvent::PairingSas { name, fingerprint, sas } ==> (
        e@ matches UiView::PairingSas { name: n, fingerprint: f, sas: s } && n == name@ && f
            == fingerprint@ && s == sas@),
        e matches UiEvent::PairingComplete { peer, name } ==> (
        e@ matches UiView::PairingComplete { peer: p, name: n } && p == peer@ && n == name@),
        e matches UiEvent::Discovered { fingerprint, name, addr, transport, pairing } ==> (
        e@ matches UiView::Discovered {
            fingerprint: f,
            name: n,
            addr: a,
            transport: t,
            pairing: p,
        } && f == fingerprint@ && n == name@ && a == addr@ && t == transport.0 && p == pairing),
        e matches UiEvent::PeerReachable { peer, name } ==> (
        e@ matches UiView::PeerReachable { peer: p, name: n } && p == peer@ && n == name@),
        e matches UiEvent::Plugin { peer, cap, ty, body } ==> (
        e@ matches UiView::Plugin { peer: p, cap: c, ty: t, body: b } && p == peer@ && c == cap@
            && t == ty@ && b == body@),
        e matches UiEvent::Error { peer, code, detail } ==> (
        e@ matches UiView::Error { peer: p, code: c, detail: d } && c == code && d == detail@ && (
        peer matches Some(id) ==> p == Some(id@)) && (peer is None ==> p is None)),
        e matches UiEvent::PairingFailed { reason } ==> (
        e@ matches UiView::PairingFailed { reason: r } && r == reason@),
        e matches UiEvent::Revoked { peer } ==> (e@ matches UiView::Revoked { peer: p } && p
            == peer@),
        e matches UiEvent::PeerUnreachable { peer } ==> (
        e@ matches UiView::PeerUnreachable { peer: p } && p == peer@),
        e matches UiEvent::Undiscovered { fingerprint } ==> (
        e@ matches UiView::Undiscovered { fingerprint: f } && f == fingerprint@),
{
}

/// What a host is asked for is what was put out, field by field.
pub proof fn the_host_is_asked_what_was_put_out(a: Action, e: Effect)
    ensures
        a matches Action::Dial { transport, addr, dial } ==> (
        a@ matches ActionView::Dial { transport: t, addr: x, dial: d } && t == transport.0 && x
            == addr@ && d == dial.0),
        a matches Action::LinkSend { link, msg } ==> (
        a@ matches ActionView::LinkSend { link: l, msg: m } && l == link.0 && m == msg@),
        a matches Action::Close { link, reason } ==> (
        a@ matches ActionView::Close { link: l, reason: r } && l == link.0 && r == reason@),
        a matches Action::Effect { token, effect } ==> (
        a@ matches ActionView::Effect { token: t, effect: f } && t == token.0 && f == effect@),
        a matches Action::Persist { key, value, sensitivity } ==> (
        a@ matches ActionView::Persist { key: k, value: v, sensitivity: s } && k == key@ && s
            == sensitivity && (value matches Some(b) ==> v == Some(b@)) && (value is None ==> v
            is None)),
        a matches Action::BulkListen { transfer, offered_as, key, expect_bytes } ==> (
        a@ matches ActionView::BulkListen { transfer: t, offered_as: o, key: k, expect_bytes: n }
            && t == transfer.0 && o == offered_as && k == key@ && n == expect_bytes),
        a matches Action::BulkSend { transfer, endpoint, key } ==> (
        a@ matches ActionView::BulkSend { transfer: t, endpoint: p, key: k } && t == transfer.0
            && p == endpoint@ && k == key@),
        a matches Action::BulkCancel { transfer } ==> (
        a@ matches ActionView::BulkCancel { transfer: t } && t == transfer.0),
        a matches Action::Ui(shown) ==> a@ == ActionView::Ui(shown@),
        e is LockSession <==> e@ is LockSession,
        e is UnlockSession <==> e@ is UnlockSession,
        e is QuerySession <==> e@ is QuerySession,
        e is ClipboardRead <==> e@ is ClipboardRead,
        e is ListCommands <==> e@ is ListCommands,
        e is MediaQuery <==> e@ is MediaQuery,
        e matches Effect::ClipboardWrite { mime, data } ==> e@ == (EffectView::ClipboardWrite {
            mime: mime@,
            data: data@,
        }),
        e matches Effect::RunCommand { id } ==> e@ == (EffectView::RunCommand { id: id@ }),
        e matches Effect::MediaControl { player, action } ==> e@ == (EffectView::MediaControl {
            player: player@,
            action,
        }),
        e matches Effect::SendMagicPacket { macs, dests, port } ==> (
        e@ matches EffectView::SendMagicPacket { macs: m, dests: d, port: p } && m == texts(macs@)
            && d == texts(dests@) && p == port),
{
}

} // verus!
