//! The plugin seam. A plugin is only the protocol half of a feature, the part
//! identical on every device; effectors and UI live in the hosts. Plugins
//! cannot do IO or read a clock: everything goes through [`Cx`], which
//! accumulates intentions the core turns into actions after the plugin returns.
use crate::body::{body_reads_back, value_of};
use crate::ids::DeviceId;
use crate::link::BulkSupport;
use crate::plugins::stock::Stock;
use crate::text::{join2, same};
use crate::vocab::{
    Effect, EffectKind, EffectResult, EffectSet, EffectToken, EffectView, ResultView,
    TransferId, UiEvent, UiView, MINTED_HERE,
};
use crate::wire::{error_body, Envelope, EnvelopeView, ErrorBody, ErrorBodyView, ErrorCode};
use vstd::prelude::*;

verus! {

/// How much longer than a host's own budget a client waits for the answer,
/// covering the reply's travel time. Every client budget must be the matching
/// host budget plus this.
pub const REPLY_SLACK_MS: u64 = 4_000;

#[derive(Clone, PartialEq, Eq, Debug)]
pub struct PluginManifest {
    /// Reverse-DNS, no version: `"org.acrylius.clipboard"`.
    pub id: &'static str,
    /// Capabilities this side may send. Advertised as `caps_out`.
    pub outgoing: Vec<&'static str>,
    /// Capabilities this side can handle. Advertised as `caps_in`.
    pub incoming: Vec<&'static str>,
    /// Effects this plugin needs in order to serve requests. Does not gate
    /// registration or advertising: a device that cannot serve a verb can
    /// still ask for it, and answers `not_allowed` when asked.
    pub requires_effects: Vec<EffectKind>,
}

/// The model of a [`PluginManifest`].
pub struct ManifestView {
    pub id: Seq<char>,
    pub outgoing: Seq<Seq<char>>,
    pub incoming: Seq<Seq<char>>,
    pub requires_effects: Seq<EffectKind>,
}

/// The characters of each name in a list.
pub open spec fn names(list: Seq<&'static str>) -> Seq<Seq<char>> {
    list.map_values(|s: &'static str| s@)
}

impl View for PluginManifest {
    type V = ManifestView;

    open spec fn view(&self) -> ManifestView {
        ManifestView {
            id: self.id@,
            outgoing: names(self.outgoing@),
            incoming: names(self.incoming@),
            requires_effects: self.requires_effects@,
        }
    }
}

/// The manifest of a plugin whose one capability goes both ways.
pub open spec fn both_ways(id: Seq<char>, cap: Seq<char>, needs: Seq<EffectKind>) -> ManifestView {
    ManifestView { id, outgoing: seq![cap], incoming: seq![cap], requires_effects: needs }
}

impl PluginManifest {
    /// The manifest of a plugin whose one capability goes both ways.
    pub fn both_ways(
        id: &'static str,
        cap: &'static str,
        needs: Vec<EffectKind>,
    ) -> (m: PluginManifest)
        ensures
            m@ == both_ways(id@, cap@, needs@),
    {
        let m = PluginManifest {
            id,
            outgoing: vec![cap],
            incoming: vec![cap],
            requires_effects: needs,
        };
        assert(m@.outgoing =~= seq![cap@]);
        assert(m@.incoming =~= seq![cap@]);
        m
    }
}

#[derive(Clone, PartialEq, Eq, Debug)]
pub enum PluginError {
    BadBody,
    NotAllowed,
    UnknownType(String),
    TooLarge,
    Internal(String),
}

/// The model of a [`PluginError`].
pub enum FaultView {
    BadBody,
    NotAllowed,
    UnknownType(Seq<char>),
    TooLarge,
    Internal(Seq<char>),
}

impl View for PluginError {
    type V = FaultView;

    open spec fn view(&self) -> FaultView {
        match self {
            PluginError::BadBody => FaultView::BadBody,
            PluginError::NotAllowed => FaultView::NotAllowed,
            PluginError::UnknownType(t) => FaultView::UnknownType(t@),
            PluginError::TooLarge => FaultView::TooLarge,
            PluginError::Internal(t) => FaultView::Internal(t@),
        }
    }
}

/// A text in double quotes, as `Debug` writes it: quotes, backslashes and
/// characters that cannot be printed are escaped.
pub uninterp spec fn quoted(t: Seq<char>) -> Seq<char>;

/// `str`'s `Debug` formatting, under the name [`quoted`].
#[verifier::external_body]
pub(crate) fn quote(t: &str) -> (r: String)
    ensures
        r@ == quoted(t@),
{
    format!("{t:?}")
}

impl FaultView {
    /// The code a fault is answered with.
    pub open spec fn code(self) -> ErrorCode {
        match self {
            FaultView::BadBody => ErrorCode::BadBody,
            FaultView::NotAllowed => ErrorCode::NotAllowed,
            FaultView::UnknownType(_) => ErrorCode::UnknownType,
            FaultView::TooLarge => ErrorCode::TooLarge,
            FaultView::Internal(_) => ErrorCode::Internal,
        }
    }

    /// The fault in words.
    pub open spec fn message(self) -> Seq<char> {
        match self {
            FaultView::BadBody => "body did not decode"@,
            FaultView::NotAllowed => "refused by policy"@,
            FaultView::UnknownType(t) => "unknown message type "@ + quoted(t),
            FaultView::TooLarge => "too large"@,
            FaultView::Internal(t) => t,
        }
    }
}

impl PluginError {
    pub fn code(&self) -> (c: ErrorCode)
        ensures
            c == self@.code(),
    {
        match self {
            PluginError::BadBody => ErrorCode::BadBody,
            PluginError::NotAllowed => ErrorCode::NotAllowed,
            PluginError::UnknownType(_) => ErrorCode::UnknownType,
            PluginError::TooLarge => ErrorCode::TooLarge,
            PluginError::Internal(_) => ErrorCode::Internal,
        }
    }

    /// The error in words.
    pub fn message(&self) -> (t: String)
        ensures
            t@ == self@.message(),
    {
        match self {
            PluginError::BadBody => "body did not decode".to_owned(),
            PluginError::NotAllowed => "refused by policy".to_owned(),
            PluginError::UnknownType(t) => join2("unknown message type ", quote(t.as_str()).as_str()),
            PluginError::TooLarge => "too large".to_owned(),
            PluginError::Internal(t) => t.clone(),
        }
    }
}

/// What a plugin's answer says.
pub open spec fn answer(r: Result<(), PluginError>) -> Result<(), FaultView> {
    match r {
        Ok(_) => Ok(()),
        Err(e) => Err(e@),
    }
}

/// A message a plugin wants sent. The core encrypts and frames it after the
/// plugin returns; a plugin never holds a session or a link.
#[derive(Clone, PartialEq, Eq, Debug)]
pub struct PendingSend {
    pub peer: DeviceId,
    pub cap: String,
    pub ty: String,
    pub body: Vec<u8>,
    pub re: Option<u32>,
}

/// The model of a [`PendingSend`].
pub struct SendView {
    pub peer: Seq<char>,
    pub cap: Seq<char>,
    pub ty: Seq<char>,
    pub body: Seq<u8>,
    pub re: Option<u32>,
}

impl View for PendingSend {
    type V = SendView;

    open spec fn view(&self) -> SendView {
        SendView {
            peer: self.peer@,
            cap: self.cap@,
            ty: self.ty@,
            body: self.body@,
            re: self.re,
        }
    }
}

/// A plugin asking for a side channel. It names a peer and a transfer; the key
/// is the core's to supply, because the session secret is the core's alone.
#[derive(Clone, PartialEq, Eq, Debug)]
pub enum BulkRequest {
    /// Accept a connection for this transfer, and say where.
    Listen {
        peer: DeviceId,
        /// Ours, and what the host is told to listen for.
        transfer: TransferId,
        /// The offerer's number for it: the bulk key is derived from the
        /// offerer's device id and transfer number on both ends.
        offered_as: u64,
        expect_bytes: u64,
    },
    /// Connect to somewhere the far end named, and send.
    Send { peer: DeviceId, transfer: TransferId, endpoint: String },
    Cancel { transfer: TransferId },
}

/// The model of a [`BulkRequest`].
pub enum BulkView {
    Listen { peer: Seq<char>, transfer: u64, offered_as: u64, expect_bytes: u64 },
    Send { peer: Seq<char>, transfer: u64, endpoint: Seq<char> },
    Cancel { transfer: u64 },
}

impl View for BulkRequest {
    type V = BulkView;

    open spec fn view(&self) -> BulkView {
        match self {
            BulkRequest::Listen { peer, transfer, offered_as, expect_bytes } => BulkView::Listen {
                peer: peer@,
                transfer: transfer.0,
                offered_as: *offered_as,
                expect_bytes: *expect_bytes,
            },
            BulkRequest::Send { peer, transfer, endpoint } => BulkView::Send {
                peer: peer@,
                transfer: transfer.0,
                endpoint: endpoint@,
            },
            BulkRequest::Cancel { transfer } => BulkView::Cancel { transfer: transfer.0 },
        }
    }
}

/// The only way a plugin affects anything.
pub struct Cx {
    pub now_ms: u64,
    /// Owned rather than borrowed: a `&mut` into the core would conflict with
    /// the core's own borrow of the plugin it is calling.
    pub next_token: u64,
    /// One transfer counter for the whole device; see [`Cx::new_transfer`].
    pub next_transfer: u64,
    pub sends: Vec<PendingSend>,
    pub effects: Vec<(EffectToken, Effect)>,
    pub ui: Vec<UiEvent>,
    pub wake_at: Option<u64>,
    /// Bulk transfers this plugin asked to start; the core supplies the key.
    pub bulk: Vec<BulkRequest>,
    /// What this host can carry out. See [`Cx::serves`].
    pub serves: EffectSet,
    /// What the link to this dispatch's peer can carry, when known.
    pub peer_bulk: Option<BulkSupport>,
}

/// The model of a [`Cx`].
#[verifier::ext_equal]
pub struct CxView {
    pub now_ms: u64,
    pub next_token: u64,
    pub next_transfer: u64,
    pub sends: Seq<SendView>,
    pub effects: Seq<(u64, EffectView)>,
    pub ui: Seq<UiView>,
    pub wake_at: Option<u64>,
    pub bulk: Seq<BulkView>,
    pub serves: EffectSet,
    pub peer_bulk: Option<BulkSupport>,
}

impl View for Cx {
    type V = CxView;

    open spec fn view(&self) -> CxView {
        CxView {
            now_ms: self.now_ms,
            next_token: self.next_token,
            next_transfer: self.next_transfer,
            sends: self.sends@.map_values(|s: PendingSend| s@),
            effects: self.effects@.map_values(|e: (EffectToken, Effect)| (e.0.0, e.1@)),
            ui: self.ui@.map_values(|e: UiEvent| e@),
            wake_at: self.wake_at,
            bulk: self.bulk@.map_values(|b: BulkRequest| b@),
            serves: self.serves,
            peer_bulk: self.peer_bulk,
        }
    }
}

/// The number after `n`; the counter starts over when it is used up.
pub open spec fn after(n: u64) -> u64 {
    if n == u64::MAX {
        0
    } else {
        (n + 1) as u64
    }
}

/// A transfer number with the marker of the core's half of the range.
pub open spec fn minted(n: u64) -> u64 {
    if n >= MINTED_HERE {
        n
    } else {
        (n + MINTED_HERE) as u64
    }
}

/// The sooner of a wish and a new one.
pub open spec fn sooner(a: Option<u64>, b: u64) -> u64 {
    match a {
        Some(x) => if x <= b {
            x
        } else {
            b
        },
        None => b,
    }
}

impl CxView {
    /// One more message to send.
    pub open spec fn sent(
        self,
        peer: Seq<char>,
        cap: Seq<char>,
        ty: Seq<char>,
        body: Seq<u8>,
        re: Option<u32>,
    ) -> CxView {
        CxView { sends: self.sends.push(SendView { peer, cap, ty, body, re }), ..self }
    }

    /// One more error answer to send.
    pub open spec fn refused(
        self,
        peer: Seq<char>,
        cap: Seq<char>,
        re: u32,
        code: Seq<char>,
        message: Seq<char>,
    ) -> CxView {
        self.sent(peer, cap, "err"@, error_body(code, message), Some(re))
    }

    /// One more effect, under the next token.
    pub open spec fn asked(self, e: EffectView) -> CxView {
        CxView {
            next_token: after(self.next_token),
            effects: self.effects.push((after(self.next_token), e)),
            ..self
        }
    }

    /// One more thing for the local screen.
    pub open spec fn shown(self, e: UiView) -> CxView {
        CxView { ui: self.ui.push(e), ..self }
    }

    /// One more plugin message for the local screen.
    pub open spec fn told(
        self,
        peer: Seq<char>,
        cap: Seq<char>,
        ty: Seq<char>,
        body: Seq<u8>,
    ) -> CxView {
        self.shown(UiView::Plugin { peer, cap, ty, body })
    }

    /// One more side channel.
    pub open spec fn bulked(self, b: BulkView) -> CxView {
        CxView { bulk: self.bulk.push(b), ..self }
    }

    /// Woken no later than `ms` from now.
    pub open spec fn woken(self, ms: u64) -> CxView {
        let at = if self.now_ms + ms > u64::MAX {
            u64::MAX
        } else {
            (self.now_ms + ms) as u64
        };
        CxView { wake_at: Some(sooner(self.wake_at, at)), ..self }
    }
}

/// Whether every body that a context holds is one that a machine can.
pub open spec fn holdable(cx: CxView) -> bool {
    &&& forall|k: int| 0 <= k < cx.sends.len() ==> (#[trigger] cx.sends[k]).body.len() <= u64::MAX
    &&& forall|k: int|
        0 <= k < cx.ui.len() ==> (#[trigger] cx.ui[k] matches UiView::Plugin { body, .. } ==> body.len()
            <= u64::MAX)
}

impl Cx {
    /// A context in which nothing has been asked for.
    pub fn new(now_ms: u64, next_token: u64, next_transfer: u64, serves: EffectSet) -> (cx: Cx)
        ensures
            cx@ == (CxView {
                now_ms,
                next_token,
                next_transfer,
                sends: Seq::empty(),
                effects: Seq::empty(),
                ui: Seq::empty(),
                wake_at: None,
                bulk: Seq::empty(),
                serves,
                peer_bulk: None,
            }),
    {
        let cx = Cx {
            now_ms,
            next_token,
            next_transfer,
            sends: Vec::new(),
            effects: Vec::new(),
            ui: Vec::new(),
            wake_at: None,
            bulk: Vec::new(),
            serves,
            peer_bulk: None,
        };
        assert(cx@ =~= CxView {
            now_ms,
            next_token,
            next_transfer,
            sends: Seq::empty(),
            effects: Seq::empty(),
            ui: Seq::empty(),
            wake_at: None,
            bulk: Seq::empty(),
            serves,
            peer_bulk: None,
        });
        cx
    }

    /// Tell this context what the link to the peer being dispatched for can
    /// carry. Set only where a dispatch concerns one peer.
    pub fn for_peer_link(self, bulk: Option<BulkSupport>) -> (cx: Cx)
        ensures
            cx@ == (CxView { peer_bulk: bulk, ..self@ }),
    {
        let mut cx = self;
        cx.peer_bulk = bulk;
        cx
    }

    /// Whether a side channel to this peer could carry bytes at all. Unknown
    /// counts as yes: only a link that positively said it cannot is refused.
    pub fn peer_can_carry_bulk(&self) -> (r: bool)
        ensures
            r == (self@.peer_bulk != Some(BulkSupport::Unsupported)),
    {
        match self.peer_bulk {
            Some(BulkSupport::Unsupported) => false,
            _ => true,
        }
    }

    /// Whether this host can carry out an effect, as opposed to only asking
    /// another device for it. Plugins register on every device.
    pub fn serves(&self, kind: EffectKind) -> (r: bool)
        ensures
            r == self@.serves.has(kind),
    {
        self.serves.contains(kind)
    }

    /// Milliseconds on the host's monotonic clock, handed in rather than read.
    pub fn now_ms(&self) -> (n: u64)
        ensures
            n == self@.now_ms,
    {
        self.now_ms
    }

    fn push_send(&mut self, s: PendingSend)
        ensures
            final(self)@ == (CxView { sends: old(self)@.sends.push(s@), ..old(self)@ }),
    {
        self.sends.push(s);
        assert(self@.sends =~= old(self)@.sends.push(s@));
    }

    pub fn send(&mut self, peer: &DeviceId, cap: &str, ty: &str, body: Vec<u8>)
        ensures
            final(self)@ == old(self)@.sent(peer@, cap@, ty@, body@, None),
    {
        self.push_send(
            PendingSend { peer: peer.clone(), cap: cap.to_owned(), ty: ty.to_owned(), body, re: None },
        );
    }

    /// Reply within the capability of `to`, correlated to its id.
    pub fn reply(&mut self, peer: &DeviceId, to: &Envelope, ty: &str, body: Vec<u8>)
        ensures
            final(self)@ == old(self)@.sent(peer@, to.cap@, ty@, body@, Some(to.id)),
    {
        self.push_send(
            PendingSend {
                peer: peer.clone(),
                cap: to.cap.clone(),
                ty: ty.to_owned(),
                body,
                re: Some(to.id),
            },
        );
    }

    /// Reply to a request whose envelope is no longer in hand.
    pub fn send_reply(&mut self, peer: &DeviceId, cap: &str, ty: &str, body: Vec<u8>, re: u32)
        ensures
            final(self)@ == old(self)@.sent(peer@, cap@, ty@, body@, Some(re)),
    {
        self.push_send(
            PendingSend {
                peer: peer.clone(),
                cap: cap.to_owned(),
                ty: ty.to_owned(),
                body,
                re: Some(re),
            },
        );
    }

    /// Answer a request with a named error from the closed vocabulary.
    pub fn send_error(&mut self, peer: &DeviceId, cap: &str, re: u32, code: &str, message: &str)
        ensures
            final(self)@ == old(self)@.refused(peer@, cap@, re, code@, message@),
    {
        let body = ErrorBody::encode(code, message);
        self.send_reply(peer, cap, "err", body, re);
    }

    pub fn effect(&mut self, e: Effect) -> (t: EffectToken)
        ensures
            final(self)@ == old(self)@.asked(e@),
            t.0 == after(old(self)@.next_token),
    {
        self.next_token = self.next_token.wrapping_add(1);
        let t = EffectToken(self.next_token);
        self.effects.push((t, e));
        assert(self@.effects =~= old(self)@.effects.push((t.0, e@)));
        t
    }

    /// A transfer id valid on this device, never the id in an arriving offer,
    /// which the sender numbered; the minter must remember that mapping, since
    /// the wire keeps the sender's id. The top bit marks plugin-minted ids so
    /// they cannot collide with host-numbered ones.
    pub fn new_transfer(&mut self) -> (t: TransferId)
        ensures
            final(self)@ == (CxView {
                next_transfer: after(old(self)@.next_transfer),
                ..old(self)@
            }),
            t.0 == minted(after(old(self)@.next_transfer)),
            t.0 >= MINTED_HERE,
    {
        self.next_transfer = self.next_transfer.wrapping_add(1);
        let n: u64 = self.next_transfer;
        proof {
            assert(0x8000_0000_0000_0000u64 | n == if n >= 0x8000_0000_0000_0000u64 {
                n
            } else {
                (n + 0x8000_0000_0000_0000u64) as u64
            }) by (bit_vector);
        }
        TransferId(MINTED_HERE | n)
    }

    pub fn ui(&mut self, e: UiEvent)
        ensures
            final(self)@ == old(self)@.shown(e@),
    {
        self.ui.push(e);
        assert(self@.ui =~= old(self)@.ui.push(e@));
    }

    /// A plugin message for the local screen.
    pub fn tell(&mut self, peer: &DeviceId, cap: &str, ty: &str, body: Vec<u8>)
        ensures
            final(self)@ == old(self)@.told(peer@, cap@, ty@, body@),
    {
        self.ui(
            UiEvent::Plugin { peer: peer.clone(), cap: cap.to_owned(), ty: ty.to_owned(), body },
        );
    }

    fn push_bulk(&mut self, b: BulkRequest)
        ensures
            final(self)@ == old(self)@.bulked(b@),
    {
        self.bulk.push(b);
        assert(self@.bulk =~= old(self)@.bulk.push(b@));
    }

    /// Accept a bulk connection for `transfer` and tell the peer where. The
    /// endpoint is negotiated because a phone cannot listen.
    pub fn bulk_listen(
        &mut self,
        peer: &DeviceId,
        transfer: TransferId,
        offered_as: u64,
        expect_bytes: u64,
    )
        ensures
            final(self)@ == old(self)@.bulked(
                BulkView::Listen { peer: peer@, transfer: transfer.0, offered_as, expect_bytes },
            ),
    {
        self.push_bulk(
            BulkRequest::Listen { peer: peer.clone(), transfer, offered_as, expect_bytes },
        );
    }

    /// Connect to an endpoint the peer named, and send.
    pub fn bulk_send(&mut self, peer: &DeviceId, transfer: TransferId, endpoint: &str)
        ensures
            final(self)@ == old(self)@.bulked(
                BulkView::Send { peer: peer@, transfer: transfer.0, endpoint: endpoint@ },
            ),
    {
        self.push_bulk(
            BulkRequest::Send { peer: peer.clone(), transfer, endpoint: endpoint.to_owned() },
        );
    }

    pub fn bulk_cancel(&mut self, transfer: TransferId)
        ensures
            final(self)@ == old(self)@.bulked(BulkView::Cancel { transfer: transfer.0 }),
    {
        self.push_bulk(BulkRequest::Cancel { transfer });
    }

    /// Ask to be woken no later than `ms` from now. The core folds this into the
    /// single deadline it hands the host.
    pub fn wake_in(&mut self, ms: u64)
        ensures
            final(self)@ == old(self)@.woken(ms),
    {
        let at: u64 = self.now_ms.saturating_add(ms);
        self.wake_at = Some(
            match self.wake_at {
                Some(w) => if w <= at {
                    w
                } else {
                    at
                },
                None => at,
            },
        );
    }
}

/// What a plugin can be told.
pub enum Told {
    Message { peer: Seq<char>, env: EnvelopeView },
    Connected { peer: Seq<char> },
    Disconnected { peer: Seq<char> },
    Local { peer: Seq<char>, ty: Seq<char>, body: Seq<u8> },
    Answer { token: u64, result: ResultView },
    Listening { transfer: u64, endpoint: Seq<char> },
    Finished { transfer: u64, ok: bool, detail: Seq<char> },
    Tick,
}

/// What a plugin remembers from one time it is told something to the next.
pub enum Memory {
    Ping(u32),
    Session(crate::plugins::session::SessionView),
    Wol(crate::plugins::wol::WakerView),
    Clipboard(crate::plugins::clipboard::ClipView),
    Command(crate::plugins::command::RunnerView),
    Media(crate::plugins::media::RemoteView),
    Share(crate::plugins::share::ShareView),
    Touchpad(crate::plugins::touchpad::PadView),
    /// What a plugin of somebody else's remembers, however it says so.
    Other(Seq<u8>),
}

/// The protocol half of a feature.
pub trait Plugin: Send {
    /// What the plugin remembers. One that says nothing of it leaves it so.
    open spec fn memory(&self) -> Memory {
        Memory::Other(Seq::empty())
    }

    /// What a plugin promises: whether what it is told may lead from one context
    /// to the other, to this answer, and to its remembering `next`. One that
    /// promises nothing leaves it so.
    open spec fn may(
        &self,
        told: Told,
        cx: CxView,
        after: CxView,
        r: Result<(), FaultView>,
        next: Memory,
    ) -> bool {
        true
    }

    fn manifest(&self) -> PluginManifest;

    /// A negotiated message arrived. The core has already checked that `cap` was
    /// in the intersection for this direction, so a plugin never has to.
    fn on_message(&mut self, cx: &mut Cx, peer: &DeviceId, env: &Envelope) -> (r: Result<
        (),
        PluginError,
    >)
        ensures
            old(self).may(
                (Told::Message { peer: peer@, env: env@ }),
                old(cx)@,
                final(cx)@,
                answer(r),
                final(self).memory(),
            ),
    ;

    fn on_peer_connected(&mut self, cx: &mut Cx, peer: &DeviceId)
        ensures
            old(self).may(
                (Told::Connected { peer: peer@ }),
                old(cx)@,
                final(cx)@,
                Ok(()),
                final(self).memory(),
            ),
    ;

    fn on_peer_disconnected(&mut self, cx: &mut Cx, peer: &DeviceId)
        ensures
            old(self).may(
                (Told::Disconnected { peer: peer@ }),
                old(cx)@,
                final(cx)@,
                Ok(()),
                final(self).memory(),
            ),
    ;

    /// A local UI or CLI addressed this plugin.
    fn on_local(&mut self, cx: &mut Cx, peer: &DeviceId, ty: &str, body: &[u8]) -> (r: Result<
        (),
        PluginError,
    >)
        ensures
            old(self).may(
                (Told::Local { peer: peer@, ty: ty@, body: body@ }),
                old(cx)@,
                final(cx)@,
                answer(r),
                final(self).memory(),
            ),
    ;

    fn on_effect_result(&mut self, cx: &mut Cx, token: EffectToken, result: &EffectResult)
        ensures
            old(self).may(
                (Told::Answer { token: token.0, result: result@ }),
                old(cx)@,
                final(cx)@,
                Ok(()),
                final(self).memory(),
            ),
    ;

    /// The host has somewhere for the far end to connect.
    fn on_bulk_listening(&mut self, cx: &mut Cx, transfer: TransferId, endpoint: &str)
        ensures
            old(self).may(
                (Told::Listening { transfer: transfer.0, endpoint: endpoint@ }),
                old(cx)@,
                final(cx)@,
                Ok(()),
                final(self).memory(),
            ),
    ;

    /// A bulk transfer ended. `detail` is empty on success.
    fn on_bulk_finished(&mut self, cx: &mut Cx, transfer: TransferId, ok: bool, detail: &str)
        ensures
            old(self).may(
                (Told::Finished { transfer: transfer.0, ok, detail: detail@ }),
                old(cx)@,
                final(cx)@,
                Ok(()),
                final(self).memory(),
            ),
    ;

    fn on_tick(&mut self, cx: &mut Cx)
        ensures
            old(self).may(Told::Tick, old(cx)@, final(cx)@, Ok(()), final(self).memory()),
    ;
}

/// A plugin and what it declared when it was registered.
pub struct Registered {
    pub plugin: Stock,
    pub manifest: PluginManifest,
}

/// What some plugins declared.
pub open spec fn manifests_of(plugins: Seq<Registered>) -> Seq<ManifestView> {
    plugins.map_values(|r: Registered| r.manifest@)
}

impl ManifestView {
    /// Whether a capability is one of this plugin's.
    pub open spec fn handles(self, cap: Seq<char>) -> bool {
        self.incoming.contains(cap) || self.outgoing.contains(cap)
    }
}

fn lists(list: &Vec<&'static str>, cap: &str) -> (r: bool)
    ensures
        r == names(list@).contains(cap@),
{
    for i in 0..list.len()
        invariant
            forall|k: int| 0 <= k < i ==> names(list@)[k] != cap@,
    {
        if same(list[i], cap) {
            assert(names(list@)[i as int] == cap@);
            return true;
        }
    }
    false
}

/// Matching includes the major version, so `org.acrylius.clipboard/2` does not
/// reach a plugin that only declared `/1`.
pub fn handles(manifest: &PluginManifest, cap: &str) -> (r: bool)
    ensures
        r == manifest@.handles(cap@),
{
    lists(&manifest.incoming, cap) || lists(&manifest.outgoing, cap)
}

/// A minted transfer number is in the core's half of the range, and a host's
/// own number below the marker never equals one.
pub proof fn minted_numbers_are_apart(counter: u64, host: u64)
    requires
        host < MINTED_HERE,
    ensures
        minted(counter) >= MINTED_HERE,
        minted(counter) != host,
        counter < MINTED_HERE ==> crate::vocab::short_form(minted(counter)) == counter,
{
}

/// A message that is sent is the last of those to be sent, to the peer and in the
/// words it was given, after everything that was there; and nothing else is asked for.
pub proof fn a_send_adds_one_message(
    cx: CxView,
    peer: Seq<char>,
    cap: Seq<char>,
    ty: Seq<char>,
    body: Seq<u8>,
    re: Option<u32>,
)
    ensures
        ({
            let end = cx.sent(peer, cap, ty, body, re);
            let m = end.sends.last();
            &&& end.sends.len() == cx.sends.len() + 1
            &&& end.sends.drop_last() == cx.sends
            &&& m.peer == peer && m.cap == cap && m.ty == ty && m.body == body && m.re == re
            &&& end.effects == cx.effects && end.ui == cx.ui && end.bulk == cx.bulk
            &&& end.next_token == cx.next_token && end.next_transfer == cx.next_transfer
            &&& end.wake_at == cx.wake_at
        }),
{
    assert(cx.sent(peer, cap, ty, body, re).sends.drop_last() =~= cx.sends);
}

/// An error answer goes to the peer that asked, names the request it answers, and says
/// the code and the words it was given; nothing else is asked for.
pub proof fn an_error_answers_its_request(
    cx: CxView,
    peer: Seq<char>,
    cap: Seq<char>,
    re: u32,
    code: Seq<char>,
    message: Seq<char>,
)
    requires
        error_body(code, message).len() <= u64::MAX,
    ensures
        ({
            let end = cx.refused(peer, cap, re, code, message);
            let m = end.sends.last();
            &&& end.sends.len() == cx.sends.len() + 1
            &&& end.sends.drop_last() == cx.sends
            &&& m.peer == peer && m.cap == cap && m.ty == "err"@ && m.re == Some(re)
            &&& value_of::<ErrorBody>(m.body) matches Some(e) && e.code == code && e.message
                == message
            &&& end.effects == cx.effects && end.ui == cx.ui && end.bulk == cx.bulk
        }),
{
    assert(cx.refused(peer, cap, re, code, message).sends.drop_last() =~= cx.sends);
    body_reads_back::<ErrorBody>(ErrorBodyView { code, message });
}

/// An effect is asked for once, after everything that was there, under a number that
/// no effect of this context had: one more than the last, until the count starts over.
pub proof fn an_effect_has_a_number_of_its_own(cx: CxView, e: EffectView)
    ensures
        ({
            let end = cx.asked(e);
            let (token, effect) = end.effects.last();
            &&& end.effects.len() == cx.effects.len() + 1
            &&& end.effects.drop_last() == cx.effects
            &&& effect == e
            &&& token == end.next_token
            &&& cx.next_token < u64::MAX ==> token == cx.next_token + 1
            &&& cx.next_token == u64::MAX ==> token == 0
            &&& end.sends == cx.sends && end.ui == cx.ui && end.bulk == cx.bulk
            &&& end.next_transfer == cx.next_transfer && end.wake_at == cx.wake_at
        }),
{
    assert(cx.asked(e).effects.drop_last() =~= cx.effects);
}

/// What the screen is shown, and what it is told by a plugin, comes after everything
/// that was there, as it was given; nothing else is asked for.
pub proof fn the_screen_is_told_once(
    cx: CxView,
    e: UiView,
    peer: Seq<char>,
    cap: Seq<char>,
    ty: Seq<char>,
    body: Seq<u8>,
)
    ensures
        cx.shown(e).ui.len() == cx.ui.len() + 1,
        cx.shown(e).ui.drop_last() == cx.ui,
        cx.shown(e).ui.last() == e,
        cx.shown(e) == (CxView { ui: cx.shown(e).ui, ..cx }),
        cx.told(peer, cap, ty, body).ui.len() == cx.ui.len() + 1,
        cx.told(peer, cap, ty, body).ui.drop_last() == cx.ui,
        cx.told(peer, cap, ty, body) == (CxView { ui: cx.told(peer, cap, ty, body).ui, ..cx }),
        cx.told(peer, cap, ty, body).ui.last() matches UiView::Plugin {
            peer: p,
            cap: c,
            ty: t,
            body: b,
        } && p == peer && c == cap && t == ty && b == body,
{
    assert(cx.shown(e).ui.drop_last() =~= cx.ui);
    assert(cx.told(peer, cap, ty, body).ui.drop_last() =~= cx.ui);
}

/// A side channel is asked for once, after those that were there; nothing else is.
pub proof fn a_side_channel_is_asked_for_once(cx: CxView, b: BulkView)
    ensures
        cx.bulked(b).bulk.len() == cx.bulk.len() + 1,
        cx.bulked(b).bulk.drop_last() == cx.bulk,
        cx.bulked(b).bulk.last() == b,
        cx.bulked(b) == (CxView { bulk: cx.bulked(b).bulk, ..cx }),
{
    assert(cx.bulked(b).bulk.drop_last() =~= cx.bulk);
}

/// A plugin is woken no later than it asked to be, and no earlier than the soonest it
/// or another had asked for.
pub proof fn a_wake_is_not_late(cx: CxView, ms: u64)
    ensures
        cx.woken(ms).wake_at matches Some(at) && {
            &&& at <= cx.now_ms + ms
            &&& cx.wake_at matches Some(before) ==> at <= before
            &&& at == cx.now_ms + ms || at == u64::MAX || cx.wake_at == Some(at)
        },
        cx.woken(ms) == (CxView { wake_at: cx.woken(ms).wake_at, ..cx }),
{
}

/// A number that was minted here has the top bit of the range and keeps the rest of
/// the count, so two counts have two numbers; and it is drawn from the next count.
pub proof fn minted_numbers_tell_counts_apart(a: u64, b: u64)
    requires
        a < 0x8000_0000_0000_0000,
        b < 0x8000_0000_0000_0000,
    ensures
        minted(a) == a + 0x8000_0000_0000_0000,
        minted(a) == minted(b) ==> a == b,
        after(a) == a + 1,
{
}

/// Each fault is answered under the code that names it, and no two share one.
pub proof fn a_fault_has_its_code(a: FaultView, b: FaultView)
    ensures
        a.code() == b.code() ==> (a is BadBody <==> b is BadBody) && (a is NotAllowed <==> b is NotAllowed)
            && (a is UnknownType <==> b is UnknownType) && (a is TooLarge <==> b is TooLarge) && (
        a is Internal <==> b is Internal),
        a is BadBody ==> a.code().name() == "bad_body"@,
        a is NotAllowed ==> a.code().name() == "not_allowed"@,
        a is UnknownType ==> a.code().name() == "unknown_type"@,
        a is TooLarge ==> a.code().name() == "too_large"@,
        a is Internal ==> a.code().name() == "internal"@,
        a matches FaultView::Internal(words) ==> a.message() == words,
        a matches FaultView::UnknownType(t) ==> a.message() == "unknown message type "@ + quoted(t),
{
}

/// A plugin hears of a capability that it takes or sends, and of no other.
pub proof fn a_plugin_hears_of_its_own(
    id: Seq<char>,
    own: Seq<char>,
    cap: Seq<char>,
    needs: Seq<EffectKind>,
)
    ensures
        both_ways(id, own, needs).handles(cap) <==> cap == own,
        both_ways(id, own, needs).id == id,
        both_ways(id, own, needs).requires_effects == needs,
        forall|c: Seq<char>| both_ways(id, own, needs).incoming.contains(c) <==> c == own,
        forall|c: Seq<char>| both_ways(id, own, needs).outgoing.contains(c) <==> c == own,
{
    let m = both_ways(id, own, needs);
    assert(m.incoming[0] == own);
    assert(m.outgoing[0] == own);
}

/// Each fault is put into words of its own; what was not understood is named, and what went
/// wrong inside is told as it is.
pub proof fn a_fault_is_told_in_words(t: Seq<char>)
    ensures
        FaultView::BadBody.message() == "body did not decode"@,
        FaultView::NotAllowed.message() == "refused by policy"@,
        FaultView::TooLarge.message() == "too large"@,
        FaultView::UnknownType(t).message() == "unknown message type "@ + quoted(t),
        FaultView::Internal(t).message() == t,
{
}

} // verus!
