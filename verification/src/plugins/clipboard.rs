//! `org.acrylius.clipboard/1`: share the clipboard.
//!
//! The whole difficulty is loops. Two peers that forward every change they see
//! will echo a single paste at each other forever, and the failure is not
//! obvious in testing because it needs two live devices to appear.
//!
//! The fix is to remember hashes. Each side keeps the hash of the last value it
//! set locally and the last it received, and forwards a local change only when
//! it matches neither. [`a_received_value_is_not_sent_back`] and
//! [`a_local_value_is_sent_once`] say that this is enough.
//!
//! The two directions are separately switchable, and that is not only a
//! preference. iOS cannot read its own pasteboard silently: since iOS 16 a
//! programmatic read of content that came from another app raises a system
//! prompt, and only a paste button, the paste menu, or the keyboard shortcut
//! are exempt. `changeCount` can be polled without a prompt, so an iOS host can
//! notice a change and offer a button, but it cannot sync silently. Computer to
//! phone is unaffected.
use crate::body::{from_bytes, to_bytes, value_of, Body};
use crate::cbor::{
    array_reads, bytes_field, bytes_item, bytes_read, close, end_of, every_end_is_later,
    field_bytes, field_text, got, head, open, open_at, open_moves_on, put_array, put_bytes,
    put_text, rest, stands_split, text_field, text_item, text_reads,
};
use crate::ids::DeviceId;
use crate::plugin::{
    after, answer, both_ways, Cx, CxView, FaultView, Memory, Plugin, PluginError, PluginManifest, Told,
};
use crate::plugins::roster::{
    a_round_reaches_everyone_else, departed, departed_is_gone, joined, joined_is_there, sent_round,
    Asker, AskerView, Roster,
};
use crate::table::Table;
use crate::text::{copy_bytes, same, same_bytes};
use crate::vocab::{
    Effect, EffectKind, EffectResult, EffectToken, EffectView, ResultView, TransferId,
};
use crate::wire::{error_body, Envelope};
use vstd::prelude::*;

verus! {

pub const CAP: &'static str = "org.acrylius.clipboard/1";

/// The only type version 1 carries.
pub const TEXT_PLAIN: &'static str = "text/plain;charset=utf-8";

/// Anything larger is refused rather than truncated. A silently shortened
/// clipboard is worse than one that did not sync.
pub const MAX_INLINE: usize = 128 * 1024;

#[derive(Clone, PartialEq, Eq, Debug)]
pub struct ClipboardSet {
    pub mime: String,
    pub data: Vec<u8>,
    /// SHA-256 of `data`. Carried so a receiver need not rehash to compare.
    pub hash: Vec<u8>,
}

/// The model of a [`ClipboardSet`].
pub struct SetView {
    pub mime: Seq<char>,
    pub data: Seq<u8>,
    pub hash: Seq<u8>,
}

impl View for ClipboardSet {
    type V = SetView;

    open spec fn view(&self) -> SetView {
        SetView { mime: self.mime@, data: self.data@, hash: self.hash@ }
    }
}

impl Body for ClipboardSet {
    open spec fn item(v: SetView) -> Seq<u8> {
        head(4, 3) + text_item(v.mime) + bytes_item(v.data) + bytes_item(v.hash)
    }

    open spec fn item_at(b: Seq<u8>, at: int) -> Option<(SetView, int)> {
        let mime = text_field(b, open_at(b, at));
        let data = bytes_field(b, rest(mime));
        let hash = bytes_field(b, rest(data));
        match end_of(b, rest(hash)) {
            Some(end) => Some((SetView { mime: got(mime), data: got(data), hash: got(hash) }, end)),
            None => None,
        }
    }

    proof fn item_reads(w: Seq<u8>, at: int, v: SetView) {
        let p0 = head(4, 3);
        let p1 = p0 + text_item(v.mime);
        let p2 = p1 + bytes_item(v.data);
        stands_split(w, at, p2, bytes_item(v.hash));
        stands_split(w, at, p1, bytes_item(v.data));
        stands_split(w, at, p0, text_item(v.mime));
        array_reads(w, at, 3);
        text_reads(w, at + p0.len(), v.mime);
        bytes_read(w, at + p1.len(), v.data);
        bytes_read(w, at + p2.len(), v.hash);
    }

    proof fn item_moves_on(b: Seq<u8>, at: int) {
        open_moves_on(b, at);
        every_end_is_later(b);
    }

    fn put(&self, out: &mut Vec<u8>) {
        put_array(out, 3);
        put_text(out, self.mime.as_str());
        put_bytes(out, &self.data);
        put_bytes(out, &self.hash);
        assert(out@ =~= old(out)@ + Self::item(self@));
    }

    fn get(b: &[u8], at: usize) -> (r: Option<(ClipboardSet, usize)>) {
        let c = open(b, at)?;
        let (mime, c) = field_text(b, c)?;
        let (data, c) = field_bytes(b, c)?;
        let (hash, c) = field_bytes(b, c)?;
        let end: usize = close(b, c)?;
        Some((ClipboardSet { mime, data, hash }, end))
    }
}

/// The SHA-256 digest of some bytes.
pub uninterp spec fn sha256(data: Seq<u8>) -> Seq<u8>;

/// `sha2::Sha256`: `new`, `update` with all the data, `finalize`. The digest is
/// the value named [`sha256`], 32 bytes long.
#[verifier::external_body]
fn digest(data: &[u8]) -> (h: Vec<u8>)
    ensures
        h@ == sha256(data@),
        h@.len() == 32,
{
    let mut h = <sha2::Sha256 as sha2::Digest>::new();
    sha2::Digest::update(&mut h, data);
    sha2::Digest::finalize(h).to_vec()
}

/// The hash a value is known by.
pub fn hash(data: &[u8]) -> (h: Vec<u8>)
    ensures
        h@ == sha256(data@),
        h@.len() == 32,
{
    digest(data)
}

#[derive(Clone, Copy, PartialEq, Eq, Debug, Structural)]
pub struct Directions {
    /// Forward what happens here to peers.
    pub send: bool,
    /// Apply what peers send.
    pub receive: bool,
}

impl Default for Directions {
    fn default() -> (d: Directions)
        ensures
            d.send,
            d.receive,
    {
        Directions { send: true, receive: true }
    }
}

pub struct ClipboardPlugin {
    pub directions: Directions,
    connected: Roster,
    /// The last value this side put on its own clipboard.
    last_local: Option<Vec<u8>>,
    /// The last value a peer sent us.
    last_remote: Option<Vec<u8>>,
    pending: Table<u64, Asker>,
}

/// The model of a [`ClipboardPlugin`]. A value is remembered by its hash.
pub struct ClipView {
    pub directions: Directions,
    pub connected: Seq<Seq<char>>,
    pub last_local: Option<Seq<u8>>,
    pub last_remote: Option<Seq<u8>>,
    pub pending: Map<u64, AskerView>,
}

spec fn opt_bytes(b: Option<Vec<u8>>) -> Option<Seq<u8>> {
    match b {
        Some(v) => Some(v@),
        None => None,
    }
}

impl View for ClipboardPlugin {
    type V = ClipView;

    closed spec fn view(&self) -> ClipView {
        ClipView {
            directions: self.directions,
            connected: self.connected@,
            last_local: opt_bytes(self.last_local),
            last_remote: opt_bytes(self.last_remote),
            pending: self.pending@,
        }
    }
}

impl ClipView {
    /// Whether a value is one that was just received or just sent.
    pub open spec fn is_echo(self, h: Seq<u8>) -> bool {
        self.last_remote == Some(h) || self.last_local == Some(h)
    }
}

/// What a value is sent as.
pub open spec fn set_body(data: Seq<u8>) -> Seq<u8> {
    ClipboardSet::item(SetView { mime: TEXT_PLAIN@, data, hash: sha256(data) })
}

pub type Step = (ClipView, CxView, Result<(), FaultView>);

/// A peer's clipboard arrives. It is taken only where receiving is on, it is
/// not too large, it is plain text and its hash is right.
pub open spec fn set_arrives(s: ClipView, cx: CxView, body: Seq<u8>) -> Step {
    match value_of::<ClipboardSet>(body) {
        None => (s, cx, Err(FaultView::BadBody)),
        Some(m) => if !s.directions.receive {
            (s, cx, Err(FaultView::NotAllowed))
        } else if m.data.len() > MAX_INLINE {
            (s, cx, Err(FaultView::TooLarge))
        } else if m.mime != TEXT_PLAIN@ {
            (s, cx, Err(FaultView::NotAllowed))
        } else if m.hash != sha256(m.data) {
            (s, cx, Err(FaultView::BadBody))
        } else {
            (
                ClipView { last_remote: Some(sha256(m.data)), ..s },
                cx.asked(EffectView::ClipboardWrite { mime: m.mime, data: m.data }),
                Ok(()),
            )
        },
    }
}

/// A message from a peer.
pub open spec fn message(
    s: ClipView,
    cx: CxView,
    peer: Seq<char>,
    id: u32,
    ty: Seq<char>,
    body: Seq<u8>,
) -> Step {
    if ty == "set"@ {
        set_arrives(s, cx, body)
    } else if ty == "get"@ {
        (
            ClipView {
                pending: s.pending.insert(after(cx.next_token), AskerView { peer, request: id }),
                ..s
            },
            cx.asked(EffectView::ClipboardRead),
            Ok(()),
        )
    } else {
        (s, cx, Err(FaultView::UnknownType(ty)))
    }
}

/// The host noticed a local change.
pub open spec fn changed(s: ClipView, cx: CxView, data: Seq<u8>) -> Step {
    if !s.directions.send {
        (s, cx, Ok(()))
    } else if data.len() > MAX_INLINE {
        (s, cx, Err(FaultView::TooLarge))
    } else if s.is_echo(sha256(data)) {
        (s, cx, Ok(()))
    } else {
        (
            ClipView { last_local: Some(sha256(data)), ..s },
            sent_round(cx, s.connected, None, CAP@, "set"@, set_body(data)),
            Ok(()),
        )
    }
}

/// A request from the local screen.
pub open spec fn local(
    s: ClipView,
    cx: CxView,
    peer: Seq<char>,
    ty: Seq<char>,
    body: Seq<u8>,
) -> Step {
    if ty == "changed"@ {
        changed(s, cx, body)
    } else if ty == "get"@ {
        (s, cx.sent(peer, CAP@, "get"@, Seq::empty(), None), Ok(()))
    } else {
        (s, cx, Err(FaultView::UnknownType(ty)))
    }
}

/// The host has read the clipboard, or could not.
pub open spec fn effect_done(
    s: ClipView,
    cx: CxView,
    token: u64,
    result: ResultView,
) -> (ClipView, CxView) {
    if !s.pending.dom().contains(token) {
        (s, cx)
    } else {
        let p = s.pending[token];
        let left = ClipView { pending: s.pending.remove(token), ..s };
        match result {
            ResultView::Done(data) => (
                ClipView { last_local: Some(sha256(data)), ..left },
                cx.sent(p.peer, CAP@, "set"@, set_body(data), Some(p.request)),
            ),
            ResultView::Failed(detail) => (
                left,
                cx.refused(p.peer, CAP@, p.request, "effect_failed"@, detail),
            ),
            ResultView::Unsupported => (
                left,
                cx.refused(p.peer, CAP@, p.request, "not_allowed"@, "no clipboard here"@),
            ),
        }
    }
}

impl ClipboardPlugin {
    pub fn new(directions: Directions) -> (p: ClipboardPlugin)
        ensures
            p@ == (ClipView {
                directions,
                connected: Seq::empty(),
                last_local: None,
                last_remote: None,
                pending: Map::empty(),
            }),
    {
        ClipboardPlugin {
            directions,
            connected: Roster::new(),
            last_local: None,
            last_remote: None,
            pending: Table::new(),
        }
    }

    /// Whether a locally observed value is one that was just received or sent.
    fn is_echo(&self, h: &[u8]) -> (r: bool)
        ensures
            r == self@.is_echo(h@),
    {
        let received = match &self.last_remote {
            Some(x) => same_bytes(x, h),
            None => false,
        };
        let sent = match &self.last_local {
            Some(x) => same_bytes(x, h),
            None => false,
        };
        received || sent
    }

    fn on_set(&mut self, cx: &mut Cx, body: &[u8]) -> (r: Result<(), PluginError>)
        ensures
            (final(self)@, final(cx)@, answer(r)) == set_arrives(old(self)@, old(cx)@, body@),
    {
        let msg = match from_bytes::<ClipboardSet>(body) {
            Some(m) => m,
            None => return Err(PluginError::BadBody),
        };
        if !self.directions.receive {
            return Err(PluginError::NotAllowed);
        }
        if msg.data.len() > MAX_INLINE {
            return Err(PluginError::TooLarge);
        }
        if !same(msg.mime.as_str(), TEXT_PLAIN) {
            return Err(PluginError::NotAllowed);
        }
        let h = hash(&msg.data);
        if !same_bytes(&msg.hash, &h) {
            return Err(PluginError::BadBody);
        }
        // Remember before applying. The host will observe this value on its own
        // clipboard a moment later, and must not send it back.
        self.last_remote = Some(h);
        let _ = cx.effect(Effect::ClipboardWrite { mime: msg.mime, data: msg.data });
        Ok(())
    }

    fn on_changed(&mut self, cx: &mut Cx, body: &[u8]) -> (r: Result<(), PluginError>)
        ensures
            (final(self)@, final(cx)@, answer(r)) == changed(old(self)@, old(cx)@, body@),
    {
        if !self.directions.send {
            return Ok(());
        }
        if body.len() > MAX_INLINE {
            return Err(PluginError::TooLarge);
        }
        let h = hash(body);
        if self.is_echo(&h) {
            return Ok(());
        }
        self.last_local = Some(copy_bytes(&h));
        let encoded = to_bytes(
            &ClipboardSet { mime: TEXT_PLAIN.to_owned(), data: copy_bytes(body), hash: h },
        );
        self.connected.tell_all(cx, None, CAP, "set", &encoded);
        Ok(())
    }
}

impl Default for ClipboardPlugin {
    fn default() -> (p: ClipboardPlugin)
        ensures
            p@ == (ClipView {
                directions: Directions { send: true, receive: true },
                connected: Seq::empty(),
                last_local: None,
                last_remote: None,
                pending: Map::empty(),
            }),
    {
        ClipboardPlugin::new(Directions { send: true, receive: true })
    }
}

impl Plugin for ClipboardPlugin {
    open spec fn memory(&self) -> Memory {
        Memory::Clipboard(self@)
    }

    open spec fn may(
        &self,
        told: Told,
        cx: CxView,
        after: CxView,
        r: Result<(), FaultView>,
        next: Memory,
    ) -> bool {
        match told {
            Told::Message { peer, env } => {
                let (end, told, said) = message(self@, cx, peer, env.id, env.ty, env.body);
                after == told && r == said && next == Memory::Clipboard(end)
            },
            Told::Local { peer, ty, body } => {
                let (end, told, said) = local(self@, cx, peer, ty, body);
                after == told && r == said && next == Memory::Clipboard(end)
            },
            Told::Answer { token, result } => {
                let (end, told) = effect_done(self@, cx, token, result);
                after == told && next == Memory::Clipboard(end)
            },
            Told::Connected { peer } => {
                &&& next == Memory::Clipboard(ClipView { connected: joined(self@.connected, peer), ..self@ })
                &&& after == cx
            },
            Told::Disconnected { peer } => {
                &&& next == Memory::Clipboard(ClipView { connected: departed(self@.connected, peer), ..self@ })
                &&& after == cx
            },
            _ => after == cx && next == self.memory(),
        }
    }

    fn manifest(&self) -> (m: PluginManifest)
        ensures
            m@ == both_ways("org.acrylius.clipboard"@, CAP@, seq![EffectKind::Clipboard]),
    {
        let m = PluginManifest::both_ways("org.acrylius.clipboard", CAP, vec![EffectKind::Clipboard]);
        assert(m@.requires_effects =~= seq![EffectKind::Clipboard]);
        m
    }

    fn on_peer_connected(&mut self, cx: &mut Cx, peer: &DeviceId)
        ensures
            final(self)@ == (ClipView { connected: joined(old(self)@.connected, peer@), ..old(self)@ }),
            final(cx)@ == old(cx)@,
    {
        self.connected.add(peer);
    }

    fn on_peer_disconnected(&mut self, cx: &mut Cx, peer: &DeviceId)
        ensures
            final(self)@ == (ClipView {
                connected: departed(old(self)@.connected, peer@),
                ..old(self)@
            }),
            final(cx)@ == old(cx)@,
    {
        self.connected.drop(peer);
    }

    fn on_message(&mut self, cx: &mut Cx, peer: &DeviceId, env: &Envelope) -> (r: Result<
        (),
        PluginError,
    >)
        ensures
            (final(self)@, final(cx)@, answer(r)) == message(
                old(self)@,
                old(cx)@,
                peer@,
                env.id,
                env.ty@,
                env.body@,
            ),
    {
        let ty = env.ty.as_str();
        if same(ty, "set") {
            self.on_set(cx, &env.body)
        } else if same(ty, "get") {
            let token = cx.effect(Effect::ClipboardRead);
            self.pending.insert(token.0, Asker { peer: peer.clone(), request: env.id });
            Ok(())
        } else {
            Err(PluginError::UnknownType(env.ty.clone()))
        }
    }

    fn on_local(&mut self, cx: &mut Cx, peer: &DeviceId, ty: &str, body: &[u8]) -> (r: Result<
        (),
        PluginError,
    >)
        ensures
            (final(self)@, final(cx)@, answer(r)) == local(old(self)@, old(cx)@, peer@, ty@, body@),
    {
        // The host noticed a local change. The peer argument is ignored.
        if same(ty, "changed") {
            self.on_changed(cx, body)
        } else if same(ty, "get") {
            cx.send(peer, CAP, "get", Vec::new());
            Ok(())
        } else {
            Err(PluginError::UnknownType(ty.to_owned()))
        }
    }

    fn on_effect_result(&mut self, cx: &mut Cx, token: EffectToken, result: &EffectResult)
        ensures
            (final(self)@, final(cx)@) == effect_done(old(self)@, old(cx)@, token.0, result@),
    {
        let who = match self.pending.remove(&token.0) {
            Some(w) => w,
            None => {
                proof {
                    let s = old(self)@;
                    assert(s.pending.remove(token.0) =~= s.pending);
                }
                return;
            },
        };
        match result {
            EffectResult::Done(data) => {
                let h = hash(data);
                self.last_local = Some(copy_bytes(&h));
                let body = to_bytes(
                    &ClipboardSet { mime: TEXT_PLAIN.to_owned(), data: copy_bytes(data), hash: h },
                );
                cx.send_reply(&who.peer, CAP, "set", body, who.request);
            },
            EffectResult::Failed(detail) => {
                cx.send_error(&who.peer, CAP, who.request, "effect_failed", detail.as_str());
            },
            EffectResult::Unsupported => {
                cx.send_error(&who.peer, CAP, who.request, "not_allowed", "no clipboard here");
            },
        }
    }

    fn on_bulk_listening(&mut self, cx: &mut Cx, transfer: TransferId, endpoint: &str)
        ensures
            *final(self) == *old(self),
            final(cx)@ == old(cx)@,
    {
    }

    fn on_bulk_finished(&mut self, cx: &mut Cx, transfer: TransferId, ok: bool, detail: &str)
        ensures
            *final(self) == *old(self),
            final(cx)@ == old(cx)@,
    {
    }

    fn on_tick(&mut self, cx: &mut Cx)
        ensures
            *final(self) == *old(self),
            final(cx)@ == old(cx)@,
    {
    }
}

/// A value that came from a peer is not sent back when the host observes it on
/// its own clipboard a moment later.
pub proof fn a_received_value_is_not_sent_back(
    s: ClipView,
    cx: CxView,
    body: Seq<u8>,
    later: CxView,
)
    ensures
        set_arrives(s, cx, body).2 is Ok ==> (value_of::<ClipboardSet>(body) matches Some(m)
            && changed(set_arrives(s, cx, body).0, later, m.data).1 == later),
{
}

/// A value that was sent is not sent again when the host observes it again.
pub proof fn a_local_value_is_sent_once(s: ClipView, cx: CxView, data: Seq<u8>, later: CxView)
    ensures
        changed(changed(s, cx, data).0, later, data).1 == later,
{
}

/// A new value goes from the device it was copied on to every connected peer; a
/// peer that receives puts it on its own clipboard; and from there it goes no
/// further, neither back nor on.
pub proof fn a_paste_travels_once(
    from: ClipView,
    here: CxView,
    to: ClipView,
    there: CxView,
    later: CxView,
    data: Seq<u8>,
)
    requires
        from.directions.send,
        to.directions.receive,
        data.len() <= MAX_INLINE,
        !from.is_echo(sha256(data)),
        set_body(data).len() <= u64::MAX,
    ensures
        changed(from, here, data).1 == sent_round(
            here,
            from.connected,
            None,
            CAP@,
            "set"@,
            set_body(data),
        ),
        set_arrives(to, there, set_body(data)).2 is Ok,
        set_arrives(to, there, set_body(data)).1 == there.asked(
            EffectView::ClipboardWrite { mime: TEXT_PLAIN@, data },
        ),
        changed(set_arrives(to, there, set_body(data)).0, later, data).1 == later,
{
    crate::body::body_reads_back::<ClipboardSet>(
        SetView { mime: TEXT_PLAIN@, data, hash: sha256(data) },
    );
}

/// What a device copies goes to everybody it is connected to, unless it is the very
/// value that it last received or last sent: as plain text, whole, and with its own
/// hash. From there on it counts as sent.
pub proof fn a_new_copy_goes_to_everyone(s: ClipView, cx: CxView, peer: Seq<char>, data: Seq<u8>)
    requires
        s.directions.send,
        data.len() <= 131072,
        s.last_remote != Some(sha256(data)),
        s.last_local != Some(sha256(data)),
        set_body(data).len() <= u64::MAX,
    ensures
        ({
            let (end, told, r) = local(s, cx, peer, "changed"@, data);
            let n = cx.sends.len() as int;
            &&& r is Ok
            &&& end == (ClipView { last_local: Some(sha256(data)), ..s })
            &&& told == (CxView { sends: told.sends, ..cx })
            &&& told.sends.len() == n + s.connected.len()
            &&& forall|k: int| 0 <= k < n ==> told.sends[k] == cx.sends[k]
            &&& forall|k: int|
                0 <= k < s.connected.len() ==> {
                    let m = #[trigger] told.sends[n + k];
                    &&& m.peer == s.connected[k]
                    &&& m.cap == "org.acrylius.clipboard/1"@ && m.ty == "set"@ && m.re is None
                    &&& value_of::<ClipboardSet>(m.body) matches Some(v) && v.data == data && v.hash
                        == sha256(data) && v.mime == "text/plain;charset=utf-8"@
                }
        }),
{
    a_round_reaches_everyone_else(cx, s.connected, None, CAP@, "set"@, set_body(data));
    crate::body::body_reads_back::<ClipboardSet>(
        SetView { mime: TEXT_PLAIN@, data, hash: sha256(data) },
    );
}

/// A copy is held back only for a reason: the device does not send, the value is too
/// large, or it is the one last received or last sent. Nothing then changes.
pub proof fn only_an_echo_is_held_back(s: ClipView, cx: CxView, peer: Seq<char>, data: Seq<u8>)
    ensures
        !s.directions.send ==> local(s, cx, peer, "changed"@, data) == (s, cx, Ok::<(), FaultView>(())),
        s.directions.send && data.len() > 131072 ==> local(s, cx, peer, "changed"@, data) == (
            s,
            cx,
            Err::<(), FaultView>(FaultView::TooLarge),
        ),
        s.directions.send && data.len() <= 131072 && (s.last_remote == Some(sha256(data))
            || s.last_local == Some(sha256(data))) ==> local(s, cx, peer, "changed"@, data) == (
            s,
            cx,
            Ok::<(), FaultView>(()),
        ),
{
}

/// A value that a peer copied is put on this device's clipboard just where the device
/// takes values, the value is whole, plain text and not too large; whatever else
/// arrives changes nothing, and is refused for what is wrong with it.
pub proof fn a_good_copy_is_pasted(
    s: ClipView,
    cx: CxView,
    peer: Seq<char>,
    id: u32,
    body: Seq<u8>,
)
    ensures
        ({
            let (end, told, r) = message(s, cx, peer, id, "set"@, body);
            let good = value_of::<ClipboardSet>(body) matches Some(v) && s.directions.receive
                && v.data.len() <= 131072 && v.mime == "text/plain;charset=utf-8"@ && v.hash
                == sha256(v.data);
            let v = value_of::<ClipboardSet>(body)->Some_0;
            &&& r is Ok <==> good
            &&& good ==> {
                &&& end == (ClipView { last_remote: Some(sha256(v.data)), ..s })
                &&& told == cx.asked(EffectView::ClipboardWrite { mime: v.mime, data: v.data })
            }
            &&& !good ==> end == s && told == cx
            &&& value_of::<ClipboardSet>(body) is None ==> r == Err::<(), FaultView>(FaultView::BadBody)
            &&& value_of::<ClipboardSet>(body) is Some ==> {
                &&& !s.directions.receive ==> r == Err::<(), FaultView>(FaultView::NotAllowed)
                &&& s.directions.receive && v.data.len() > 131072 ==> r == Err::<(), FaultView>(
                    FaultView::TooLarge,
                )
            }
        }),
{
}

/// After a value has come from a peer, another one that is copied here is still sent
/// to everybody.
pub proof fn a_paste_does_not_silence_the_next_copy(
    s: ClipView,
    cx: CxView,
    peer: Seq<char>,
    id: u32,
    body: Seq<u8>,
    later: CxView,
    data: Seq<u8>,
    k: int,
)
    requires
        s.directions.send,
        data.len() <= 131072,
        s.last_local != Some(sha256(data)),
        message(s, cx, peer, id, "set"@, body).2 is Ok,
        sha256(value_of::<ClipboardSet>(body)->Some_0.data) != sha256(data),
        0 <= k < s.connected.len(),
        set_body(data).len() <= u64::MAX,
    ensures
        ({
            let told = local(message(s, cx, peer, id, "set"@, body).0, later, peer, "changed"@, data).1;
            let m = told.sends[later.sends.len() + k];
            &&& later.sends.len() + k < told.sends.len()
            &&& m.peer == s.connected[k]
            &&& value_of::<ClipboardSet>(m.body) matches Some(v) && v.data == data
        }),
{
    a_new_copy_goes_to_everyone(message(s, cx, peer, id, "set"@, body).0, later, peer, data);
}

/// A peer that asks for the clipboard gets what the host reads there, as the answer to
/// its own request; or is told that it could not be read.
pub proof fn a_reading_goes_to_who_asked(
    s: ClipView,
    cx: CxView,
    peer: Seq<char>,
    id: u32,
    body: Seq<u8>,
    later: CxView,
    result: ResultView,
)
    requires
        result matches ResultView::Done(data) ==> set_body(data).len() <= u64::MAX,
    ensures
        ({
            let (mid, told, r) = message(s, cx, peer, id, "get"@, body);
            let (end, last) = effect_done(mid, later, told.effects.last().0, result);
            let m = last.sends.last();
            &&& r is Ok
            &&& told == cx.asked(EffectView::ClipboardRead)
            &&& last.sends.len() == later.sends.len() + 1
            &&& last == (CxView { sends: last.sends, ..later })
            &&& m.peer == peer && m.cap == "org.acrylius.clipboard/1"@ && m.re == Some(id)
            &&& match result {
                ResultView::Done(data) => {
                    &&& m.ty == "set"@
                    &&& value_of::<ClipboardSet>(m.body) matches Some(v) && v.data == data && v.hash
                        == sha256(data) && v.mime == "text/plain;charset=utf-8"@
                    &&& end.last_local == Some(sha256(data))
                },
                ResultView::Failed(detail) => m.ty == "err"@ && m.body == error_body(
                    "effect_failed"@,
                    detail,
                ) && end.last_local == s.last_local,
                ResultView::Unsupported => m.ty == "err"@ && m.body == error_body(
                    "not_allowed"@,
                    "no clipboard here"@,
                ) && end.last_local == s.last_local,
            }
            &&& end.pending == s.pending.remove(told.effects.last().0)
            &&& end.last_remote == s.last_remote && end.connected == s.connected
        }),
{
    assert("get"@ != "set"@) by {
        reveal_strlit("get");
        reveal_strlit("set");
        assert("get"@[0] != "set"@[0]);
    }
    let (mid, told, r) = message(s, cx, peer, id, "get"@, body);
    match result {
        ResultView::Done(data) => {
            crate::body::body_reads_back::<ClipboardSet>(
                SetView { mime: TEXT_PLAIN@, data, hash: sha256(data) },
            );
        },
        _ => {},
    }
    assert(mid.pending.remove(told.effects.last().0) =~= s.pending.remove(told.effects.last().0));
}

/// Who comes is told of the next copy, and who goes is not; nothing is said to either, and
/// what was last copied is not forgotten.
pub proof fn who_is_there_hears_of_the_next_copy(
    p: ClipboardPlugin,
    cx: CxView,
    peer: Seq<char>,
    end: CxView,
    r: Result<(), FaultView>,
    next: Memory,
    end2: CxView,
    r2: Result<(), FaultView>,
    next2: Memory,
)
    requires
        p.may(Told::Connected { peer }, cx, end, r, next),
        p.may(Told::Disconnected { peer }, cx, end2, r2, next2),
    ensures
        end == cx,
        end2 == cx,
        next matches Memory::Clipboard(v) && v.connected.contains(peer) && v.last_local
            == p@.last_local && v.last_remote == p@.last_remote && v.directions == p@.directions
            && v.pending == p@.pending,
        next2 matches Memory::Clipboard(v) && !v.connected.contains(peer) && v.last_local
            == p@.last_local && v.last_remote == p@.last_remote && v.directions == p@.directions
            && v.pending == p@.pending,
{
    joined_is_there(p@.connected, peer, peer);
    departed_is_gone(p@.connected, peer, peer);
}

/// What a plugin is told of a copy, of a peer's message and of a reading is what comes of
/// it, and nothing else is.
pub proof fn a_clipboard_hears_what_it_is_told(
    p: ClipboardPlugin,
    cx: CxView,
    peer: Seq<char>,
    ty: Seq<char>,
    body: Seq<u8>,
    end: CxView,
    r: Result<(), FaultView>,
    next: Memory,
)
    requires
        p.may(Told::Local { peer, ty, body }, cx, end, r, next),
    ensures
        (p@.directions.send && ty == "changed"@ && body.len() <= 131072 && p@.last_remote != Some(
            sha256(body),
        ) && p@.last_local != Some(sha256(body))) ==> r is Ok && (next matches Memory::Clipboard(v)
            && v.last_local == Some(sha256(body))) && end.sends.len() >= cx.sends.len(),
        (p@.last_remote == Some(sha256(body)) || p@.last_local == Some(sha256(body))) && ty
            == "changed"@ ==> end == cx,
{
    if ty == "changed"@ {
        sends_grow(cx, p@.connected, None, CAP@, "set"@, set_body(body));
    }
}

proof fn sends_grow(
    cx: CxView,
    list: Seq<Seq<char>>,
    except: Option<Seq<char>>,
    cap: Seq<char>,
    ty: Seq<char>,
    body: Seq<u8>,
)
    ensures
        sent_round(cx, list, except, cap, ty, body).sends.len() >= cx.sends.len(),
    decreases list.len(),
{
    if list.len() > 0 {
        sends_grow(cx, list.drop_last(), except, cap, ty, body);
    }
}

} // verus!
