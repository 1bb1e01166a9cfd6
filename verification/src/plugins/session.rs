//! `org.acrylius.session/1`: lock and unlock a desktop session.
//!
//! Protocol half only. Two protocol promises: both verbs are idempotent
//! (locking a locked session succeeds with `was_locked = true`), and `locked`
//! in a reply is read back afterwards, never inferred from an exit status.
use crate::body::{body_reads_back, from_bytes, to_bytes, value_of, Body};
use crate::cbor::{
    array_reads, bool_field, bool_item, bool_reads, close, end_of, every_end_is_later, field_bool,
    field_text, got, head, open, open_at, open_moves_on, put_array, put_bool, put_text, rest,
    stands_split, text_field, text_item, text_reads,
};
use crate::ids::DeviceId;
use crate::plugin::{
    after, answer, both_ways, Cx, CxView, FaultView, Memory, Plugin, PluginError, PluginManifest,
    SendView, Told, REPLY_SLACK_MS,
};
use crate::plugins::roster::{
    a_round_reaches_everyone_else, departed, departed_is_gone, joined, joined_is_there, sent_round,
    Pending, PendingView, Roster,
};
use crate::table::Table;
use crate::text::{copy_bytes, same};
use crate::vocab::{
    Effect, EffectKind, EffectResult, EffectToken, EffectView, ResultView, TransferId,
};
use crate::wire::{Envelope, EnvelopeView};
use vstd::prelude::*;

verus! {

pub const CAP: &'static str = "org.acrylius.session/1";

/// How long a host may spend confirming a lock before it answers anyway;
/// lockers act on logind's signal asynchronously.
pub const LOCK_CONFIRM_MS: u64 = 8_000;

/// See [`LOCK_CONFIRM_MS`].
pub const UNLOCK_CONFIRM_MS: u64 = 5_000;

/// Client-side wait: the host's budget plus [`REPLY_SLACK_MS`]. A client waiting
/// less than the host may spend calls a lock that worked a failure,
/// intermittently.
pub const LOCK_REPLY_BUDGET_MS: u64 = LOCK_CONFIRM_MS + REPLY_SLACK_MS;

/// See [`LOCK_REPLY_BUDGET_MS`].
pub const UNLOCK_REPLY_BUDGET_MS: u64 = UNLOCK_CONFIRM_MS + REPLY_SLACK_MS;

/// A client waits longer than the host may take, or it would report failures
/// that did not happen.
pub proof fn a_client_outwaits_the_host()
    ensures
        LOCK_REPLY_BUDGET_MS > LOCK_CONFIRM_MS,
        UNLOCK_REPLY_BUDGET_MS > UNLOCK_CONFIRM_MS,
{
}

/// The host's answer to [`Effect::QuerySession`], and the payload of `state`.
#[derive(Clone, PartialEq, Eq, Debug)]
pub struct SessionState {
    pub locked: bool,
    pub session_id: String,
    /// `wayland` or `x11`.
    pub kind: String,
    pub active: bool,
}

/// The model of a [`SessionState`].
pub struct SeatView {
    pub locked: bool,
    pub session_id: Seq<char>,
    pub kind: Seq<char>,
    pub active: bool,
}

impl View for SessionState {
    type V = SeatView;

    open spec fn view(&self) -> SeatView {
        SeatView {
            locked: self.locked,
            session_id: self.session_id@,
            kind: self.kind@,
            active: self.active,
        }
    }
}

impl Body for SessionState {
    open spec fn item(v: SeatView) -> Seq<u8> {
        head(4, 4) + bool_item(v.locked) + text_item(v.session_id) + text_item(v.kind)
            + bool_item(v.active)
    }

    open spec fn item_at(b: Seq<u8>, at: int) -> Option<(SeatView, int)> {
        let locked = bool_field(b, open_at(b, at));
        let session_id = text_field(b, rest(locked));
        let kind = text_field(b, rest(session_id));
        let active = bool_field(b, rest(kind));
        match end_of(b, rest(active)) {
            Some(end) => Some(
                (
                    SeatView {
                        locked: got(locked),
                        session_id: got(session_id),
                        kind: got(kind),
                        active: got(active),
                    },
                    end,
                ),
            ),
            None => None,
        }
    }

    proof fn item_reads(w: Seq<u8>, at: int, v: SeatView) {
        let p0 = head(4, 4);
        let p1 = p0 + bool_item(v.locked);
        let p2 = p1 + text_item(v.session_id);
        let p3 = p2 + text_item(v.kind);
        stands_split(w, at, p3, bool_item(v.active));
        stands_split(w, at, p2, text_item(v.kind));
        stands_split(w, at, p1, text_item(v.session_id));
        stands_split(w, at, p0, bool_item(v.locked));
        array_reads(w, at, 4);
        bool_reads(w, at + p0.len(), v.locked);
        text_reads(w, at + p1.len(), v.session_id);
        text_reads(w, at + p2.len(), v.kind);
        bool_reads(w, at + p3.len(), v.active);
    }

    proof fn item_moves_on(b: Seq<u8>, at: int) {
        open_moves_on(b, at);
        every_end_is_later(b);
    }

    fn put(&self, out: &mut Vec<u8>) {
        put_array(out, 4);
        put_bool(out, self.locked);
        put_text(out, self.session_id.as_str());
        put_text(out, self.kind.as_str());
        put_bool(out, self.active);
        assert(out@ =~= old(out)@ + Self::item(self@));
    }

    fn get(b: &[u8], at: usize) -> (r: Option<(SessionState, usize)>) {
        let c = open(b, at)?;
        let (locked, c) = field_bool(b, c)?;
        let (session_id, c) = field_text(b, c)?;
        let (kind, c) = field_text(b, c)?;
        let (active, c) = field_bool(b, c)?;
        let end: usize = close(b, c)?;
        Some((SessionState { locked, session_id, kind, active }, end))
    }
}

impl SessionState {
    fn is(&self, other: &SessionState) -> (r: bool)
        ensures
            r == (self@ == other@),
    {
        self.locked == other.locked && same(self.session_id.as_str(), other.session_id.as_str())
            && same(self.kind.as_str(), other.kind.as_str()) && self.active == other.active
    }
}

/// The host's answer to a lock or unlock, and the payload of `result`.
#[derive(Clone, PartialEq, Eq, Debug)]
pub struct SessionOutcome {
    pub was_locked: bool,
    /// Read back after the operation, never inferred.
    pub locked: bool,
    pub session_id: String,
}

/// The model of a [`SessionOutcome`].
pub struct LockView {
    pub was_locked: bool,
    pub locked: bool,
    pub session_id: Seq<char>,
}

impl View for SessionOutcome {
    type V = LockView;

    open spec fn view(&self) -> LockView {
        LockView { was_locked: self.was_locked, locked: self.locked, session_id: self.session_id@ }
    }
}

impl Body for SessionOutcome {
    open spec fn item(v: LockView) -> Seq<u8> {
        head(4, 3) + bool_item(v.was_locked) + bool_item(v.locked) + text_item(v.session_id)
    }

    open spec fn item_at(b: Seq<u8>, at: int) -> Option<(LockView, int)> {
        let was_locked = bool_field(b, open_at(b, at));
        let locked = bool_field(b, rest(was_locked));
        let session_id = text_field(b, rest(locked));
        match end_of(b, rest(session_id)) {
            Some(end) => Some(
                (
                    LockView {
                        was_locked: got(was_locked),
                        locked: got(locked),
                        session_id: got(session_id),
                    },
                    end,
                ),
            ),
            None => None,
        }
    }

    proof fn item_reads(w: Seq<u8>, at: int, v: LockView) {
        let p0 = head(4, 3);
        let p1 = p0 + bool_item(v.was_locked);
        let p2 = p1 + bool_item(v.locked);
        stands_split(w, at, p2, text_item(v.session_id));
        stands_split(w, at, p1, bool_item(v.locked));
        stands_split(w, at, p0, bool_item(v.was_locked));
        array_reads(w, at, 3);
        bool_reads(w, at + p0.len(), v.was_locked);
        bool_reads(w, at + p1.len(), v.locked);
        text_reads(w, at + p2.len(), v.session_id);
    }

    proof fn item_moves_on(b: Seq<u8>, at: int) {
        open_moves_on(b, at);
        every_end_is_later(b);
    }

    fn put(&self, out: &mut Vec<u8>) {
        put_array(out, 3);
        put_bool(out, self.was_locked);
        put_bool(out, self.locked);
        put_text(out, self.session_id.as_str());
        assert(out@ =~= old(out)@ + Self::item(self@));
    }

    fn get(b: &[u8], at: usize) -> (r: Option<(SessionOutcome, usize)>) {
        let c = open(b, at)?;
        let (was_locked, c) = field_bool(b, c)?;
        let (locked, c) = field_bool(b, c)?;
        let (session_id, c) = field_text(b, c)?;
        let end: usize = close(b, c)?;
        Some((SessionOutcome { was_locked, locked, session_id }, end))
    }
}

pub struct SessionPlugin {
    pending: Table<u64, Pending>,
    /// Peers to notify on a state change, which arrives with no peer attached.
    connected: Roster,
    last: Option<SessionState>,
}

/// The model of a [`SessionPlugin`].
pub struct SessionView {
    pub pending: Map<u64, PendingView>,
    pub connected: Seq<Seq<char>>,
    pub last: Option<SeatView>,
}

impl View for SessionPlugin {
    type V = SessionView;

    closed spec fn view(&self) -> SessionView {
        SessionView {
            pending: self.pending@,
            connected: self.connected@,
            last: match self.last {
                Some(s) => Some(s@),
                None => None,
            },
        }
    }
}

pub type Step = (SessionView, CxView, Result<(), FaultView>);

/// The host is asked for something, and where the answer goes is remembered.
pub open spec fn asked(s: SessionView, cx: CxView, effect: EffectView, who: PendingView) -> Step {
    (
        SessionView { pending: s.pending.insert(after(cx.next_token), who), ..s },
        cx.asked(effect),
        Ok(()),
    )
}

/// A message from a peer.
pub open spec fn message(
    s: SessionView,
    cx: CxView,
    peer: Seq<char>,
    id: u32,
    ty: Seq<char>,
    body: Seq<u8>,
) -> Step {
    if ty == "query"@ {
        asked(s, cx, EffectView::QuerySession, PendingView { peer, request: id, reply: "state"@ })
    } else if ty == "lock"@ {
        asked(s, cx, EffectView::LockSession, PendingView { peer, request: id, reply: "result"@ })
    } else if ty == "unlock"@ {
        asked(s, cx, EffectView::UnlockSession, PendingView { peer, request: id, reply: "result"@ })
    } else if ty == "state"@ || ty == "result"@ {
        (s, cx.told(peer, CAP@, ty, body), Ok(()))
    } else {
        (s, cx, Err(FaultView::UnknownType(ty)))
    }
}

/// A request from the local screen.
pub open spec fn local(s: SessionView, cx: CxView, peer: Seq<char>, ty: Seq<char>) -> Step {
    if ty == "notify"@ {
        asked(s, cx, EffectView::QuerySession, PendingView { peer, request: 0, reply: "broadcast"@ })
    } else if ty == "query"@ || ty == "lock"@ || ty == "unlock"@ {
        (s, cx.sent(peer, CAP@, ty, Seq::empty(), None), Ok(()))
    } else {
        (s, cx, Err(FaultView::UnknownType(ty)))
    }
}

/// The host's reading for a query that may have changed what is known: everyone
/// who is not getting it as a reply hears of a change.
pub open spec fn read(s: SessionView, cx: CxView, bytes: Seq<u8>, except: Option<Seq<char>>) -> (
    SessionView,
    CxView,
) {
    match value_of::<SessionState>(bytes) {
        Some(state) => if s.last != Some(state) {
            (
                SessionView { last: Some(state), ..s },
                sent_round(cx, s.connected, except, CAP@, "state"@, SessionState::item(state)),
            )
        } else {
            (s, cx)
        },
        None => (s, cx),
    }
}

/// The host has answered. What nobody asked for is answered to nobody.
pub open spec fn effect_done(s: SessionView, cx: CxView, token: u64, result: ResultView) -> (
    SessionView,
    CxView,
) {
    if !s.pending.dom().contains(token) {
        (s, cx)
    } else {
        let p = s.pending[token];
        let left = SessionView { pending: s.pending.remove(token), ..s };
        match result {
            ResultView::Done(bytes) => if p.reply == "broadcast"@ {
                read(left, cx, bytes, None)
            } else {
                let (end, told) = if p.reply == "state"@ {
                    read(left, cx, bytes, Some(p.peer))
                } else {
                    (left, cx)
                };
                (end, told.sent(p.peer, CAP@, p.reply, bytes, Some(p.request)))
            },
            ResultView::Failed(detail) => (
                left,
                if p.reply == "broadcast"@ {
                    cx
                } else {
                    cx.refused(p.peer, CAP@, p.request, "effect_failed"@, detail)
                },
            ),
            ResultView::Unsupported => (
                left,
                if p.reply == "broadcast"@ {
                    cx
                } else {
                    cx.refused(
                        p.peer,
                        CAP@,
                        p.request,
                        "not_allowed"@,
                        "no session on this device"@,
                    )
                },
            ),
        }
    }
}

impl SessionPlugin {
    fn ask(
        &mut self,
        cx: &mut Cx,
        effect: Effect,
        peer: &DeviceId,
        request: u32,
        reply: &'static str,
    ) -> (r: Result<(), PluginError>)
        ensures
            (final(self)@, final(cx)@, answer(r)) == asked(
                old(self)@,
                old(cx)@,
                effect@,
                PendingView { peer: peer@, request, reply: reply@ },
            ),
    {
        let token = cx.effect(effect);
        self.pending.insert(token.0, Pending { peer: peer.clone(), request, reply });
        Ok(())
    }

    /// Takes a reading, and tells everyone except `already_told`, who is getting
    /// it as a reply.
    fn take_reading(&mut self, cx: &mut Cx, bytes: &[u8], already_told: Option<&DeviceId>)
        ensures
            (final(self)@, final(cx)@) == read(
                old(self)@,
                old(cx)@,
                bytes@,
                match already_told {
                    Some(p) => Some(p@),
                    None => None,
                },
            ),
    {
        let state = match from_bytes::<SessionState>(bytes) {
            Some(s) => s,
            None => {
                return;
            },
        };
        // Only say something when something changed.
        let known = match &self.last {
            Some(l) => l.is(&state),
            None => false,
        };
        if known {
            return;
        }
        let body = to_bytes(&state);
        self.last = Some(state);
        self.connected.tell_all(cx, already_told, CAP, "state", &body);
    }
}

impl Default for SessionPlugin {
    fn default() -> (p: SessionPlugin)
        ensures
            p@ == (SessionView { pending: Map::empty(), connected: Seq::empty(), last: None }),
    {
        SessionPlugin { pending: Table::new(), connected: Roster::new(), last: None }
    }
}

impl Plugin for SessionPlugin {
    open spec fn memory(&self) -> Memory {
        Memory::Session(self@)
    }

    open spec fn may(
        &self,
        told: Told,
        cx: CxView,
        after: CxView,
        r: Result<(), FaultView>,
        next: Memory,
    ) -> bool {
        match told {
            Told::Message { peer, env } => {
                let (end, told, said) = message(self@, cx, peer, env.id, env.ty, env.body);
                after == told && r == said && next == Memory::Session(end)
            },
            Told::Local { peer, ty, body } => {
                let (end, told, said) = local(self@, cx, peer, ty);
                after == told && r == said && next == Memory::Session(end)
            },
            Told::Answer { token, result } => {
                let (end, told) = effect_done(self@, cx, token, result);
                after == told && next == Memory::Session(end)
            },
            Told::Connected { peer } => {
                &&& next == Memory::Session(SessionView { connected: joined(self@.connected, peer), ..self@ })
                &&& after == match self@.last {
                    Some(state) => cx.sent(peer, CAP@, "state"@, SessionState::item(state), None),
                    None => cx,
                }
            },
            Told::Disconnected { peer } => {
                &&& next == Memory::Session(SessionView { connected: departed(self@.connected, peer), ..self@ })
                &&& after == cx
            },
            _ => after == cx && next == self.memory(),
        }
    }

    fn manifest(&self) -> (m: PluginManifest)
        ensures
            m@ == both_ways("org.acrylius.session"@, CAP@, seq![EffectKind::Session]),
    {
        // A device that cannot lock still sends verbs and receives notifications.
        let m = PluginManifest::both_ways("org.acrylius.session", CAP, vec![EffectKind::Session]);
        assert(m@.requires_effects =~= seq![EffectKind::Session]);
        m
    }

    fn on_peer_connected(&mut self, cx: &mut Cx, peer: &DeviceId)
        ensures
            final(self)@ == (SessionView {
                connected: joined(old(self)@.connected, peer@),
                ..old(self)@
            }),
            final(cx)@ == (match old(self)@.last {
                Some(state) => old(cx)@.sent(
                    peer@,
                    CAP@,
                    "state"@,
                    SessionState::item(state),
                    None,
                ),
                None => old(cx)@,
            }),
    {
        self.connected.add(peer);
        // Tell a peer where things stand without it having to ask.
        match &self.last {
            Some(state) => cx.send(peer, CAP, "state", to_bytes(state)),
            None => {},
        }
    }

    fn on_peer_disconnected(&mut self, cx: &mut Cx, peer: &DeviceId)
        ensures
            final(self)@ == (SessionView {
                connected: departed(old(self)@.connected, peer@),
                ..old(self)@
            }),
            final(cx)@ == old(cx)@,
    {
        self.connected.drop(peer);
    }

    fn on_message(&mut self, cx: &mut Cx, peer: &DeviceId, env: &Envelope) -> (r: Result<
        (),
        PluginError,
    >)
        ensures
            (final(self)@, final(cx)@, answer(r)) == message(
                old(self)@,
                old(cx)@,
                peer@,
                env.id,
                env.ty@,
                env.body@,
            ),
    {
        let ty = env.ty.as_str();
        if same(ty, "query") {
            self.ask(cx, Effect::QuerySession, peer, env.id, "state")
        } else if same(ty, "lock") {
            self.ask(cx, Effect::LockSession, peer, env.id, "result")
        } else if same(ty, "unlock") {
            self.ask(cx, Effect::UnlockSession, peer, env.id, "result")
        } else if same(ty, "state") || same(ty, "result") {
            // Not an error: a peer that only sends may receive and ignore these.
            cx.tell(peer, CAP, ty, copy_bytes(&env.body));
            Ok(())
        } else {
            Err(PluginError::UnknownType(env.ty.clone()))
        }
    }

    fn on_local(&mut self, cx: &mut Cx, peer: &DeviceId, ty: &str, body: &[u8]) -> (r: Result<
        (),
        PluginError,
    >)
        ensures
            (final(self)@, final(cx)@, answer(r)) == local(old(self)@, old(cx)@, peer@, ty@),
    {
        // A broadcast: the host noticed a change; the peer argument is ignored.
        if same(ty, "notify") {
            self.ask(cx, Effect::QuerySession, peer, 0, "broadcast")
        } else if same(ty, "query") || same(ty, "lock") || same(ty, "unlock") {
            cx.send(peer, CAP, ty, Vec::new());
            Ok(())
        } else {
            Err(PluginError::UnknownType(ty.to_owned()))
        }
    }

    fn on_effect_result(&mut self, cx: &mut Cx, token: EffectToken, result: &EffectResult)
        ensures
            (final(self)@, final(cx)@) == effect_done(old(self)@, old(cx)@, token.0, result@),
    {
        let p = match self.pending.remove(&token.0) {
            Some(p) => p,
            None => {
                proof {
                    let s = old(self)@;
                    assert(s.pending.remove(token.0) =~= s.pending);
                }
                return;
            },
        };
        // A broadcast's peer is a placeholder for "everyone" and its request id
        // is zero: nobody asked, so nobody is answered.
        let broadcast = same(p.reply, "broadcast");
        match result {
            EffectResult::Done(bytes) => {
                if broadcast {
                    self.take_reading(cx, bytes, None);
                    return;
                }
                // A reply is also a fresh reading that updates the dedupe cache;
                // the other peers must still hear about it.
                if same(p.reply, "state") {
                    self.take_reading(cx, bytes, Some(&p.peer));
                }
                cx.send_reply(&p.peer, CAP, p.reply, copy_bytes(bytes), p.request);
            },
            EffectResult::Failed(detail) => if !broadcast {
                cx.send_error(&p.peer, CAP, p.request, "effect_failed", detail.as_str());
            },
            EffectResult::Unsupported => if !broadcast {
                cx.send_error(&p.peer, CAP, p.request, "not_allowed", "no session on this device");
            },
        }
    }

    fn on_bulk_listening(&mut self, cx: &mut Cx, transfer: TransferId, endpoint: &str)
        ensures
            *final(self) == *old(self),
            final(cx)@ == old(cx)@,
    {
    }

    fn on_bulk_finished(&mut self, cx: &mut Cx, transfer: TransferId, ok: bool, detail: &str)
        ensures
            *final(self) == *old(self),
            final(cx)@ == old(cx)@,
    {
    }

    fn on_tick(&mut self, cx: &mut Cx)
        ensures
            *final(self) == *old(self),
            final(cx)@ == old(cx)@,
    {
    }
}

/// A reading that changes nothing is announced to nobody.
pub proof fn an_unchanged_state_is_not_announced(
    s: SessionView,
    cx: CxView,
    bytes: Seq<u8>,
    except: Option<Seq<char>>,
    later: CxView,
)
    ensures
        read(read(s, cx, bytes, except).0, later, bytes, except).1 == later,
{
}

/// One device asking does not make every other view stale: what the asker is
/// answered, everyone else connected is told when it is news.
pub proof fn an_answer_reaches_the_others(s: SessionView, cx: CxView, token: u64, bytes: Seq<u8>)
    requires
        s.pending.dom().contains(token),
        s.pending[token].reply == "state"@,
        value_of::<SessionState>(bytes) is Some,
        s.last != value_of::<SessionState>(bytes),
    ensures
        ({
            let p = s.pending[token];
            let end = effect_done(s, cx, token, ResultView::Done(bytes));
            let state = value_of::<SessionState>(bytes)->Some_0;
            &&& end.0.last == Some(state)
            &&& end.1 == sent_round(
                cx,
                s.connected,
                Some(p.peer),
                CAP@,
                "state"@,
                SessionState::item(state),
            ).sent(p.peer, CAP@, "state"@, bytes, Some(p.request))
        }),
{
    reveal_strlit("state");
    reveal_strlit("broadcast");
    assert("state"@.len() != "broadcast"@.len());
}

/// A background poll that fails answers nobody.
pub proof fn a_failed_poll_answers_nobody(s: SessionView, cx: CxView, token: u64, detail: Seq<char>)
    requires
        s.pending.dom().contains(token),
        s.pending[token].reply == "broadcast"@,
    ensures
        effect_done(s, cx, token, ResultView::Failed(detail)).1 == cx,
        effect_done(s, cx, token, ResultView::Unsupported).1 == cx,
{
}

proof fn verbs_differ()
    ensures
        "lock"@ != "query"@,
        "unlock"@ != "query"@,
        "unlock"@ != "lock"@,
        "state"@ != "query"@,
        "state"@ != "lock"@,
        "state"@ != "unlock"@,
        "result"@ != "query"@,
        "result"@ != "lock"@,
        "result"@ != "unlock"@,
        "state"@ != "broadcast"@,
        "result"@ != "broadcast"@,
        "result"@ != "state"@,
        "query"@ != "notify"@,
        "lock"@ != "notify"@,
        "unlock"@ != "notify"@,
{
    reveal_strlit("lock");
    reveal_strlit("unlock");
    reveal_strlit("query");
    reveal_strlit("state");
    reveal_strlit("result");
    reveal_strlit("notify");
    reveal_strlit("broadcast");
    assert("lock"@[0] == 'l' && "unlock"@[0] == 'u' && "query"@[0] == 'q' && "state"@[0] == 's'
        && "result"@[0] == 'r' && "notify"@[0] == 'n' && "broadcast"@[0] == 'b');
}

/// A peer that asks for a lock gets the desktop locked, one that asks for an unlock
/// gets it unlocked, and one that asks how it stands gets it read: that and nothing
/// else is asked of the host.
pub proof fn each_request_asks_for_itself(
    p: SessionPlugin,
    cx: CxView,
    peer: Seq<char>,
    env: EnvelopeView,
    end: CxView,
    r: Result<(), FaultView>,
    next: Memory,
)
    requires
        p.may(Told::Message { peer, env }, cx, end, r, next),
    ensures
        env.ty == "lock"@ ==> r is Ok && end == cx.asked(EffectView::LockSession),
        env.ty == "unlock"@ ==> r is Ok && end == cx.asked(EffectView::UnlockSession),
        env.ty == "query"@ ==> r is Ok && end == cx.asked(EffectView::QuerySession),
        env.ty == "state"@ || env.ty == "result"@ ==> r is Ok && end == cx.told(
            peer,
            "org.acrylius.session/1"@,
            env.ty,
            env.body,
        ) && next == Memory::Session(p@),
        r is Err <==> env.ty != "lock"@ && env.ty != "unlock"@ && env.ty != "query"@ && env.ty
            != "state"@ && env.ty != "result"@,
        r is Err ==> end == cx && next == Memory::Session(p@),
{
    verbs_differ();
}

/// Whoever asked for a lock, an unlock or a reading is the one who is answered, under
/// its own request: with what the host says it came to, or why it did not come to
/// anything. A reading is answered as a state, a lock as a result.
pub proof fn who_asks_is_answered(
    s: SessionView,
    cx: CxView,
    peer: Seq<char>,
    id: u32,
    ty: Seq<char>,
    body: Seq<u8>,
    later: CxView,
    result: ResultView,
)
    requires
        ty == "lock"@ || ty == "unlock"@ || ty == "query"@,
        s.connected.no_duplicates(),
    ensures
        ({
            let (mid, asked, r) = message(s, cx, peer, id, ty, body);
            let token = asked.effects.last().0;
            let (end, told) = effect_done(mid, later, token, result);
            let m = told.sends.last();
            &&& told.sends.len() > later.sends.len()
            &&& told == (CxView { sends: told.sends, ..later })
            &&& m.peer == peer && m.cap == "org.acrylius.session/1"@ && m.re == Some(id)
            &&& match result {
                ResultView::Done(bytes) => m.body == bytes && m.ty == (if ty == "query"@ {
                    "state"@
                } else {
                    "result"@
                }) && (ty != "query"@ ==> told.sends.len() == later.sends.len() + 1),
                ResultView::Failed(detail) => told == later.refused(
                    peer,
                    "org.acrylius.session/1"@,
                    id,
                    "effect_failed"@,
                    detail,
                ),
                ResultView::Unsupported => told == later.refused(
                    peer,
                    "org.acrylius.session/1"@,
                    id,
                    "not_allowed"@,
                    "no session on this device"@,
                ),
            }
            &&& end.pending == s.pending.remove(token)
            &&& end.connected == s.connected
        }),
{
    verbs_differ();
    let (mid, asked, r) = message(s, cx, peer, id, ty, body);
    let token = asked.effects.last().0;
    assert(mid.pending.remove(token) =~= s.pending.remove(token));
    match result {
        ResultView::Done(bytes) => {
            match value_of::<SessionState>(bytes) {
                Some(state) => {
                    a_round_reaches_everyone_else(
                        later,
                        s.connected,
                        Some(peer),
                        CAP@,
                        "state"@,
                        SessionState::item(state),
                    );
                },
                None => {},
            }
        },
        _ => {},
    }
}

/// A reading that differs from the last one is what the desktop is known by from then
/// on, and everybody connected hears of it; one that does not is not news.
pub proof fn a_changed_desktop_is_announced(
    s: SessionView,
    cx: CxView,
    peer: Seq<char>,
    later: CxView,
    state: SeatView,
    k: int,
)
    requires
        SessionState::item(state).len() <= u64::MAX,
        s.last != Some(state),
        0 <= k < s.connected.len(),
    ensures
        ({
            let (mid, asked, r) = local(s, cx, peer, "notify"@);
            let (end, told) = effect_done(
                mid,
                later,
                asked.effects.last().0,
                ResultView::Done(SessionState::item(state)),
            );
            &&& r is Ok
            &&& asked == cx.asked(EffectView::QuerySession)
            &&& end.last == Some(state)
            &&& told.sends.len() == later.sends.len() + s.connected.len()
            &&& told.sends[later.sends.len() + k] == (SendView {
                peer: s.connected[k],
                cap: "org.acrylius.session/1"@,
                ty: "state"@,
                body: SessionState::item(state),
                re: None,
            })
        }),
{
    verbs_differ();
    body_reads_back::<SessionState>(state);
    a_round_reaches_everyone_else(
        later,
        s.connected,
        None,
        CAP@,
        "state"@,
        SessionState::item(state),
    );
    let told = sent_round(later, s.connected, None, CAP@, "state"@, SessionState::item(state));
    assert(told.sends[later.sends.len() + k].peer == s.connected[k]);
}

/// What a person asks of a peer's desktop goes to that peer, in the word for it.
pub proof fn a_persons_request_goes_to_the_peer(
    p: SessionPlugin,
    cx: CxView,
    peer: Seq<char>,
    ty: Seq<char>,
    body: Seq<u8>,
    end: CxView,
    r: Result<(), FaultView>,
    next: Memory,
)
    requires
        p.may(Told::Local { peer, ty, body }, cx, end, r, next),
    ensures
        ty == "lock"@ || ty == "unlock"@ || ty == "query"@ ==> r is Ok && end == cx.sent(
            peer,
            "org.acrylius.session/1"@,
            ty,
            Seq::empty(),
            None,
        ) && next == Memory::Session(p@),
        ty == "notify"@ ==> r is Ok && end == cx.asked(EffectView::QuerySession),
        ty != "lock"@ && ty != "unlock"@ && ty != "query"@ && ty != "notify"@ ==> r == Err::<
            (),
            FaultView,
        >(FaultView::UnknownType(ty)) && end == cx && next == Memory::Session(p@),
{
    verbs_differ();
}

/// A peer that comes is told how the desktop last stood, and hears of every change
/// until it goes.
pub proof fn a_newcomer_learns_how_things_stand(
    p: SessionPlugin,
    cx: CxView,
    peer: Seq<char>,
    end: CxView,
    r: Result<(), FaultView>,
    next: Memory,
    gone: Memory,
)
    requires
        p.may(Told::Connected { peer }, cx, end, r, next),
        p.may(Told::Disconnected { peer }, cx, cx, r, gone),
    ensures
        match p@.last {
            Some(state) => end == cx.sent(
                peer,
                "org.acrylius.session/1"@,
                "state"@,
                SessionState::item(state),
                None,
            ),
            None => end == cx,
        },
        next matches Memory::Session(n) && n.connected.contains(peer) && n.last == p@.last && n.pending
            == p@.pending,
        gone matches Memory::Session(n) && !n.connected.contains(peer) && n.last == p@.last,
{
    joined_is_there(p@.connected, peer, peer);
    departed_is_gone(p@.connected, peer, peer);
}

/// A client gives a lock twelve seconds and an unlock nine: what the host has to confirm
/// it, and four more for the way there and back.
pub proof fn how_long_a_client_waits()
    ensures
        LOCK_CONFIRM_MS == 8_000,
        UNLOCK_CONFIRM_MS == 5_000,
        LOCK_REPLY_BUDGET_MS == 12_000,
        UNLOCK_REPLY_BUDGET_MS == 9_000,
{
}

} // verus!
