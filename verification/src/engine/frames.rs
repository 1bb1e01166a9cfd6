//! What a frame on a link leads to, given what the cipher and the wire format
//! made of it.
use crate::engine::model::{
    error, ui, AwaitV, Greeted, HeardV, LinkV, Out, Sealed, ShakingV, State, UpV,
};
use crate::engine::sends::error_answer;
use crate::link::{LinkAttrs, ReasonView};
use crate::noise::{
    names_caller, names_nobody, no_psk, Handshake, Mode, SessionView, MAX_NOISE_MESSAGE,
};
use crate::peer::RecordView;
use crate::plugin::{FaultView, ManifestView, Told};
use crate::vocab::{ActionView, UiView};
use crate::wire::{
    called, digits, envelope_read, freshness, hello_read, recognised, secret, splits, EnvelopeView,
    ErrorCode, FrameKind, HelloView, Wire,
};
use vstd::prelude::*;

verus! {

/// What came of turning a completed handshake into a session: its hash and the
/// session, or what failed.
pub enum Made {
    Ready(Seq<u8>, SessionView),
    Failed(Seq<char>),
}

/// What came of answering a session opener that had been read.
pub enum Reply {
    /// The answer could not be written.
    Unsaid(Seq<char>),
    /// The answer, and what came of the session.
    Message(Seq<u8>, Made),
}

/// What came of reading a session opener.
pub enum Opener {
    /// Nobody could be made out.
    Unreadable,
    /// Who called; the opener did not read.
    Unread(Seq<char>, Seq<char>),
    /// Who called, what they said, and what came of answering.
    Read(Seq<char>, Option<HeardV>, Reply),
}

/// Who a pairing handshake turned out to be with.
pub struct FoundV {
    pub id: Seq<char>,
    pub fingerprint: Seq<char>,
    pub key: Seq<u8>,
    pub name: Seq<char>,
    pub platform: Seq<char>,
    pub caps_out: Seq<Seq<char>>,
    pub caps_in: Seq<Seq<char>>,
    pub session_psk: Seq<u8>,
    pub sas: Seq<char>,
}

impl FoundV {
    /// What waits for a person: a fresh record, with nothing seen yet.
    pub open spec fn awaiting(self, link: u64, via: Option<(u16, Seq<char>)>) -> AwaitV {
        AwaitV {
            link,
            id: self.id,
            record: RecordView {
                device_id: self.id,
                public_key: self.key,
                name: self.name,
                platform: self.platform,
                session_psk: self.session_psk,
                greatest_seen: 0,
                caps_out: self.caps_out,
                caps_in: self.caps_in,
            },
            fingerprint: self.fingerprint,
            sas: self.sas,
            via,
        }
    }
}

/// How a completed handshake ended.
pub enum End {
    /// The handshake gave no key.
    NoKey,
    /// The far end's hello did not decode.
    NoHello,
    /// A pairing partner.
    Found(FoundV),
    /// A session partner's hello, and what came of the session.
    Session(Option<HeardV>, Made),
}

/// What came of the next message of a handshake.
pub enum Turn {
    /// It did not read.
    Unread(Seq<char>),
    /// It read, and our own next message could not be written.
    Unsaid(Seq<char>),
    /// It read; our own next message where one was due, the handshake then, and
    /// how it ended where it is complete.
    Went(Option<Seq<u8>>, Handshake, End),
}

/// What came of a frame on an established link.
pub enum Opened {
    /// It did not decrypt.
    Sealed(Seq<char>),
    /// It held no message.
    NoEnvelope,
    /// The message.
    Message(EnvelopeView),
}

/// Whether `s2` and `out2` are where a step ends that leaves off at `s` and
/// `out`, where `news` is what every plugin is then told, if anything.
pub open spec fn ends<W: Wire>(
    s: State<W>,
    out: Out,
    news: Option<Told>,
    now: u64,
    s2: State<W>,
    out2: Out,
) -> bool {
    match news {
        Some(told) => s.told_all(now, told, out, s2, out2),
        None => (s2, out2) == (s, out),
    }
}

impl ShakingV {
    /// The kind of frame that is due.
    pub open spec fn kind(self) -> FrameKind {
        if self.pairing_flow {
            FrameKind::PairHandshake
        } else {
            FrameKind::SessionHandshake
        }
    }

    /// Whether, having read a message, it owes one more: a pairing initiator does.
    pub open spec fn owes_last(self, hs: Handshake) -> bool {
        self.pairing_flow && !hs@.complete() && hs@.my_turn
    }
}

/// Whether `made` may come of turning a handshake into a session on a link.
pub open spec fn made_fits(hs: Handshake, attrs: LinkAttrs, made: Made) -> bool {
    match made {
        Made::Ready(hash, session) => {
            &&& hs@.complete() && attrs.reliable && attrs.ordered
            &&& hash == hs.hash()
            &&& session == hs.session()
            &&& hs.hash_is_shared()
            &&& hs.session_is_shared()
        },
        Made::Failed(_) => !(hs@.complete() && attrs.reliable && attrs.ordered && hs.whole()),
    }
}

/// What the plugins are told of a peer that is gone.
pub open spec fn left(gone: Option<Seq<char>>) -> Option<Told> {
    match gone {
        Some(peer) => Some(Told::Disconnected { peer }),
        None => None,
    }
}

/// The first plugin that handles a capability.
pub open spec fn handler(list: Seq<ManifestView>, cap: Seq<char>, n: int) -> Option<usize>
    decreases n,
{
    if n <= 0 {
        None
    } else {
        match handler(list, cap, n - 1) {
            Some(i) => Some(i),
            None => if list[n - 1].handles(cap) {
                Some((n - 1) as usize)
            } else {
                None
            },
        }
    }
}

/// What a plugin said to a message.
pub open spec fn verdict(fault: Option<FaultView>) -> Result<(), FaultView> {
    match fault {
        None => Ok(()),
        Some(f) => Err(f),
    }
}

/// What a handled message leads to: the plugin's wishes, and an error answer
/// where it refused.
pub open spec fn plugin_answered<W: Wire>(
    s: State<W>,
    now: u64,
    idx: usize,
    peer: Seq<char>,
    env: EnvelopeView,
    out: Out,
    s2: State<W>,
    out2: Out,
) -> bool {
    let told = Told::Message { peer, env };
    let bulk = s.bulk_for(peer);
    exists|fault: Option<FaultView>, mid: State<W>, out1: Out, sealed: Sealed|
        #![trigger s.told_one(now, idx, told, bulk, verdict(fault), out, mid, out1), answered(fault, mid, out1, sealed, peer, env.cap, env.id)]
        s.told_one(now, idx, told, bulk, verdict(fault), out, mid, out1) && (s2, out2) == answered(
            fault,
            mid,
            out1,
            sealed,
            peer,
            env.cap,
            env.id,
        ) && (fault matches Some(f) ==> mid.seal_fits(
            error_answer(peer, env.cap, env.id, f.code()),
            sealed,
        ))
}

/// The error answer, where the plugin refused.
pub open spec fn answered<W: Wire>(
    fault: Option<FaultView>,
    s: State<W>,
    out: Out,
    sealed: Sealed,
    peer: Seq<char>,
    cap: Seq<char>,
    id: u32,
) -> (State<W>, Out) {
    match fault {
        None => (s, out),
        Some(f) => s.send_step(error_answer(peer, cap, id, f.code()), sealed, out),
    }
}

impl<W: Wire> State<W> {
    /// A completed session handshake becomes a session; the third part is
    /// what the plugins are then told.
    pub open spec fn finish_session(
        self,
        now: u64,
        link: u64,
        attrs: LinkAttrs,
        peer: Seq<char>,
        made: Made,
        out: Out,
    ) -> (State<W>, Out, Option<Told>) {
        match made {
            Made::Failed(words) => {
                let (s, out) = self.fail_link(link, words, out);
                (s, out, None)
            },
            Made::Ready(hash, session) => if !self.peers.dom().contains(peer) {
                let (s, out) = self.fail_link(link, "peer vanished mid-handshake"@, out);
                (s, out, None)
            } else {
                let (s, out) = self.session_up(now, link, attrs, peer, hash, session, out);
                (s, out, Some(Told::Connected { peer }))
            },
        }
    }

    /// A session opener arrived on a link that had said nothing yet.
    pub open spec fn session_opener(
        self,
        now: u64,
        link: u64,
        attrs: LinkAttrs,
        opener: Opener,
        out: Out,
    ) -> (State<W>, Out, Option<Told>) {
        match opener {
            Opener::Unreadable => self.refuse(link, "unreadable session opener"@, out),
            Opener::Unread(id, words) => match self.why_no_session(id) {
                Some(why) => self.refuse(link, why, out),
                None => self.refuse(link, words, out),
            },
            Opener::Read(id, heard, reply) => match self.why_no_session(id) {
                Some(why) => self.refuse(link, why, out),
                None => {
                    let (s, out, fresh) = self.accept_hello(id, heard, out);
                    if !fresh {
                        s.refuse(link, "stale or replayed opener"@, out)
                    } else {
                        match reply {
                            Reply::Unsaid(words) => s.refuse(link, words, out),
                            Reply::Message(msg, made) => s.finish_session(
                                now,
                                link,
                                attrs,
                                id,
                                made,
                                out.push(ActionView::LinkSend { link, msg }),
                            ),
                        }
                    }
                },
            },
        }
    }

    /// Drops a link; nobody else is told.
    pub open spec fn refuse(
        self,
        link: u64,
        why: Seq<char>,
        out: Out,
    ) -> (State<W>, Out, Option<Told>) {
        let (s, out) = self.fail_link(link, why, out);
        (s, out, None)
    }

    /// Why a caller cannot have a session.
    pub open spec fn why_no_session(self, id: Seq<char>) -> Option<Seq<char>> {
        if !self.peers.dom().contains(id) {
            Some("unknown device"@)
        } else if self.peers[id].record.session_psk.len() != 32 {
            Some("corrupt peer record"@)
        } else {
            None
        }
    }

    /// The first frame on a link that a peer opened. `self` no longer holds the
    /// link.
    pub open spec fn first_frame(
        self,
        now: u64,
        link: u64,
        attrs: LinkAttrs,
        deadline: u64,
        kind: FrameKind,
        greeted: Greeted,
        opener: Opener,
        out: Out,
    ) -> (State<W>, Out, Option<Told>) {
        match kind {
            FrameKind::PairHandshake => {
                let (s, out) = self.pair_opener(now, link, attrs, deadline, greeted, out);
                (s, out, None)
            },
            FrameKind::SessionHandshake => self.session_opener(now, link, attrs, opener, out),
            FrameKind::Transport => self.refuse(link, "transport frame before a handshake"@, out),
        }
    }

    /// A frame on a link that is shaking hands. `self` no longer holds the link.
    pub open spec fn handshake_frame(
        self,
        now: u64,
        link: u64,
        h: ShakingV,
        kind: FrameKind,
        turn: Turn,
        out: Out,
    ) -> (State<W>, Out, Option<Told>) {
        if kind != h.kind() {
            self.refuse(link, "handshake frame of the wrong kind"@, out)
        } else {
            match turn {
                Turn::Unread(words) => if h.pairing_flow {
                    let (s, out) = self.pairing_attempt_failed(now, link, out);
                    (s, out, None)
                } else {
                    self.refuse(link, words, out)
                },
                Turn::Unsaid(words) => self.refuse(link, words, out),
                Turn::Went(said, hs, end) => {
                    let out = match said {
                        Some(msg) => out.push(ActionView::LinkSend { link, msg }),
                        None => out,
                    };
                    if !hs@.complete() {
                        (
                            State {
                                links: self.links.insert(
                                    link,
                                    LinkV::Handshaking(ShakingV { hs, ..h }),
                                ),
                                ..self
                            },
                            out,
                            None,
                        )
                    } else {
                        self.handshake_end(now, link, h, end, out)
                    }
                },
            }
        }
    }

    /// A handshake is complete.
    pub open spec fn handshake_end(self, now: u64, link: u64, h: ShakingV, end: End, out: Out) -> (
        State<W>,
        Out,
        Option<Told>,
    ) {
        if h.pairing_flow {
            match end {
                End::NoHello => {
                    let (s, out) = self.pairing_attempt_failed(now, link, out);
                    (s, out, None)
                },
                End::Found(f) => {
                    let (s, out) = self.pairing_completed(
                        now,
                        link,
                        h.attrs,
                        h.deadline,
                        f.awaiting(link, h.via),
                        out,
                    );
                    (s, out, None)
                },
                _ => self.refuse(link, "handshake completed without a peer key"@, out),
            }
        } else {
            match h.expect {
                None => self.refuse(link, "session handshake with no expected peer"@, out),
                Some(peer) => match end {
                    End::Session(heard, made) => {
                        let (s, out, fresh) = self.accept_hello(peer, heard, out);
                        if !fresh {
                            s.refuse(link, "stale or replayed response"@, out)
                        } else {
                            s.finish_session(now, link, h.attrs, peer, made, out)
                        }
                    },
                    _ => self.refuse(link, "session handshake with no expected peer"@, out),
                },
            }
        }
    }

    /// Drops an established link as it would if it had died.
    pub open spec fn fail_up_link(
        self,
        now: u64,
        link: u64,
        u: UpV,
        detail: Seq<char>,
        out: Out,
    ) -> (
        State<W>,
        Out,
        Option<Told>,
    ) {
        let s = State { links: self.links.insert(link, LinkV::Up(u)), ..self };
        let out = out.push(
            ActionView::Close { link, reason: ReasonView::Protocol(ErrorCode::NotAllowed) },
        );
        let out = error(out, Some(u.peer), ErrorCode::NotAllowed, detail);
        let (s, out, gone) = s.link_down(now, link, out);
        (s, out, left(gone))
    }

    /// The state once something has arrived on an established link.
    pub open spec fn heard_from(self, now: u64, link: u64, u: UpV) -> State<W> {
        let heard = UpV { last_recv_ms: now, session: u.session.after_opening(), ..u };
        State { links: self.links.insert(link, LinkV::Up(heard)), ..self }
    }

    /// Whether `s2` and `out2` follow from a frame on an established link.
    /// `self` no longer holds the link.
    pub open spec fn transport_frame(
        self,
        now: u64,
        link: u64,
        u: UpV,
        kind: FrameKind,
        opened: Opened,
        out: Out,
        s2: State<W>,
        out2: Out,
    ) -> bool {
        if kind != FrameKind::Transport {
            let (s, out, news) = self.fail_up_link(
                now,
                link,
                u,
                "handshake frame on an established link"@,
                out,
            );
            ends(s, out, news, now, s2, out2)
        } else {
            match opened {
                Opened::Sealed(words) => {
                    let (s, out, news) = self.fail_up_link(now, link, u, words, out);
                    ends(s, out, news, now, s2, out2)
                },
                Opened::NoEnvelope => (s2, out2) == (
                    self.heard_from(now, link, u),
                    error(out, Some(u.peer), ErrorCode::BadBody, "envelope did not decode"@),
                ),
                Opened::Message(env) => self.heard_from(now, link, u).message(
                    now,
                    u,
                    env,
                    out,
                    s2,
                    out2,
                ),
            }
        }
    }

    /// Whether `s2` and `out2` follow from answering a message with the error that
    /// its capability was not negotiated.
    pub open spec fn refused(
        self,
        peer: Seq<char>,
        env: EnvelopeView,
        out: Out,
        s2: State<W>,
        out2: Out,
    ) -> bool {
        let m = error_answer(peer, env.cap, env.id, ErrorCode::CapNotNegotiated);
        exists|sealed: Sealed|
            (s2, out2) == #[trigger] self.send_step(m, sealed, out) && self.seal_fits(m, sealed)
    }

    /// Whether `s2` and `out2` follow from a message of a peer. Whether it was
    /// negotiated is settled here, once; an error is shown and never answered.
    pub open spec fn message(
        self,
        now: u64,
        u: UpV,
        env: EnvelopeView,
        out: Out,
        s2: State<W>,
        out2: Out,
    ) -> bool {
        let idx = handler(self.manifests, env.cap, self.manifests.len() as int);
        if !u.can_recv.contains(env.cap) {
            self.refused(u.peer, env, out, s2, out2)
        } else if env.ty == "err"@ {
            (s2, out2) == (
                self,
                ui(out, UiView::Plugin { peer: u.peer, cap: env.cap, ty: "err"@, body: env.body }),
            )
        } else if idx is None {
            self.refused(u.peer, env, out, s2, out2)
        } else {
            plugin_answered(self, now, idx->Some_0, u.peer, env, out, s2, out2)
        }
    }

    /// Whether `heard` may be what a handshake payload says, held against our clock
    /// and what this peer has shown before.
    pub open spec fn heard_fits(
        self,
        peer: Seq<char>,
        payload: Seq<u8>,
        heard: Option<HeardV>,
    ) -> bool {
        let seen = if self.peers.dom().contains(peer) {
            self.peers[peer].record.greatest_seen
        } else {
            0
        };
        exists|hello: Option<HelloView>|
            #[trigger] hello_read(self.wire, payload, hello) && match hello {
                None => heard is None,
                Some(h) => heard matches Some(x) && x == (HeardV {
                    name: h.name,
                    platform: h.platform,
                    caps_out: h.caps_out,
                    caps_in: h.caps_in,
                    fresh: x.fresh,
                }) && freshness(self.wire, h, self.wall_ms, seen, x.fresh),
            }
    }

    /// Whether a handshake is one that answers a pairing opener.
    pub open spec fn answers_pairing(self, start: Handshake) -> bool {
        start.starts(Mode::Pair, self.own_secret, no_psk(), None, false)
    }

    /// Whether a handshake is one that answers a session opener of a peer.
    pub open spec fn answers_session(self, start: Handshake, peer: Seq<char>) -> bool {
        start.starts(
            Mode::Session,
            self.own_secret,
            self.peers[peer].record.session_psk,
            None,
            false,
        )
    }

    /// Whether `greeted` may come of a pairing opener.
    pub open spec fn greeting_fits(self, body: Seq<u8>, greeted: Greeted) -> bool {
        match greeted {
            Greeted::Unread => exists|start: Handshake|
                #[trigger] self.answers_pairing(start) && start.refuses(body),
            Greeted::Unsaid(words) => exists|start: Handshake, payload: Seq<u8>, mid: Handshake|
                self.answers_pairing(start) && #[trigger] start.has_read(body, payload, mid)
                    && self.keeps_hello(mid, words),
            Greeted::Answered(msg, hs) => exists|start: Handshake, payload: Seq<u8>, mid: Handshake|
                self.answers_pairing(start) && #[trigger] start.has_read(body, payload, mid)
                    && self.says_hello(mid, FrameKind::PairHandshake, msg, hs),
        }
    }

    /// Whether a session opener may have come from the device with this id.
    pub open spec fn calls(self, body: Seq<u8>, id: Seq<char>) -> bool {
        exists|key: Seq<u8>|
            #[trigger] names_caller(self.own_secret, body, key) && called(self.wire, key, id)
    }

    /// Whether `reply` may come of answering a session opener that had been read.
    pub open spec fn reply_fits(self, hs: Handshake, attrs: LinkAttrs, reply: Reply) -> bool {
        match reply {
            Reply::Message(msg, made) => exists|after: Handshake|
                #[trigger] self.says_hello(hs, FrameKind::SessionHandshake, msg, after)
                    && made_fits(after, attrs, made),
            Reply::Unsaid(words) => self.keeps_hello(hs, words),
        }
    }

    /// Whether `opener` may be what came of a session opener.
    pub open spec fn opener_fits(self, attrs: LinkAttrs, body: Seq<u8>, opener: Opener) -> bool {
        match opener {
            Opener::Unreadable => body.len() > MAX_NOISE_MESSAGE || names_nobody(
                self.own_secret,
                body,
            ),
            Opener::Unread(id, _) => self.calls(body, id) && (self.why_no_session(id) is None
                ==> exists|start: Handshake|
                #[trigger] self.answers_session(start, id) && start.refuses(body)),
            Opener::Read(id, heard, reply) => self.calls(body, id) && exists|
                start: Handshake,
                payload: Seq<u8>,
                mid: Handshake,
            |
                self.answers_session(start, id) && #[trigger] start.has_read(body, payload, mid)
                    && self.heard_fits(id, payload, heard) && (self.takes_hello(id, heard)
                    ==> self.reply_fits(mid, attrs, reply)),
        }
    }

    /// Whether a pairing handshake may have turned out to be with this partner.
    pub open spec fn found_fits(self, hs: Handshake, payload: Seq<u8>, f: FoundV) -> bool {
        &&& hs.remote() == Some(f.key)
        &&& hs.remote_is_true()
        &&& hs.hash_is_shared()
        &&& called(self.wire, f.key, f.id)
        &&& recognised(self.wire, f.key, f.fingerprint)
        &&& secret(self.wire, hs.hash(), f.session_psk)
        &&& digits(self.wire, hs.hash(), f.sas)
        &&& exists|h: HelloView|
            #[trigger] hello_read(self.wire, payload, Some(h)) && h.name == f.name && h.platform
                == f.platform && h.caps_out == f.caps_out && h.caps_in == f.caps_in
    }

    /// Whether a hello is taken in: it read, it is fresh, and it is a peer's.
    pub open spec fn takes_hello(self, peer: Seq<char>, heard: Option<HeardV>) -> bool {
        self.accept_hello(peer, heard, Seq::empty()).2
    }

    /// Whether a completed handshake may have ended so.
    pub open spec fn end_fits(
        self,
        h: ShakingV,
        payload: Seq<u8>,
        hs: Handshake,
        end: End,
    ) -> bool {
        if h.pairing_flow {
            match end {
                End::NoHello => hs.remote() is Some && hello_read(self.wire, payload, None),
                End::Found(f) => self.found_fits(hs, payload, f),
                _ => hs.remote() is None && !(hs.whole() && hs.knows_far_end()),
            }
        } else {
            h.expect matches Some(peer) ==> (end matches End::Session(heard, made)
                && self.heard_fits(peer, payload, heard) && (self.takes_hello(peer, heard)
                ==> made_fits(hs, h.attrs, made)))
        }
    }

    /// Whether `turn` may be what came of the next message of a handshake.
    pub open spec fn turn_fits(self, h: ShakingV, body: Seq<u8>, turn: Turn) -> bool {
        match turn {
            Turn::Unread(_) => h.hs.refuses(body),
            Turn::Unsaid(words) => exists|payload: Seq<u8>, mid: Handshake|
                #[trigger] h.hs.has_read(body, payload, mid) && h.owes_last(mid)
                    && self.keeps_hello(mid, words),
            Turn::Went(said, hs, end) => exists|payload: Seq<u8>, mid: Handshake|
                #[trigger] h.hs.has_read(body, payload, mid) && self.went_fits(
                    h,
                    payload,
                    mid,
                    said,
                    hs,
                    end,
                ),
        }
    }

    /// Whether a handshake that has read a payload may go on so: a pairing
    /// initiator owes one more message, and nobody else does.
    pub open spec fn went_fits(
        self,
        h: ShakingV,
        payload: Seq<u8>,
        mid: Handshake,
        said: Option<Seq<u8>>,
        hs: Handshake,
        end: End,
    ) -> bool {
        &&& if h.owes_last(mid) {
            said matches Some(msg) && self.says_hello(mid, FrameKind::PairHandshake, msg, hs)
        } else {
            said is None && hs == mid
        }
        &&& hs@.complete() ==> self.end_fits(h, payload, hs, end)
    }

    /// Whether `opened` may be what came of a frame on an established link.
    pub open spec fn opened_fits(self, u: UpV, body: Seq<u8>, opened: Opened) -> bool {
        match opened {
            Opened::Sealed(_) => forall|p: Seq<u8>| !#[trigger] u.session.opens(body, p),
            Opened::NoEnvelope => exists|p: Seq<u8>|
                #[trigger] u.session.opens_to(body, p) && envelope_read(self.wire, p, None),
            Opened::Message(env) => exists|p: Seq<u8>|
                #[trigger] u.session.opens_to(body, p) && envelope_read(self.wire, p, Some(env)),
        }
    }

    /// Whether these may be what the cipher and the wire format make of a frame, as
    /// far as the link it came on asks for it. `self` no longer holds the link.
    pub open spec fn fits(
        self,
        now: u64,
        link: LinkV,
        kind: FrameKind,
        body: Seq<u8>,
        greeted: Greeted,
        opener: Opener,
        turn: Turn,
        opened: Opened,
    ) -> bool {
        match link {
            LinkV::Pending { attrs, .. } => match kind {
                FrameKind::PairHandshake => self.why_not_pair(now) is None
                    ==> self.greeting_fits(body, greeted),
                FrameKind::SessionHandshake => self.opener_fits(attrs, body, opener),
                FrameKind::Transport => true,
            },
            LinkV::Handshaking(h) => kind == h.kind() ==> self.turn_fits(h, body, turn),
            LinkV::Up(u) => kind == FrameKind::Transport ==> self.opened_fits(u, body, opened),
        }
    }

    /// Whether `s2` and `out2` follow from a whole message on a link. `frame` is
    /// what the wire format made of it; the rest is what the cipher did.
    pub open spec fn received(
        self,
        now: u64,
        link: u64,
        msg: Seq<u8>,
        frame: Option<(FrameKind, Seq<u8>)>,
        greeted: Greeted,
        opener: Opener,
        turn: Turn,
        opened: Opened,
        out: Out,
        s2: State<W>,
        out2: Out,
    ) -> bool {
        splits(self.wire, msg, frame) && match frame {
            None => (s2, out2) == self.fail_link(link, "malformed frame"@, out),
            Some((kind, body)) => if !self.links.dom().contains(link) {
                (s2, out2) == self.fail_link(link, "frame on an unknown link"@, out)
            } else {
                let s = State { links: self.links.remove(link), ..self };
                s.fits(now, self.links[link], kind, body, greeted, opener, turn, opened)
                    && match self.links[link] {
                    LinkV::Pending { attrs, deadline } => {
                        let (s, out, news) = s.first_frame(
                            now,
                            link,
                            attrs,
                            deadline,
                            kind,
                            greeted,
                            opener,
                            out,
                        );
                        ends(s, out, news, now, s2, out2)
                    },
                    LinkV::Handshaking(h) => {
                        let (s, out, news) = s.handshake_frame(now, link, h, kind, turn, out);
                        ends(s, out, news, now, s2, out2)
                    },
                    LinkV::Up(u) => s.transport_frame(now, link, u, kind, opened, out, s2, out2),
                }
            },
        }
    }
}

} // verus!
