//! What happens on links: they come up, shake hands, carry messages and go down.
use crate::engine::frames::{
    answered, ends, handler, left, made_fits, verdict, End, FoundV, Made, Opened, Opener, Reply,
    Turn,
};
use crate::engine::model::{
    kept_back, session_started, Greeted, HeardV, Said, Sealed, State, UpV,
};
use crate::engine::pairing::Found;
use crate::engine::telling::{News, Round};
use crate::engine::{Core, HandshakingLink, LinkState, PeerDial, PendingLink, UpLink};
use crate::ids::DeviceId;
use crate::link::{LinkAttrs, LinkDownReason, LinkId};
use crate::noise::{names_caller, no_psk, Handshake, Mode};
use crate::peer::PeerRecord;
use crate::plugin::{answer, handles, Told};
use crate::text::{copy_bytes, copy_texts, holds, same, texts};
use crate::vocab::{Action, ActionView, DialToken, Outcome, UiEvent};
use crate::wire::{
    called, digits, draw_secret, hello_read, hello_written, join_frame, joins, judge_hello,
    name_key, negotiate, read_envelope, read_hello, recognise_key, recognised, secret, show_digits,
    split_frame, write_hello, Envelope, ErrorCode, FrameKind, Hello, Wire, WIRE_VERSION,
};
use vstd::prelude::*;

verus! {

/// A hello and whether it is fresh.
pub(crate) struct Heard {
    hello: Hello,
    fresh: Result<u64, String>,
}

impl View for Heard {
    type V = HeardV;

    closed spec fn view(&self) -> HeardV {
        HeardV {
            name: self.hello.name@,
            platform: self.hello.platform@,
            caps_out: texts(self.hello.caps_out@),
            caps_in: texts(self.hello.caps_in@),
            fresh: match self.fresh {
                Ok(n) => Ok(n),
                Err(e) => Err(e@),
            },
        }
    }
}

/// The view of what was heard, if anything was.
pub(crate) open spec fn opt_heard(h: Option<Heard>) -> Option<HeardV> {
    match h {
        Some(h) => Some(h@),
        None => None,
    }
}

/// The view of a message, if there is one.
pub(crate) open spec fn opt_bytes(m: Option<Vec<u8>>) -> Option<Seq<u8>> {
    match m {
        Some(m) => Some(m@),
        None => None,
    }
}

/// What came of writing a handshake's first message.
pub(crate) open spec fn said_as(said: Result<Vec<u8>, String>, hs: Handshake) -> Said {
    match said {
        Ok(msg) => Said::Message(msg@, hs),
        Err(words) => Said::Failed(words@),
    }
}

/// What came of writing the answer to a pairing opener.
pub(crate) open spec fn greeted_as(said: Result<Vec<u8>, String>, hs: Handshake) -> Greeted {
    match said {
        Ok(msg) => Greeted::Answered(msg@, hs),
        Err(words) => Greeted::Unsaid(words@),
    }
}

impl<W: Wire> Core<W> {
    /// What this device says about itself in a handshake.
    pub fn hello(&self) -> (h: Hello)
        ensures
            h@ == self@.hello(),
    {
        Hello {
            v: WIRE_VERSION,
            // Wall clock, not monotonic: the peer compares it against its own.
            ts_ms: self.wall_ms,
            device_id: self.id.text(),
            name: self.config.name.clone(),
            platform: self.config.platform.clone(),
            caps_out: copy_texts(&self.caps_out),
            caps_in: copy_texts(&self.caps_in),
        }
    }

    /// Our hello as a handshake payload.
    fn encoded_hello(&self) -> (p: Vec<u8>)
        ensures
            hello_written(self@.wire, self@.hello(), p@),
    {
        write_hello(&self.wire, &self.hello())
    }

    /// Write the next message of a handshake and frame it. The last message of a
    /// pairing goes out whenever it fits; the others need a fresh random key, which
    /// may not be had.
    fn say(
        &self,
        hs: &mut Handshake,
        kind: FrameKind,
        payload: &[u8],
    ) -> (r: Result<Vec<u8>, String>)
        ensures
            r matches Ok(m) ==> self@.says(*old(hs), kind, payload@, m@, *final(hs)),
            r is Ok ==> old(hs).may_write(payload@) && final(hs)@ == old(hs)@.passed(false),
            old(hs).must_write(payload@) ==> r is Ok,
            r matches Err(words) ==> final(hs)@ == old(hs)@ && kept_back(
                *old(hs),
                payload@,
                words@,
            ),
            final(hs).origin() == old(hs).origin(),
    {
        let ghost before = *hs;
        match hs.write(payload) {
            Ok(m) => {
                assert(before.has_written(payload@, m@, *hs));
                Ok(join_frame(&self.wire, kind, &m))
            },
            Err(e) => Err(e.message()),
        }
    }

    pub(crate) fn on_link_up(
        &mut self,
        now_ms: u64,
        link: LinkId,
        attrs: LinkAttrs,
        dial: Option<DialToken>,
        out: &mut Outcome,
    ) -> (said:
        Ghost<Said>)
        requires
            old(self)@.clock_fits(now_ms),
        ensures
            (final(self)@, final(out)@) == old(self)@.link_up(
                now_ms,
                link.0,
                attrs,
                crate::engine::events::token_of(dial),
                said@,
                old(out)@,
            ),
            old(self)@.said_fits(crate::engine::events::token_of(dial), said@),
    {
        let deadline: u64 = now_ms + self.config.handshake_timeout_ms;
        let ghost start = self@;
        match dial {
            Some(d) => {
                // A link we dialled to pair: we speak first, with XX.
                match self.pending_pair_dials.remove(&d.0) {
                    Some(via) => {
                        let psk: [u8; 32] = [0u8;32];
                        let mut hs = match Handshake::pair_initiator(&self.identity, &psk) {
                            Ok(hs) => hs,
                            Err(e) => {
                                let words = e.message();
                                self.fail_link(link, words.as_str(), out);
                                return Ghost(Said::Failed(words@));
                            },
                        };
                        // XX message 1 carries nothing of ours.
                        let nothing: Vec<u8> = Vec::new();
                        let ghost first = hs;
                        proof {
                            assert(psk@ =~= no_psk());
                            assert(nothing@ =~= Seq::<u8>::empty());
                            assert(first.starts(Mode::Pair, start.own_secret, no_psk(), None, true));
                        }
                        let said = self.say(&mut hs, FrameKind::PairHandshake, &nothing);
                        let ghost came = said_as(said, hs);
                        assert(start.pair_said(came));
                        let h = HandshakingLink {
                            hs,
                            attrs,
                            deadline,
                            expect: None,
                            pairing_flow: true,
                            via: Some(via),
                            // Pairing walks no route list.
                            fallback: None,
                        };
                        self.shake_on(link, h, said, out);
                        return Ghost(came);
                    },
                    None => {},
                }
                assert(self@.pair_dials =~= start.pair_dials);
                // A link we dialled to reach a known peer: IKpsk2, we speak first.
                match self.pending_peer_dials.remove(&d.0) {
                    Some((_, pending)) => {
                        // Untried routes travel with the link, not the dial token.
                        let ghost mid = self@;
                        let ghost peer = pending@.peer;
                        let said = self.start_session_initiator(link, attrs, deadline, pending, out);
                        proof {
                            if start.can_open(peer) {
                                same_said(mid, start, peer, said@);
                            }
                        }
                        return said;
                    },
                    None => {},
                }
                assert(self@.peer_dials =~= start.peer_dials);
            },
            None => {},
        }
        // Someone dialled us. We do not know yet what they want.
        self.links.insert(link.0, LinkState::Pending(PendingLink { attrs, deadline }));
        Ghost(Said::Failed(Seq::empty()))
    }

    fn start_session_initiator(
        &mut self,
        link: LinkId,
        attrs: LinkAttrs,
        deadline: u64,
        pending: PeerDial,
        out: &mut Outcome,
    ) -> (said:
        Ghost<Said>)
        ensures
            (final(self)@, final(out)@) == session_started(
                old(self)@,
                link.0,
                attrs,
                deadline,
                pending@,
                said@,
                old(out)@,
            ),
            old(self)@.can_open(pending@.peer) ==> old(self)@.session_said(pending@.peer, said@),
    {
        let ghost start = self@;
        let peer = pending.peer.clone();
        let (pk, psk) = match self.peers.get(&peer.text()) {
            None => {
                self.fail_link(link, "no such peer", out);
                return Ghost(Said::Failed(Seq::empty()));
            },
            Some(k) => (k.record.public_key_array(), k.record.session_psk_array()),
        };
        let (pk, psk) = match (pk, psk) {
            (Some(pk), Some(psk)) => (pk, psk),
            _ => {
                self.fail_link(link, "corrupt peer record", out);
                return Ghost(Said::Failed(Seq::empty()));
            },
        };
        let mut hs = match Handshake::session_initiator(&self.identity, &psk, &pk) {
            Ok(hs) => hs,
            Err(e) => {
                let words = e.message();
                self.fail_link(link, words.as_str(), out);
                return Ghost(Said::Failed(words@));
            },
        };
        let ghost first = hs;
        assert(first.starts(Mode::Session, start.own_secret, psk@, Some(pk@), true));
        // Identity and capabilities only, never a command. IK's first
        // payload is not forward-secret.
        let hello = self.encoded_hello();
        let said = self.say(&mut hs, FrameKind::SessionHandshake, &hello);
        let ghost came = said_as(said, hs);
        proof {
            match came {
                Said::Message(m, after) => {
                    assert(start.says_hello(first, FrameKind::SessionHandshake, m, after));
                },
                Said::Failed(words) => {
                    assert(start.keeps_hello(first, words));
                },
            }
        }
        let h = HandshakingLink {
            hs,
            attrs,
            deadline,
            expect: Some(peer),
            pairing_flow: false,
            via: None,
            fallback: Some(pending),
        };
        self.shake_on(link, h, said, out);
        Ghost(came)
    }

    /// What follows a handshake's message, written or not: it goes out and the link
    /// waits for the next one, or the link is dropped.
    pub(crate) fn shake_on(
        &mut self,
        link: LinkId,
        h: HandshakingLink,
        said: Result<Vec<u8>, String>,
        out: &mut Outcome,
    )
        ensures
            (final(self)@, final(out)@) == (match said {
                Ok(msg) => old(self)@.shaken_on(link.0, h@, msg@, old(out)@),
                Err(words) => old(self)@.fail_link(link.0, words@, old(out)@),
            }),
    {
        match said {
            Ok(msg) => {
                out.push(Action::LinkSend { link, msg });
                self.links.insert(link.0, LinkState::Handshaking(Box::new(h)));
            },
            Err(words) => {
                self.fail_link(link, words.as_str(), out);
            },
        }
    }

    /// Validate a peer's hello and advance its replay watermark.
    fn accept_hello(
        &mut self,
        peer: &DeviceId,
        heard: Option<Heard>,
        out: &mut Outcome,
    ) -> (fresh: bool)
        ensures
            (final(self)@, final(out)@, fresh) == old(self)@.accept_hello(
                peer@,
                opt_heard(heard),
                old(out)@,
            ),
    {
        let Heard { hello, fresh } = match heard {
            Some(h) => h,
            None => {
                out.ui(
                    UiEvent::Error {
                        peer: Some(peer.clone()),
                        code: ErrorCode::BadBody,
                        detail: "handshake payload did not decode".to_owned(),
                    },
                );
                return false;
            },
        };
        let ghost start = self@;
        if !self.peers.has(&peer.text()) {
            return false;
        }
        match fresh {
            Ok(seen) => {
                match self.peers.remove(&peer.text()) {
                    Some(k) => {
                        let mut k = k;
                        k.record.greatest_seen = seen;
                        k.record.name = hello.name;
                        k.record.platform = hello.platform;
                        k.record.caps_out = hello.caps_out;
                        k.record.caps_in = hello.caps_in;
                        Self::keep_record(&k.record, out);
                        self.peers.insert(peer.text(), k);
                        assert(self@.peers =~= start.accept_hello(
                            peer@,
                            opt_heard(heard),
                            old(out)@,
                        ).0.peers);
                        true
                    },
                    None => false,
                }
            },
            Err(detail) => {
                out.ui(
                    UiEvent::Error {
                        peer: Some(peer.clone()),
                        code: ErrorCode::NotAllowed,
                        detail,
                    },
                );
                false
            },
        }
    }

    /// What a handshake payload says, held against our clock and what this peer
    /// has shown before.
    fn hear(&self, peer: &DeviceId, payload: &[u8]) -> (r: Option<Heard>)
        ensures
            self@.heard_fits(peer@, payload@, opt_heard(r)),
    {
        match read_hello(&self.wire, payload) {
            Some(hello) => {
                let seen: u64 = match self.peers.get(&peer.text()) {
                    Some(k) => k.record.greatest_seen,
                    None => 0,
                };
                let fresh = judge_hello(&self.wire, &hello, self.wall_ms, seen);
                assert(hello_read(self@.wire, payload@, Some(hello@)));
                Some(Heard { hello, fresh })
            },
            None => {
                assert(hello_read(self@.wire, payload@, None));
                None
            },
        }
    }

    /// A completed session handshake becomes a session. What plugins then ask
    /// for is in the outcome too.
    fn finish_session(
        &mut self,
        now_ms: u64,
        link: LinkId,
        hs: Handshake,
        attrs: LinkAttrs,
        peer: DeviceId,
        out: &mut Outcome,
    ) -> (made:
        Ghost<Made>)
        requires
            old(self)@.clock_fits(now_ms),
        ensures
            ({
                let (s, o, news) = old(self)@.finish_session(
                    now_ms,
                    link.0,
                    attrs,
                    peer@,
                    made@,
                    old(out)@,
                );
                ends(s, o, news, now_ms, final(self)@, final(out)@)
            }),
            made_fits(hs, attrs, made@),
            final(self)@.clock_fits(now_ms),
    {
        let handshake_hash = match hs.handshake_hash() {
            Ok(h) => h,
            Err(_) => Vec::new(),
        };
        let ghost hash = handshake_hash@;
        let session = match hs.into_session(&attrs) {
            Ok(s) => s,
            Err(e) => {
                let words = e.message();
                self.fail_link(link, words.as_str(), out);
                return Ghost(Made::Failed(words@));
            },
        };
        let ghost begun = session@;
        let (can_send, can_recv, name) = match self.peers.get(&peer.text()) {
            None => {
                self.fail_link(link, "peer vanished mid-handshake", out);
                return Ghost(Made::Ready(hash, begun));
            },
            // Directional on purpose: conflating the two sets would let a peer
            // receive a capability it only said it could send.
            Some(k) => (
                negotiate(&self.caps_out, &k.record.caps_in),
                negotiate(&k.record.caps_out, &self.caps_in),
                k.record.name.clone(),
            ),
        };
        self.links.insert(
            link.0,
            LinkState::Up(
                Box::new(
                    UpLink {
                        session,
                        peer: peer.clone(),
                        handshake_hash,
                        bulk: attrs.bulk,
                        max_message: attrs.max_message,
                        // The handshake just arrived here; starting at zero would make
                        // every new session lose to whatever was already up.
                        last_recv_ms: now_ms,
                        transport: attrs.transport,
                        kind: attrs.kind,
                        can_send,
                        can_recv,
                    },
                ),
            ),
        );
        let _ = self.dial_trouble.remove(&peer.text());
        out.ui(UiEvent::PeerReachable { peer: peer.clone(), name });
        let ghost mid = self@;
        let ghost mid_out = out@;
        self.tell_all(now_ms, Round::Connected(&peer), out);
        Ghost(Made::Ready(hash, begun))
    }

    /// The first thing an inbound peer says decides which handshake this is.
    fn on_first_frame(
        &mut self,
        now_ms: u64,
        link: LinkId,
        p: PendingLink,
        kind: FrameKind,
        body: &[u8],
        out: &mut Outcome,
    ) -> (r: (
        Ghost<Greeted>,
        Ghost<Opener>,
    ))
        requires
            old(self)@.clock_fits(now_ms),
        ensures
            ({
                let (s, o, news) = old(self)@.first_frame(
                    now_ms,
                    link.0,
                    p.attrs,
                    p.deadline,
                    kind,
                    r.0@,
                    r.1@,
                    old(out)@,
                );
                ends(s, o, news, now_ms, final(self)@, final(out)@)
            }),
            kind == FrameKind::PairHandshake && old(self)@.why_not_pair(now_ms) is None ==> old(
                self,
            )@.greeting_fits(body@, r.0@),
            kind == FrameKind::SessionHandshake ==> old(self)@.opener_fits(
                p.attrs,
                body@,
                r.1@,
            ),
            final(self)@.clock_fits(now_ms),
    {
        match kind {
            FrameKind::PairHandshake => {
                let greeted = self.on_pair_opener(now_ms, link, p, body, out);
                (greeted, Ghost(Opener::Unreadable))
            },
            FrameKind::SessionHandshake => {
                let opener = self.on_session_opener(now_ms, link, p.attrs, body, out);
                (Ghost(Greeted::Unread), opener)
            },
            FrameKind::Transport => {
                self.fail_link(link, "transport frame before a handshake", out);
                (Ghost(Greeted::Unread), Ghost(Opener::Unreadable))
            },
        }
    }

    fn on_pair_opener(
        &mut self,
        now_ms: u64,
        link: LinkId,
        p: PendingLink,
        body: &[u8],
        out: &mut Outcome,
    ) -> (greeted:
        Ghost<Greeted>)
        requires
            old(self)@.clock_fits(now_ms),
        ensures
            (final(self)@, final(out)@) == old(self)@.pair_opener(
                now_ms,
                link.0,
                p.attrs,
                p.deadline,
                greeted@,
                old(out)@,
            ),
            old(self)@.why_not_pair(now_ms) is None ==> old(self)@.greeting_fits(
                body@,
                greeted@,
            ),
    {
        let ghost start = self@;
        match self.why_not_pair(now_ms) {
            Some(why) => {
                self.fail_link(link, why, out);
                return Ghost(Greeted::Unread);
            },
            None => {},
        }
        let psk: [u8; 32] = [0u8;32];
        let mut hs = match Handshake::pair_responder(&self.identity, &psk) {
            Ok(hs) => hs,
            Err(e) => {
                let words = e.message();
                self.fail_link(link, words.as_str(), out);
                return Ghost(Greeted::Unread);
            },
        };
        let ghost first = hs;
        proof {
            assert(psk@ =~= no_psk());
            assert(start.answers_pairing(first));
        }
        let read = hs.read(body);
        if read.is_err() {
            // Slot not claimed yet, but a bad message 1 still
            // earns the cooldown.
            self.pair_quiet_until = now_ms + self.config.pair_cooldown_ms;
            self.fail_link(link, "malformed pairing handshake", out);
            return Ghost(Greeted::Unread);
        }
        let ghost mid = hs;
        assert(first.has_read(body@, read->Ok_0@, mid));
        let hello = self.encoded_hello();
        let said = self.say(&mut hs, FrameKind::PairHandshake, &hello);
        let ghost came = greeted_as(said, hs);
        proof {
            match came {
                Greeted::Answered(m, after) => {
                    assert(start.says_hello(mid, FrameKind::PairHandshake, m, after));
                },
                Greeted::Unsaid(words) => {
                    assert(start.keeps_hello(mid, words));
                },
                Greeted::Unread => {},
            }
        }
        let h = HandshakingLink {
            hs,
            attrs: p.attrs,
            deadline: p.deadline,
            expect: None,
            pairing_flow: true,
            via: None,
            // Inbound: no route list of ours.
            fallback: None,
        };
        self.answer_pairing(now_ms, link, h, said, out);
        Ghost(came)
    }

    /// What follows the answer to a pairing opener, written or not: it takes the
    /// pairing slot and goes out, or the link is dropped and the slot stays free.
    pub(crate) fn answer_pairing(
        &mut self,
        now_ms: u64,
        link: LinkId,
        h: HandshakingLink,
        said: Result<Vec<u8>, String>,
        out: &mut Outcome,
    )
        requires
            old(self)@.clock_fits(now_ms),
        ensures
            (final(self)@, final(out)@) == (match said {
                Ok(msg) => old(self)@.begin_pairing(now_ms).shaken_on(
                    link.0,
                    h@,
                    msg@,
                    old(out)@,
                ),
                Err(words) => old(self)@.fail_link(link.0, words@, old(out)@),
            }),
    {
        if said.is_ok() {
            // A real handshake, not a stray connection.
            self.begin_pairing(now_ms);
        }
        self.shake_on(link, h, said, out);
    }

    fn on_session_opener(
        &mut self,
        now_ms: u64,
        link: LinkId,
        attrs: LinkAttrs,
        body: &[u8],
        out: &mut Outcome,
    ) -> (opener:
        Ghost<Opener>)
        requires
            old(self)@.clock_fits(now_ms),
        ensures
            ({
                let (s, o, news) = old(self)@.session_opener(
                    now_ms,
                    link.0,
                    attrs,
                    opener@,
                    old(out)@,
                );
                ends(s, o, news, now_ms, final(self)@, final(out)@)
            }),
            old(self)@.opener_fits(attrs, body@, opener@),
            final(self)@.clock_fits(now_ms),
    {
        // Learn who is calling to choose their PSK, then replay this
        // message into a real handshake; see `Handshake::session_identify`.
        let pk = match Handshake::session_identify(&self.identity, body) {
            Ok(pk) => pk,
            Err(_) => {
                self.fail_link(link, "unreadable session opener", out);
                return Ghost(Opener::Unreadable);
            },
        };
        let ghost start = self@;
        let id = name_key(&self.wire, &pk);
        assert(names_caller(start.own_secret, body@, pk@));
        assert(start.calls(body@, id@));
        let psk = match self.peers.get(&id.text()) {
            None => {
                self.fail_link(link, "unknown device", out);
                return Ghost(Opener::Unread(id@, Seq::empty()));
            },
            Some(k) => k.record.session_psk_array(),
        };
        let psk = match psk {
            Some(psk) => psk,
            None => {
                self.fail_link(link, "corrupt peer record", out);
                return Ghost(Opener::Unread(id@, Seq::empty()));
            },
        };
        let mut hs = match Handshake::session_responder(&self.identity, &psk) {
            Ok(hs) => hs,
            Err(e) => {
                let words = e.message();
                self.fail_link(link, words.as_str(), out);
                return Ghost(Opener::Unreadable);
            },
        };
        let ghost first = hs;
        assert(start.answers_session(first, id@));
        let payload = match hs.read(body) {
            Ok(p) => p,
            Err(e) => {
                let words = e.message();
                self.fail_link(link, words.as_str(), out);
                return Ghost(Opener::Unread(id@, words@));
            },
        };
        let ghost mid = hs;
        assert(first.has_read(body@, payload@, mid));
        let heard = self.hear(&id, &payload);
        let ghost hv = opt_heard(heard);
        let ghost who = id@;
        if !self.accept_hello(&id, heard, out) {
            self.fail_link(link, "stale or replayed opener", out);
            return Ghost(Opener::Read(who, hv, Reply::Unsaid(Seq::empty())));
        }
        let hello = self.encoded_hello();
        let said = self.say(&mut hs, FrameKind::SessionHandshake, &hello);
        let ghost after = hs;
        let ghost came = said;
        proof {
            match came {
                Ok(m) => {
                    assert(self@.says_hello(mid, FrameKind::SessionHandshake, m@, hs));
                    hello_is_the_same(self@, start, mid, FrameKind::SessionHandshake, m@, hs);
                },
                Err(words) => {
                    assert(hello_written(self@.wire, self@.hello(), hello@));
                    assert(start.hello() == self@.hello());
                    assert(start.keeps_hello(mid, words@));
                },
            }
        }
        let reply = self.answer_session(now_ms, link, hs, attrs, id, said, out);
        assert(start.reply_fits(mid, attrs, reply@)) by {
            match came {
                Ok(m) => {
                    assert(start.says_hello(mid, FrameKind::SessionHandshake, m@, after));
                },
                Err(_) => {},
            }
        }
        Ghost(Opener::Read(who, hv, reply@))
    }

    /// What follows the answer to a session opener, written or not: it goes out and
    /// the session is up, or the link is dropped.
    pub(crate) fn answer_session(
        &mut self,
        now_ms: u64,
        link: LinkId,
        hs: Handshake,
        attrs: LinkAttrs,
        peer: DeviceId,
        said: Result<Vec<u8>, String>,
        out: &mut Outcome,
    ) -> (reply:
        Ghost<Reply>)
        requires
            old(self)@.clock_fits(now_ms),
        ensures
            match said {
                Ok(msg) => reply@ matches Reply::Message(m, made) && m == msg@ && made_fits(
                    hs,
                    attrs,
                    made,
                ) && {
                    let (s, o, news) = old(self)@.finish_session(
                        now_ms,
                        link.0,
                        attrs,
                        peer@,
                        made,
                        old(out)@.push(ActionView::LinkSend { link: link.0, msg: msg@ }),
                    );
                    ends(s, o, news, now_ms, final(self)@, final(out)@)
                },
                Err(words) => reply@ == Reply::Unsaid(words@) && (final(self)@, final(out)@) == old(
                    self,
                )@.fail_link(link.0, words@, old(out)@),
            },
            final(self)@.clock_fits(now_ms),
    {
        match said {
            Ok(msg) => {
                let ghost m = msg@;
                out.push(Action::LinkSend { link, msg });
                let made = self.finish_session(now_ms, link, hs, attrs, peer, out);
                Ghost(Reply::Message(m, made@))
            },
            Err(words) => {
                self.fail_link(link, words.as_str(), out);
                Ghost(Reply::Unsaid(words@))
            },
        }
    }

    /// Who a completed pairing handshake is with, once their hello has decoded.
    fn find_partner(&self, hash: &[u8], pk: &[u8; 32], hello: Hello) -> (r: (Found, Ghost<FoundV>))
        ensures
            r.0.is(r.1@),
            r.1@.key == pk@,
            called(self@.wire, pk@, r.1@.id),
            recognised(self@.wire, pk@, r.1@.fingerprint),
            secret(self@.wire, hash@, r.1@.session_psk),
            digits(self@.wire, hash@, r.1@.sas),
            r.1@.name == hello@.name,
            r.1@.platform == hello@.platform,
            r.1@.caps_out == hello@.caps_out,
            r.1@.caps_in == hello@.caps_in,
    {
        let id = name_key(&self.wire, pk);
        let fingerprint = recognise_key(&self.wire, pk);
        let record = PeerRecord {
            device_id: id.text(),
            public_key: copy_bytes(pk),
            name: hello.name,
            platform: hello.platform,
            session_psk: draw_secret(&self.wire, hash),
            // A fresh peer starts at zero; its first session opener sets the mark.
            greatest_seen: 0,
            caps_out: hello.caps_out,
            caps_in: hello.caps_in,
        };
        let sas = show_digits(&self.wire, hash);
        let ghost f = FoundV {
            id: id@,
            fingerprint: fingerprint@,
            key: record.public_key@,
            name: record.name@,
            platform: record.platform@,
            caps_out: texts(record.caps_out@),
            caps_in: texts(record.caps_in@),
            session_psk: record.session_psk@,
            sas: sas@,
        };
        let found = Found { id, fingerprint, record, sas };
        (found, Ghost(f))
    }

    /// A pairing handshake is complete.
    fn pairing_completed(
        &mut self,
        now_ms: u64,
        link: LinkId,
        h: HandshakingLink,
        payload: &[u8],
        out: &mut Outcome,
    ) -> (end:
        Ghost<End>)
        requires
            old(self)@.clock_fits(now_ms),
            h.pairing_flow,
            h.hs@.complete(),
        ensures
            (final(self)@, final(out)@, None::<Told>) == old(self)@.handshake_end(
                now_ms,
                link.0,
                h@,
                end@,
                old(out)@,
            ),
            old(self)@.end_fits(h@, payload@, h.hs, end@),
    {
        let (hash, pk) = match (h.hs.handshake_hash(), h.hs.peer_static()) {
            (Ok(hash), Some(pk)) => (hash, pk),
            _ => {
                self.fail_link(link, "handshake completed without a peer key", out);
                return Ghost(End::NoKey);
            },
        };
        let hello = match read_hello(&self.wire, payload) {
            Some(h) => h,
            None => {
                self.pairing_attempt_failed(now_ms, link, out);
                return Ghost(End::NoHello);
            },
        };
        let (found, f) = self.find_partner(&hash, &pk, hello);
        assert(hello_read(self@.wire, payload@, Some(hello@)));
        let HandshakingLink { attrs, deadline, via, .. } = h;
        self.await_confirmation(now_ms, link, attrs, deadline, via, found, out);
        Ghost(End::Found(f@))
    }

    fn on_handshake_frame(
        &mut self,
        now_ms: u64,
        link: LinkId,
        h: Box<HandshakingLink>,
        kind: FrameKind,
        body: &[u8],
        out: &mut Outcome,
    ) -> (turn:
        Ghost<Turn>)
        requires
            old(self)@.clock_fits(now_ms),
        ensures
            ({
                let (s, o, news) = old(self)@.handshake_frame(
                    now_ms,
                    link.0,
                    h@,
                    kind,
                    turn@,
                    old(out)@,
                );
                ends(s, o, news, now_ms, final(self)@, final(out)@)
            }),
            kind == h@.kind() ==> old(self)@.turn_fits(h@, body@, turn@),
            final(self)@.clock_fits(now_ms),
    {
        let ghost hv = h@;
        let ghost start = self@;
        let mut h = *h;
        let expected = if h.pairing_flow {
            FrameKind::PairHandshake
        } else {
            FrameKind::SessionHandshake
        };
        if kind != expected {
            self.fail_link(link, "handshake frame of the wrong kind", out);
            return Ghost(Turn::Unread(Seq::empty()));
        }
        let payload = match h.hs.read(body) {
            Ok(p) => p,
            Err(e) => {
                let words = e.message();
                if h.pairing_flow {
                    self.pairing_attempt_failed(now_ms, link, out);
                } else {
                    self.fail_link(link, words.as_str(), out);
                }
                return Ghost(Turn::Unread(words@));
            },
        };
        let ghost mid = h.hs;
        assert(hv.hs.has_read(body@, payload@, mid));
        // A pairing initiator owes one more message before either side is done.
        let said: Option<Vec<u8>> = if h.pairing_flow && h.hs.is_my_turn() {
            let hello = self.encoded_hello();
            match self.say(&mut h.hs, FrameKind::PairHandshake, &hello) {
                Ok(msg) => {
                    assert(start.says_hello(mid, FrameKind::PairHandshake, msg@, h.hs));
                    Some(msg)
                },
                Err(words) => {
                    self.fail_link(link, words.as_str(), out);
                    assert(start.keeps_hello(mid, words@));
                    return Ghost(Turn::Unsaid(words@));
                },
            }
        } else {
            None
        };
        let ghost msg = opt_bytes(said);
        let ghost now_hs = h.hs;
        let end = self.go_on(now_ms, link, h, &payload, said, out);
        assert(start.went_fits(hv, payload@, mid, msg, now_hs, end@));
        Ghost(Turn::Went(msg, now_hs, end@))
    }

    /// What follows a handshake's message that read, our own next one having been
    /// written where it was due: it goes out, and the handshake waits for more or is
    /// over.
    pub(crate) fn go_on(
        &mut self,
        now_ms: u64,
        link: LinkId,
        h: HandshakingLink,
        payload: &[u8],
        said: Option<Vec<u8>>,
        out: &mut Outcome,
    ) -> (end:
        Ghost<End>)
        requires
            old(self)@.clock_fits(now_ms),
        ensures
            ({
                let (s, o, news) = old(self)@.handshake_frame(
                    now_ms,
                    link.0,
                    h@,
                    h@.kind(),
                    Turn::Went(opt_bytes(said), h@.hs, end@),
                    old(out)@,
                );
                ends(s, o, news, now_ms, final(self)@, final(out)@)
            }),
            h@.hs@.complete() ==> old(self)@.end_fits(h@, payload@, h@.hs, end@),
            final(self)@.clock_fits(now_ms),
    {
        let ghost start = self@;
        match said {
            Some(msg) => {
                out.push(Action::LinkSend { link, msg });
            },
            None => {},
        }
        if !h.hs.is_complete() {
            self.links.insert(link.0, LinkState::Handshaking(Box::new(h)));
            return Ghost(End::NoKey);
        }
        if h.pairing_flow {
            return self.pairing_completed(now_ms, link, h, payload, out);
        }
        // A session initiator learns the peer's Hello from message 2.
        let HandshakingLink { hs, attrs, expect, .. } = h;
        let peer = match expect {
            Some(p) => p,
            None => {
                self.fail_link(link, "session handshake with no expected peer", out);
                return Ghost(End::NoKey);
            },
        };
        let heard = self.hear(&peer, payload);
        let ghost what = opt_heard(heard);
        if !self.accept_hello(&peer, heard, out) {
            self.fail_link(link, "stale or replayed response", out);
            return Ghost(End::Session(what, Made::Failed(Seq::empty())));
        }
        let made = self.finish_session(now_ms, link, hs, attrs, peer, out);
        Ghost(End::Session(what, made@))
    }

    /// Drop an established link and announce it like any other death.
    /// `fail_link` alone can't: the link is out of the table here, so it has to
    /// go back in before teardown runs.
    fn fail_up_link(
        &mut self,
        now_ms: u64,
        link: LinkId,
        u: Box<UpLink>,
        detail: &str,
        out: &mut Outcome,
    )
        requires
            old(self)@.clock_fits(now_ms),
        ensures
            ({
                let (s, o, news) = old(self)@.fail_up_link(
                    now_ms,
                    link.0,
                    u@,
                    detail@,
                    old(out)@,
                );
                ends(s, o, news, now_ms, final(self)@, final(out)@)
            }),
            final(self)@.clock_fits(now_ms),
    {
        let peer = u.peer.clone();
        self.links.insert(link.0, LinkState::Up(u));
        out.push(
            Action::Close { link, reason: LinkDownReason::Protocol(ErrorCode::NotAllowed) },
        );
        out.ui(
            UiEvent::Error {
                peer: Some(peer),
                code: ErrorCode::NotAllowed,
                detail: detail.to_owned(),
            },
        );
        self.on_link_down(now_ms, link, out);
    }

    /// Which plugin handles a capability.
    pub(crate) fn plugin_for(&self, cap: &str) -> (r: Option<usize>)
        ensures
            r == handler(self@.manifests, cap@, self@.manifests.len() as int),
            r matches Some(i) ==> i < self@.manifests.len(),
    {
        let ghost list = self@.manifests;
        for i in 0..self.plugins.len()
            invariant
                list == self@.manifests,
                handler(list, cap@, i as int) is None,
        {
            assert(list[i as int] == self.plugins@[i as int].manifest@);
            if handles(&self.plugins[i].manifest, cap) {
                proof {
                    handler_stays(list, cap@, i + 1, list.len() as int);
                }
                return Some(i);
            }
        }
        None
    }

    fn on_transport_frame(
        &mut self,
        now_ms: u64,
        link: LinkId,
        u: Box<UpLink>,
        kind: FrameKind,
        body: &[u8],
        out: &mut Outcome,
    ) -> (opened:
        Ghost<Opened>)
        requires
            old(self)@.clock_fits(now_ms),
        ensures
            old(self)@.transport_frame(
                now_ms,
                link.0,
                u@,
                kind,
                opened@,
                old(out)@,
                final(self)@,
                final(out)@,
            ),
            kind == FrameKind::Transport ==> old(self)@.opened_fits(u@, body@, opened@),
            final(self)@.clock_fits(now_ms),
    {
        let ghost start = self@;
        let ghost uv = u@;
        let mut u = u;
        if kind != FrameKind::Transport {
            self.fail_up_link(now_ms, link, u, "handshake frame on an established link", out);
            return Ghost(Opened::NoEnvelope);
        }
        let plaintext = match u.session.decrypt(body) {
            Ok(p) => p,
            Err(e) => {
                let detail = e.message();
                self.fail_up_link(now_ms, link, u, detail.as_str(), out);
                return Ghost(Opened::Sealed(detail@));
            },
        };
        assert(uv.session.opens_to(body@, plaintext@));
        let peer = u.peer.clone();
        let allowed = copy_texts(&u.can_recv);
        // Recorded only after decryption, so socket noise cannot make a dead
        // route look alive.
        u.last_recv_ms = now_ms;
        self.links.insert(link.0, LinkState::Up(u));
        let env = match read_envelope(&self.wire, &plaintext) {
            Some(e) => e,
            None => {
                out.ui(
                    UiEvent::Error {
                        peer: Some(peer),
                        code: ErrorCode::BadBody,
                        detail: "envelope did not decode".to_owned(),
                    },
                );
                return Ghost(Opened::NoEnvelope);
            },
        };
        self.on_envelope(now_ms, &peer, &allowed, &env, Ghost(uv), out);
        Ghost(Opened::Message(env@))
    }

    /// A message of a peer.
    fn on_envelope(
        &mut self,
        now_ms: u64,
        peer: &DeviceId,
        allowed: &Vec<String>,
        env: &Envelope,
        u: Ghost<UpV>,
        out: &mut Outcome,
    )
        requires
            old(self)@.clock_fits(now_ms),
            u@.peer == peer@,
            u@.can_recv == texts(allowed@),
        ensures
            old(self)@.message(
                now_ms,
                u@,
                env@,
                old(out)@,
                final(self)@,
                final(out)@,
            ),
            final(self)@.clock_fits(now_ms),
    {
        // Checked once, here, so no plugin has to remember to.
        if !holds(allowed, env.cap.as_str()) {
            let _ = self.send_error(peer, env, ErrorCode::CapNotNegotiated, out);
            return;
        }
        // `err` stops here: routed onward it would be answered with another
        // `err`, endlessly.
        if same(env.ty.as_str(), "err") {
            out.ui(
                UiEvent::Plugin {
                    peer: peer.clone(),
                    cap: env.cap.clone(),
                    ty: "err".to_owned(),
                    body: copy_bytes(&env.body),
                },
            );
            return;
        }
        let idx: usize = match self.plugin_for(env.cap.as_str()) {
            Some(i) => i,
            None => {
                let _ = self.send_error(peer, env, ErrorCode::CapNotNegotiated, out);
                return;
            },
        };
        let ghost start = self@;
        let ghost start_out = out@;
        let bulk = self.bulk_support_for(peer);
        let result = self.tell_one(now_ms, idx, News::Message(peer, env), bulk, out);
        let ghost mid = self@;
        let ghost mid_out = out@;
        match result {
            Ok(()) => {
                proof {
                    assert(answer(result) == verdict(None));
                    assert((self@, out@) == answered(
                        None,
                        mid,
                        mid_out,
                        Sealed::Unwritten,
                        peer@,
                        env.cap@,
                        env.id,
                    ));
                }
            },
            Err(e) => {
                let sealed = self.send_error(peer, env, e.code(), out);
                proof {
                    assert(answer(result) == verdict(Some(e@)));
                    assert((self@, out@) == answered(
                        Some(e@),
                        mid,
                        mid_out,
                        sealed@,
                        peer@,
                        env.cap@,
                        env.id,
                    ));
                }
            },
        }
    }

    pub(crate) fn on_link_recv(&mut self, now_ms: u64, link: LinkId, msg: &[u8], out: &mut Outcome)
        requires
            old(self)@.clock_fits(now_ms),
        ensures
            exists|
                frame: Option<(FrameKind, Seq<u8>)>,
                greeted: Greeted,
                opener: Opener,
                turn: Turn,
                opened: Opened,
            | #[trigger]
                old(self)@.received(
                    now_ms,
                    link.0,
                    msg@,
                    frame,
                    greeted,
                    opener,
                    turn,
                    opened,
                    old(out)@,
                    final(self)@,
                    final(out)@,
                ),
            final(self)@.clock_fits(now_ms),
    {
        let ghost start = self@;
        let ghost start_out = out@;
        let ghost mut greeted: Greeted = Greeted::Unread;
        let ghost mut opener: Opener = Opener::Unreadable;
        let ghost mut turn: Turn = Turn::Unread(Seq::empty());
        let ghost mut opened: Opened = Opened::NoEnvelope;
        let ghost mut frame: Option<(FrameKind, Seq<u8>)> = None;
        match split_frame(&self.wire, msg) {
            None => {
                self.fail_link(link, "malformed frame", out);
            },
            Some((kind, body)) => {
                proof {
                    frame = Some((kind, body@));
                }
                match self.links.remove(&link.0) {
                    Some(LinkState::Pending(p)) => {
                        let r = self.on_first_frame(now_ms, link, p, kind, &body, out);
                        proof {
                            greeted = r.0@;
                            opener = r.1@;
                        }
                    },
                    Some(LinkState::Handshaking(h)) => {
                        let t = self.on_handshake_frame(now_ms, link, h, kind, &body, out);
                        proof {
                            turn = t@;
                        }
                    },
                    Some(LinkState::Up(u)) => {
                        let o = self.on_transport_frame(now_ms, link, u, kind, &body, out);
                        proof {
                            opened = o@;
                        }
                    },
                    None => {
                        assert(self@.links =~= start.links);
                        self.fail_link(link, "frame on an unknown link", out);
                    },
                }
            },
        }
        assert(start.received(
            now_ms,
            link.0,
            msg@,
            frame,
            greeted,
            opener,
            turn,
            opened,
            start_out,
            self@,
            out@,
        ));
    }

    pub(crate) fn on_link_down(&mut self, now_ms: u64, link: LinkId, out: &mut Outcome)
        requires
            old(self)@.clock_fits(now_ms),
        ensures
            ({
                let (s, o, gone) = old(self)@.link_down(now_ms, link.0, old(out)@);
                ends(s, o, left(gone), now_ms, final(self)@, final(out)@)
            }),
            final(self)@.clock_fits(now_ms),
    {
        let ghost start = self@;
        let u = match self.links.remove(&link.0) {
            Some(LinkState::Up(u)) => u,
            // A dialled link that died before it was ever a session has not
            // proved the device unreachable, only this way in; carry on down
            // the route list rather than leaving the alternatives untried.
            Some(LinkState::Handshaking(h)) => {
                let h = *h;
                // Gives back the pairing slot: completing the handshake is
                // what parks a link in `Pending`, so one still handshaking
                // can never be the one awaiting confirmation. No cooldown,
                // since a refusal here isn't abuse.
                if h.pairing_flow {
                    self.pairing = None;
                }
                match h.fallback {
                    Some(pending) => {
                        self.try_next_route(
                            now_ms,
                            pending,
                            "connection closed before session was established",
                            out,
                        );
                    },
                    None => {},
                }
                return;
            },
            // Deliberately left alone: the two ends approve at different
            // moments, and closing here would cancel the second confirmation
            // the instant the first person pressed a button. The deadline
            // handles a peer that really did go away.
            Some(LinkState::Pending(_)) => {
                return;
            },
            None => {
                assert(self@.links =~= start.links);
                return;
            },
        };
        // Losing a link is not losing a device: a peer reachable two ways must
        // not be announced unreachable, or lose its plugin state, just because
        // one route died.
        if self.best_link(&u.peer).is_some() {
            // Still here, but possibly not over what it was; said rather than
            // left silent, since a host showing which transport carries it
            // would otherwise keep showing the one that just died.
            let name = self.name_of(&u.peer);
            out.ui(UiEvent::PeerReachable { peer: u.peer.clone(), name });
            return;
        }
        out.ui(UiEvent::PeerUnreachable { peer: u.peer.clone() });
        // Arms an immediate retry rather than dialling directly, so the
        // takeover still goes through the one path that knows about routes
        // already in flight; waiting for the next heartbeat would add its
        // whole interval to every radio switch.
        self.reconnect_at = Some(0);
        let ghost mid = self@;
        let ghost mid_out = out@;
        self.tell_all(now_ms, Round::Disconnected(&u.peer), out);
    }
}

/// What is said of itself does not rest on what else a core remembers.
proof fn hello_is_the_same<W: Wire>(
    a: State<W>,
    b: State<W>,
    hs: Handshake,
    kind: FrameKind,
    msg: Seq<u8>,
    after: Handshake,
)
    requires
        a.wire == b.wire,
        a.hello() == b.hello(),
        a.says_hello(hs, kind, msg, after),
    ensures
        b.says_hello(hs, kind, msg, after),
{
    let payload = choose|payload: Seq<u8>|
        #[trigger] hello_written(a.wire, a.hello(), payload) && a.says(
            hs,
            kind,
            payload,
            msg,
            after,
        );
    let raw = choose|raw: Seq<u8>|
        #[trigger] hs.has_written(payload, raw, after) && joins(a.wire, kind, raw, msg);
    assert(b.says(hs, kind, payload, msg, after));
}

/// Nor does what may come of opening a session.
proof fn same_said<W: Wire>(a: State<W>, b: State<W>, peer: Seq<char>, said: Said)
    requires
        a.wire == b.wire,
        a.hello() == b.hello(),
        a.own_secret == b.own_secret,
        a.peers == b.peers,
        a.session_said(peer, said),
    ensures
        b.session_said(peer, said),
{
    let r = a.peers[peer].record;
    let first = choose|first: Handshake|
        #[trigger] first.starts(
            Mode::Session,
            a.own_secret,
            r.session_psk,
            Some(r.public_key),
            true,
        ) && match said {
            Said::Message(msg, hs) => a.says_hello(first, FrameKind::SessionHandshake, msg, hs),
            Said::Failed(words) => a.keeps_hello(first, words),
        };
    match said {
        Said::Message(msg, hs) => {
            hello_is_the_same(a, b, first, FrameKind::SessionHandshake, msg, hs);
        },
        Said::Failed(words) => {
            assert(b.keeps_hello(first, words));
        },
    }
}

/// A plugin that was found stays found.
proof fn handler_stays(list: Seq<crate::plugin::ManifestView>, cap: Seq<char>, i: int, n: int)
    requires
        i <= n,
        handler(list, cap, i) is Some,
    ensures
        handler(list, cap, n) == handler(list, cap, i),
    decreases n - i,
{
    if i < n {
        handler_stays(list, cap, i, n - 1);
    }
}

} // verus!
