//! Events, local commands and the timer.
use crate::engine::events::{close_trace, complained, give_up_trace, unkeep};
use crate::engine::frames::verdict;
use crate::engine::laws::{soundness_is_kept, steady};
use crate::engine::model::{best, carries, link_deadline, Out, State};
use crate::engine::telling::{News, Round};
use crate::engine::{Core, LinkState};
use crate::ids::DeviceId;
use crate::link::{LinkDownReason, LinkId, ReasonView};
use crate::plugin::{answer, Told};
use crate::table::ascending;
use crate::text::join2;
use crate::vocab::{
    Action, ActionView, EffectResult, EffectToken, Event, LocalCommand, Now, Outcome, Sensitivity,
    TransferId, UiEvent,
};
use crate::wire::{ErrorCode, Wire};
use vstd::prelude::*;

verus! {

impl<W: Wire> Core<W> {
    /// The single entry point. `now` must leave room on the clock for the
    /// configured timeouts.
    pub fn handle(&mut self, now: Now, ev: Event) -> (out: Outcome)
        requires
            old(self)@.clock_fits(now.monotonic_ms),
        ensures
            (State { wall_ms: now.wall_ms, ..old(self)@ }).handled(
                now.monotonic_ms,
                ev,
                final(self)@,
                out@,
            ),
            final(self)@.is_next_deadline(out.next_deadline_ms),
            old(self)@.sound() ==> final(self)@.sound() && steady(old(self)@, final(self)@),
    {
        // Everything below is monotonic; the wall clock is stashed for `Now`.
        self.wall_ms = now.wall_ms;
        let now_ms: u64 = now.monotonic_ms;
        let mut out = Outcome::new();
        let ghost start = self@;
        let ghost event = ev;
        match ev {
            Event::LinkUp { link, attrs, dial } => {
                let _ = self.on_link_up(now_ms, link, attrs, dial, &mut out);
            },
            Event::LinkRecv { link, msg } => {
                self.on_link_recv(now_ms, link, &msg, &mut out);
            },
            Event::LinkDown { link, .. } => {
                self.on_link_down(now_ms, link, &mut out);
            },
            Event::DialFailed { dial, reason } => {
                self.on_dial_failed(now_ms, dial, reason, &mut out);
            },
            Event::Discovered { transport, peer } => {
                self.on_discovered(now_ms, transport, peer, &mut out);
            },
            Event::Undiscovered { transport, addr } => {
                self.on_undiscovered(transport, addr.as_str(), &mut out);
            },
            Event::BulkListening { transfer, endpoint } => {
                self.dispatch_to_transfer_owner(
                    now_ms,
                    transfer,
                    News::Listening(transfer, endpoint.as_str()),
                    &mut out,
                );
            },
            // Bytes are moving; nothing left to time out.
            Event::BulkStarted { transfer } => {
                let _ = self.bulk_wait.remove(&transfer.0);
            },
            Event::BulkFinished { transfer, ok, detail } => {
                self.dispatch_to_transfer_owner(
                    now_ms,
                    transfer,
                    News::Finished(transfer, ok, detail.as_str()),
                    &mut out,
                );
                let ghost mid = self@;
                assert(start.owner_told(
                    now_ms,
                    transfer.0,
                    (Told::Finished { transfer: transfer.0, ok, detail: detail@ }),
                    Seq::empty(),
                    mid,
                    out@,
                ));
                let _ = self.bulk_owner.remove(&transfer.0);
                let _ = self.bulk_wait.remove(&transfer.0);
            },
            Event::Tick => {
                self.on_tick(now_ms, &mut out);
            },
            Event::Local(cmd) => {
                self.on_local(now_ms, cmd, &mut out);
            },
            Event::EffectDone { token, result } => {
                self.on_effect_done(now_ms, token, &result, &mut out);
            },
        }
        let ghost done = out@;
        out.next_deadline_ms = self.next_deadline();
        assert(out@ == done);
        proof {
            if start.sound() {
                soundness_is_kept(start, now_ms, event, self@, out@);
            }
        }
        out
    }

    /// The moment the host has to wake the core: the first of those due.
    fn next_deadline(&self) -> (r: Option<u64>)
        ensures
            self@.is_next_deadline(r),
    {
        let mut first: Option<u64> = self.plugin_wake;
        match self.reconnect_at {
            Some(d) => {
                first = Some(earlier(first, d));
            },
            None => {},
        }
        match &self.pairing {
            Some(w) => {
                first = Some(earlier(first, w.deadline));
            },
            None => {},
        }
        let ghost base = first;
        let n = self.pending_peer_dials.len();
        let ghost dials = self.pending_peer_dials.keys();
        for i in 0..n
            invariant
                dials == self.pending_peer_dials.keys(),
                n == dials.len(),
                first matches Some(f) ==> self@.due(f),
                no_later(first, base),
                forall|k: int|
                    0 <= k < i ==> no_later(first, Some(self@.peer_dials[#[trigger] dials[k]].0)),
        {
            let d: u64 = self.pending_peer_dials.value_at(i).0;
            assert(self@.peer_dials.dom().contains(dials[i as int]));
            first = Some(earlier(first, d));
        }
        let m = self.bulk_wait.len();
        let ghost waits = self.bulk_wait.keys();
        let ghost base2 = first;
        for i in 0..m
            invariant
                waits == self.bulk_wait.keys(),
                m == waits.len(),
                first matches Some(f) ==> self@.due(f),
                no_later(first, base2),
                forall|k: int|
                    0 <= k < i ==> no_later(first, Some(self@.bulk_wait[#[trigger] waits[k]])),
        {
            let d: u64 = *self.bulk_wait.value_at(i);
            assert(self@.bulk_wait.dom().contains(waits[i as int]));
            first = Some(earlier(first, d));
        }
        let l = self.links.len();
        let ghost links = self.links.keys();
        let ghost base3 = first;
        for i in 0..l
            invariant
                links == self.links.keys(),
                l == links.len(),
                first matches Some(f) ==> self@.due(f),
                no_later(first, base3),
                forall|k: int|
                    0 <= k < i ==> no_later(
                        first,
                        link_deadline(self@.links[#[trigger] links[k]]),
                    ),
        {
            let due: Option<u64> = match self.links.value_at(i) {
                LinkState::Pending(p) => Some(p.deadline),
                LinkState::Handshaking(h) => Some(h.deadline),
                LinkState::Up(_) => None,
            };
            assert(self@.links.dom().contains(links[i as int]));
            match due {
                Some(d) => {
                    first = Some(earlier(first, d));
                },
                None => {},
            }
        }
        proof {
            assert forall|x: u64| #[trigger] self@.due(x) implies no_later(first, Some(x)) by {
                if exists|k: u64| #[trigger]
                    self@.peer_dials.dom().contains(k) && self@.peer_dials[k].0 == x {
                    let k = choose|k: u64| #[trigger]
                        self@.peer_dials.dom().contains(k) && self@.peer_dials[k].0 == x;
                    assert(dials.to_set().contains(k));
                    let i = choose|i: int| 0 <= i < dials.len() && dials[i] == k;
                    assert(no_later(base2, Some(self@.peer_dials[dials[i]].0)));
                }
                if exists|k: u64| #[trigger]
                    self@.bulk_wait.dom().contains(k) && self@.bulk_wait[k] == x {
                    let k = choose|k: u64| #[trigger]
                        self@.bulk_wait.dom().contains(k) && self@.bulk_wait[k] == x;
                    assert(waits.to_set().contains(k));
                    let i = choose|i: int| 0 <= i < waits.len() && waits[i] == k;
                    assert(no_later(base3, Some(self@.bulk_wait[waits[i]])));
                }
                if exists|k: u64| #[trigger]
                    self@.links.dom().contains(k) && link_deadline(self@.links[k]) == Some(x) {
                    let k = choose|k: u64| #[trigger]
                        self@.links.dom().contains(k) && link_deadline(self@.links[k]) == Some(x);
                    assert(links.to_set().contains(k));
                    let i = choose|i: int| 0 <= i < links.len() && links[i] == k;
                    assert(no_later(first, link_deadline(self@.links[links[i]])));
                }
            }
        }
        first
    }

    /// Hand something to the plugin that owns a transfer; one nobody owns has
    /// already finished, or was invented, so there is nothing to tell.
    fn dispatch_to_transfer_owner(
        &mut self,
        now_ms: u64,
        transfer: TransferId,
        news: News,
        out: &mut Outcome,
    )
        requires
            old(self)@.clock_fits(now_ms),
            news is Listening || news is Finished,
        ensures
            old(self)@.owner_told(
                now_ms,
                transfer.0,
                news.told(),
                old(out)@,
                final(self)@,
                final(out)@,
            ),
            final(self)@.clock_fits(now_ms),
    {
        let idx: usize = match self.bulk_owner.get(&transfer.0) {
            Some(i) => *i,
            None => {
                return;
            },
        };
        let _ = self.tell_one(now_ms, idx, news, None, out);
    }

    fn on_effect_done(
        &mut self,
        now_ms: u64,
        token: EffectToken,
        result: &EffectResult,
        out: &mut Outcome,
    )
        requires
            old(self)@.clock_fits(now_ms),
        ensures
            old(self)@.effect_done(
                now_ms,
                token.0,
                result@,
                old(out)@,
                final(self)@,
                final(out)@,
            ),
            final(self)@.clock_fits(now_ms),
    {
        let ghost first = self@;
        let idx: usize = match self.effect_owner.remove(&token.0) {
            Some(i) => i,
            None => {
                assert(self@.effect_owner =~= first.effect_owner);
                return;
            },
        };
        let _ = self.tell_one(now_ms, idx, News::Answer(token, result), None, out);
    }

    /// The established links to a peer, in order.
    fn links_to(&self, peer: &DeviceId) -> (r: Vec<u64>)
        ensures
            r@ == self@.links_to(peer@),
    {
        let ghost want = |l: u64| carries(self@.links, l, peer@);
        let ghost keys = ascending::<u64>(self@.links.dom());
        let mut out: Vec<u64> = Vec::new();
        let n = self.links.len();
        proof {
            reveal(Seq::filter);
            assert(keys.take(0) =~= Seq::empty());
            assert(out@ =~= keys.take(0).filter(want));
        }
        for i in 0..n
            invariant
                keys == self.links.keys(),
                n == keys.len(),
                want == (|l: u64| carries(self@.links, l, peer@)),
                out@ == keys.take(i as int).filter(want),
        {
            proof {
                reveal(Seq::filter);
                assert(keys.take(i + 1).drop_last() =~= keys.take(i as int));
            }
            let l: u64 = *self.links.key_at(i);
            match self.links.value_at(i) {
                LinkState::Up(u) => {
                    if u.peer.is(peer) {
                        out.push(l);
                    }
                },
                _ => {},
            }
        }
        assert(keys.take(keys.len() as int) =~= keys);
        out
    }

    /// Closes some links, each of which then goes down like any other.
    fn close_down(
        &mut self,
        now_ms: u64,
        links: &Vec<u64>,
        reason: LinkDownReason,
        out: &mut Outcome,
    )
        requires
            old(self)@.clock_fits(now_ms),
        ensures
            old(self)@.closed_down(
                now_ms,
                links@,
                reason@,
                old(out)@,
                final(self)@,
                final(out)@,
            ),
            final(self)@.clock_fits(now_ms),
    {
        let ghost mut trace: Seq<(State<W>, Out)> = seq![(self@, out@)];
        for i in 0..links.len()
            invariant
                self@.clock_fits(now_ms),
                close_trace(now_ms, links@.take(i as int), reason@, trace),
                trace[0] == (old(self)@, old(out)@),
                trace[i as int] == (self@, out@),
        {
            let ghost mid = self@;
            let ghost mid_out = out@;
            let l: u64 = links[i];
            out.push(Action::Close { link: LinkId(l), reason: reason.clone() });
            self.on_link_down(now_ms, LinkId(l), out);
            proof {
                assert(mid.closed_one(now_ms, l, reason@, mid_out, self@, out@));
                let longer = trace.push((self@, out@));
                let done = links@.take(i + 1);
                assert forall|k: int| 0 <= k < done.len() implies (#[trigger] longer[k]).0.closed_one(
                    now_ms,
                    done[k],
                    reason@,
                    longer[k].1,
                    longer[k + 1].0,
                    longer[k + 1].1,
                ) by {
                    if k < i {
                        assert(longer[k] == trace[k]);
                        assert(longer[k + 1] == trace[k + 1]);
                        assert(links@.take(i as int)[k] == done[k]);
                    }
                }
                trace = longer;
            }
        }
        assert(links@.take(links@.len() as int) =~= links@);
    }

    fn handle_revoke(&mut self, now_ms: u64, peer: &DeviceId, out: &mut Outcome)
        requires
            old(self)@.clock_fits(now_ms),
        ensures
            old(self)@.revoked(now_ms, peer@, old(out)@, final(self)@, final(out)@),
            final(self)@.clock_fits(now_ms),
    {
        // Kept before the record goes: `announce` below needs it to find the
        // machine in `seen`, and by then there is nothing left to ask.
        let fingerprint = match self.peers.get(&peer.text()) {
            Some(k) => Some(k.fingerprint.clone()),
            None => None,
        };
        // Drop the record first, so a race cannot leave a live session against a
        // peer we have decided to forget.
        let _ = self.peers.remove(&peer.text());
        let _ = self.addrs.remove(&peer.text());
        let _ = self.dial_trouble.remove(&peer.text());
        out.push(
            Action::Persist {
                key: join2("peer/", peer.as_str()),
                value: None,
                sensitivity: Sensitivity::Secret,
            },
        );
        let ghost gone = self@;
        let links = self.links_to(peer);
        self.close_down(now_ms, &links, LinkDownReason::Protocol(ErrorCode::NotPaired), out);
        let ghost o = out@;
        proof {
            let list = gone.links_to(peer@);
            assert(gone == old(self)@.without_peer(peer@));
            assert(gone.closed_down(
                now_ms,
                list,
                ReasonView::Protocol(ErrorCode::NotPaired),
                unkeep(peer@, old(out)@),
                self@,
                o,
            ));
        }
        // Said out loud, so a screen can stop drawing it without guessing
        // when the core got round to this.
        out.ui(UiEvent::Revoked { peer: peer.clone() });
        // Offer it again: discovery resolves once and stays quiet, so without
        // this a still-present machine would never be mentioned again.
        match fingerprint {
            Some(fp) => {
                self.announce(&fp, out);
            },
            None => {},
        }
    }

    /// Hands a plugin something a person asked for.
    fn on_plugin_command(
        &mut self,
        now_ms: u64,
        peer: &DeviceId,
        cap: &str,
        ty: &str,
        body: &[u8],
        out: &mut Outcome,
    )
        requires
            old(self)@.clock_fits(now_ms),
        ensures
            old(self)@.plugin_command(
                now_ms,
                peer@,
                cap@,
                ty@,
                body@,
                old(out)@,
                final(self)@,
                final(out)@,
            ),
            final(self)@.clock_fits(now_ms),
    {
        let idx: usize = match self.plugin_for(cap) {
            Some(i) => i,
            None => {
                out.ui(
                    UiEvent::Error {
                        peer: Some(peer.clone()),
                        code: ErrorCode::UnknownType,
                        detail: join2("no plugin handles ", cap),
                    },
                );
                return;
            },
        };
        let bulk = self.bulk_support_for(peer);
        let r = self.tell_one(now_ms, idx, News::Local(peer, ty, body), bulk, out);
        let ghost o = out@;
        match r {
            Ok(()) => {
                assert(answer(r) == verdict(None));
                assert(out@ == complained(None, peer@, o));
            },
            Err(e) => {
                out.ui(
                    UiEvent::Error {
                        peer: Some(peer.clone()),
                        code: e.code(),
                        detail: e.message(),
                    },
                );
                assert(answer(r) == verdict(Some(e@)));
                assert(out@ == complained(Some(e@), peer@, o));
            },
        }
    }

    fn on_local(&mut self, now_ms: u64, cmd: LocalCommand, out: &mut Outcome)
        requires
            old(self)@.clock_fits(now_ms),
        ensures
            old(self)@.commanded(now_ms, cmd, old(out)@, final(self)@, final(out)@),
    {
        match cmd {
            LocalCommand::RequestPairing { transport, addr } => {
                self.request_pairing(now_ms, transport, addr, out);
            },
            LocalCommand::ConfirmPairing { accept } => {
                self.confirm_pairing(now_ms, accept, out);
            },
            LocalCommand::ForgetPeerAddress { peer, transport, addr } => {
                self.forget_peer_address(&peer, transport, addr.as_str());
            },
            LocalCommand::SetPeerAddress { peer, transport, addr } => {
                self.set_peer_address(&peer, transport, addr, out);
            },
            LocalCommand::Connect { peer } => {
                self.connect_peer(now_ms, peer, out, true);
            },
            LocalCommand::ReconsiderRoutes => {
                // Not `by_hand`: nobody pressed anything, and only the
                // automatic path may improve on a route already carrying.
                let known = self.peer_ids();
                assert(crate::text::texts(known@).len() == known@.len());
                self.connect_all(now_ms, &known, out);
            },
            LocalCommand::Disconnect { peer } => {
                let links = self.links_to(&peer);
                self.close_down(now_ms, &links, LinkDownReason::Closed, out);
            },
            LocalCommand::Revoke { peer } => {
                self.handle_revoke(now_ms, &peer, out);
            },
            LocalCommand::Plugin { peer, cap, ty, body } => {
                self.on_plugin_command(now_ms, &peer, cap.as_str(), ty.as_str(), &body, out);
            },
        }
    }

    /// The transfers whose sender never connected, in order.
    fn overdue(&self, now_ms: u64) -> (r: Vec<u64>)
        ensures
            r@ == self@.overdue(now_ms),
    {
        let ghost want = |t: u64| now_ms >= self@.bulk_wait[t];
        let ghost keys = ascending::<u64>(self@.bulk_wait.dom());
        let mut out: Vec<u64> = Vec::new();
        let n = self.bulk_wait.len();
        proof {
            reveal(Seq::filter);
            assert(keys.take(0) =~= Seq::empty());
            assert(out@ =~= keys.take(0).filter(want));
        }
        for i in 0..n
            invariant
                keys == self.bulk_wait.keys(),
                n == keys.len(),
                want == (|t: u64| now_ms >= self@.bulk_wait[t]),
                out@ == keys.take(i as int).filter(want),
        {
            proof {
                reveal(Seq::filter);
                assert(keys.take(i + 1).drop_last() =~= keys.take(i as int));
            }
            if now_ms >= *self.bulk_wait.value_at(i) {
                out.push(*self.bulk_wait.key_at(i));
            }
        }
        assert(keys.take(keys.len() as int) =~= keys);
        out
    }

    /// Gives up on senders that were told where to connect and never did;
    /// `BulkStarted` has already taken out everything actually moving bytes.
    fn give_up_waits(&mut self, now_ms: u64, list: &Vec<u64>, out: &mut Outcome)
        requires
            old(self)@.clock_fits(now_ms),
        ensures
            old(self)@.gave_up_all(
                now_ms,
                list@,
                old(out)@,
                final(self)@,
                final(out)@,
            ),
            final(self)@.clock_fits(now_ms),
    {
        let ghost mut trace: Seq<(State<W>, Out)> = seq![(self@, out@)];
        for i in 0..list.len()
            invariant
                self@.clock_fits(now_ms),
                give_up_trace(now_ms, list@.take(i as int), trace),
                trace[0] == (old(self)@, old(out)@),
                trace[i as int] == (self@, out@),
        {
            let ghost mid = self@;
            let ghost mid_out = out@;
            let t: u64 = list[i];
            let transfer = TransferId(t);
            let _ = self.bulk_wait.remove(&t);
            let ghost s = self@;
            // Cancelled at the host first, so the port and the reserved
            // filename go back before anyone is told the transfer is over.
            out.push(Action::BulkCancel { transfer });
            let ghost o = out@;
            // Reported as a failure, like every other bulk ending: the plugin
            // unwinds, the person who accepted is told, the far end answered.
            self.dispatch_to_transfer_owner(
                now_ms,
                transfer,
                News::Finished(transfer, false, "the sender never connected"),
                out,
            );
            let ghost told = self@;
            assert(s.owner_told(
                now_ms,
                t,
                (Told::Finished {
                    transfer: t,
                    ok: false,
                    detail: "the sender never connected"@,
                }),
                mid_out.push(ActionView::BulkCancel { transfer: t }),
                told,
                out@,
            ));
            let _ = self.bulk_owner.remove(&t);
            proof {
                assert(mid.gave_up(now_ms, t, mid_out, self@, out@));
                let longer = trace.push((self@, out@));
                let done = list@.take(i + 1);
                assert forall|k: int| 0 <= k < done.len() implies (#[trigger] longer[k]).0.gave_up(
                    now_ms,
                    done[k],
                    longer[k].1,
                    longer[k + 1].0,
                    longer[k + 1].1,
                ) by {
                    if k < i {
                        assert(longer[k] == trace[k]);
                        assert(longer[k + 1] == trace[k + 1]);
                        assert(list@.take(i as int)[k] == done[k]);
                    }
                }
                trace = longer;
            }
        }
        assert(list@.take(list@.len() as int) =~= list@);
    }

    /// The links that have had their time, in order.
    fn stale_links(&self, now_ms: u64) -> (r: Vec<u64>)
        ensures
            r@ == self@.stale_links(now_ms),
    {
        let ghost want = |l: u64|
            (link_deadline(self@.links[l]) matches Some(d) && now_ms >= d);
        let ghost keys = ascending::<u64>(self@.links.dom());
        let mut out: Vec<u64> = Vec::new();
        let n = self.links.len();
        proof {
            reveal(Seq::filter);
            assert(keys.take(0) =~= Seq::empty());
            assert(out@ =~= keys.take(0).filter(want));
        }
        for i in 0..n
            invariant
                keys == self.links.keys(),
                n == keys.len(),
                want == (|l: u64|
                    (link_deadline(self@.links[l]) matches Some(d) && now_ms >= d)),
                out@ == keys.take(i as int).filter(want),
        {
            proof {
                reveal(Seq::filter);
                assert(keys.take(i + 1).drop_last() =~= keys.take(i as int));
            }
            let stale = match self.links.value_at(i) {
                LinkState::Pending(p) => now_ms >= p.deadline,
                LinkState::Handshaking(h) => now_ms >= h.deadline,
                LinkState::Up(_) => false,
            };
            if stale {
                out.push(*self.links.key_at(i));
            }
        }
        assert(keys.take(keys.len() as int) =~= keys);
        out
    }

    fn drop_stale(&mut self, now_ms: u64, links: &Vec<u64>, out: &mut Outcome)
        requires
            old(self)@.clock_fits(now_ms),
        ensures
            (final(self)@, final(out)@) == old(self)@.drop_all_stale(
                now_ms,
                links@,
                links@.len() as int,
                old(out)@,
            ),
            final(self)@.clock_fits(now_ms),
    {
        for i in 0..links.len()
            invariant
                self@.clock_fits(now_ms),
                (self@, out@) == old(self)@.drop_all_stale(
                    now_ms,
                    links@,
                    i as int,
                    old(out)@,
                ),
        {
            let l: u64 = links[i];
            let was = self.links.remove(&l);
            out.push(Action::Close { link: LinkId(l), reason: LinkDownReason::Closed });
            // A handshake that ran out of time has not proved the device
            // unreachable, only this way in; carry on down the route list.
            match was {
                Some(LinkState::Handshaking(h)) => {
                    let h = *h;
                    match h.fallback {
                        Some(pending) => {
                            self.try_next_route(
                                now_ms,
                                pending,
                                "got answer that cut off half way",
                                out,
                            );
                        },
                        None => {},
                    }
                },
                _ => {},
            }
        }
    }

    /// The dials nobody ever answered, in order.
    fn expired_dials(&self, now_ms: u64) -> (r: Vec<u64>)
        ensures
            r@ == self@.expired_dials(now_ms),
    {
        let ghost want = |d: u64| now_ms >= self@.peer_dials[d].0;
        let ghost keys = ascending::<u64>(self@.peer_dials.dom());
        let mut out: Vec<u64> = Vec::new();
        let n = self.pending_peer_dials.len();
        proof {
            reveal(Seq::filter);
            assert(keys.take(0) =~= Seq::empty());
            assert(out@ =~= keys.take(0).filter(want));
        }
        for i in 0..n
            invariant
                keys == self.pending_peer_dials.keys(),
                n == keys.len(),
                want == (|d: u64| now_ms >= self@.peer_dials[d].0),
                out@ == keys.take(i as int).filter(want),
        {
            proof {
                reveal(Seq::filter);
                assert(keys.take(i + 1).drop_last() =~= keys.take(i as int));
            }
            if now_ms >= self.pending_peer_dials.value_at(i).0 {
                out.push(*self.pending_peer_dials.key_at(i));
            }
        }
        assert(keys.take(keys.len() as int) =~= keys);
        out
    }

    /// Gives up on dials nobody ever answered: Network.framework does not always
    /// fail a dial with no viable path, so this bounds the wait independently
    /// of any host remembering to.
    fn expire_dials(&mut self, now_ms: u64, dials: &Vec<u64>, out: &mut Outcome)
        requires
            old(self)@.clock_fits(now_ms),
        ensures
            (final(self)@, final(out)@) == old(self)@.expire_all(
                now_ms,
                dials@,
                dials@.len() as int,
                old(out)@,
            ),
            final(self)@.clock_fits(now_ms),
    {
        for i in 0..dials.len()
            invariant
                self@.clock_fits(now_ms),
                (self@, out@) == old(self)@.expire_all(now_ms, dials@, i as int, old(out)@),
        {
            let ghost mid = self@;
            match self.pending_peer_dials.remove(&dials[i]) {
                Some((_, pending)) => {
                    self.try_next_route(now_ms, pending, "peer didn't answer", out);
                },
                None => {
                    assert(self@.peer_dials =~= mid.peer_dials);
                },
            }
        }
    }

    /// The peers with no link and somewhere to dial, in order.
    fn waiting(&self) -> (r: Vec<String>)
        ensures
            crate::text::texts(r@) == self@.waiting(),
    {
        let ghost want = |id: Seq<char>|
            best(self@.links, id) is None && self@.addrs.dom().contains(id);
        let ghost keys = ascending::<String>(self@.peers.dom());
        let mut out: Vec<String> = Vec::new();
        let n = self.peers.len();
        proof {
            reveal(Seq::filter);
            assert(keys.take(0) =~= Seq::empty());
            assert(crate::text::texts(out@) =~= keys.take(0).filter(want));
        }
        for i in 0..n
            invariant
                keys == self.peers.keys(),
                n == keys.len(),
                want == (|id: Seq<char>|
                    best(self@.links, id) is None && self@.addrs.dom().contains(id)),
                crate::text::texts(out@) == keys.take(i as int).filter(want),
        {
            proof {
                reveal(Seq::filter);
                assert(keys.take(i + 1).drop_last() =~= keys.take(i as int));
            }
            let id = DeviceId::new(self.peers.key_at(i).clone());
            if self.best_link(&id).is_none() && self.addrs.has(&id.text()) {
                let ghost before = out@;
                out.push(id.text());
                assert(crate::text::texts(out@) =~= crate::text::texts(before).push(id@));
            }
        }
        assert(keys.take(keys.len() as int) =~= keys);
        out
    }

    /// Retries peers with no live link: a sighting is not guaranteed to
    /// repeat (mDNS resolves once, CoreBluetooth re-reports at its own
    /// discretion), so nothing else would ever reconnect them.
    fn reconnect(&mut self, now_ms: u64, out: &mut Outcome)
        requires
            old(self)@.clock_fits(now_ms),
        ensures
            (final(self)@, final(out)@) == old(self)@.reconnect(now_ms, old(out)@),
            final(self)@.clock_fits(now_ms),
    {
        let due = match self.reconnect_at {
            Some(at) => now_ms >= at,
            None => true,
        };
        if due {
            self.reconnect_at = Some(now_ms + self.config.reconnect_every_ms);
            // Only where there is somewhere to dial, or this would storm a
            // machine that is simply off.
            let list = self.waiting();
            assert(crate::text::texts(list@).len() == list@.len());
            // Not `by_hand`: nobody asked, so a failure is state and not
            // news, and `connect_peer` drops it if a dial is already out.
            proof {
                connect_all_keeps_config(self@, now_ms, crate::text::texts(list@), list@.len() as int, out@);
            }
            self.connect_all(now_ms, &list, out);
        }
    }

    /// Wakes the plugins, if it is time.
    fn wake_plugins(&mut self, now_ms: u64, out: &mut Outcome)
        requires
            old(self)@.clock_fits(now_ms),
        ensures
            old(self)@.woke(now_ms, old(out)@, final(self)@, final(out)@),
            final(self)@.clock_fits(now_ms),
    {
        match self.plugin_wake {
            Some(w) => {
                if now_ms < w {
                    return;
                }
            },
            None => {
                return;
            },
        }
        self.plugin_wake = None;
        self.tell_all(now_ms, Round::Tick, out);
    }

    fn on_tick(&mut self, now_ms: u64, out: &mut Outcome)
        requires
            old(self)@.clock_fits(now_ms),
        ensures
            old(self)@.ticked(now_ms, old(out)@, final(self)@, final(out)@),
            final(self)@.clock_fits(now_ms),
    {
        self.lapse_pairing(now_ms, out);
        let overdue = self.overdue(now_ms);
        let ghost s = self@;
        let ghost o = out@;
        self.give_up_waits(now_ms, &overdue, out);
        let ghost mid = self@;
        let ghost o2 = out@;
        let stale = self.stale_links(now_ms);
        self.drop_stale(now_ms, &stale, out);
        let expired = self.expired_dials(now_ms);
        self.expire_dials(now_ms, &expired, out);
        self.reconnect(now_ms, out);
        assert((self@, out@) == mid.tidy(now_ms, o2));
        self.wake_plugins(now_ms, out);
    }
}

/// Dialling does not change the configuration.
proof fn connect_all_keeps_config<W: Wire>(
    s: State<W>,
    now: u64,
    peers: Seq<Seq<char>>,
    n: int,
    out: Out,
)
    ensures
        s.connect_all(now, peers, n, out).0.config == s.config,
    decreases n,
{
    if n > 0 {
        connect_all_keeps_config(s, now, peers, n - 1, out);
    }
}

/// The first moment is no later than the second, if there is a second.
spec fn no_later(a: Option<u64>, b: Option<u64>) -> bool {
    match b {
        Some(y) => a matches Some(x) && x <= y,
        None => true,
    }
}

/// The sooner of a moment, if there is one, and another.
fn earlier(a: Option<u64>, b: u64) -> (r: u64)
    ensures
        r == crate::plugin::sooner(a, b),
{
    match a {
        Some(x) => if x <= b {
            x
        } else {
            b
        },
        None => b,
    }
}

} // verus!
