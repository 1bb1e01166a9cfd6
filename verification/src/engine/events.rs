//! What each event leads to.
use crate::engine::frames::{ends, handler, left, verdict, Opened, Opener, Turn};
use crate::engine::model::{error, ui, Greeted, Out, Said, State};
use crate::link::ReasonView;
use crate::plugin::{FaultView, Told};
use crate::table::ascending;
use crate::vocab::{
    ActionView, DialToken, Event, LocalCommand, ResultView, Sensitivity, UiView,
};
use crate::wire::{ErrorCode, FrameKind, Wire};
use vstd::prelude::*;

verus! {

impl<W: Wire> State<W> {
    /// Whether `s2` and `out2` follow from closing some links one after the
    /// other, each of which then goes down like any other.
    pub open spec fn closed_down(
        self,
        now: u64,
        links: Seq<u64>,
        reason: ReasonView,
        out: Out,
        s2: State<W>,
        out2: Out,
    ) -> bool {
        exists|trace: Seq<(State<W>, Out)>|
            #[trigger] close_trace(now, links, reason, trace) && trace[0] == (self, out)
                && trace[links.len() as int] == (s2, out2)
    }

    /// Whether `s2` and `out2` follow from closing one link.
    pub open spec fn closed_one(
        self,
        now: u64,
        link: u64,
        reason: ReasonView,
        out: Out,
        s2: State<W>,
        out2: Out,
    ) -> bool {
        let (s, o, gone) = self.link_down(
            now,
            link,
            out.push(ActionView::Close { link, reason }),
        );
        ends(s, o, left(gone), now, s2, out2)
    }

    /// A peer is forgotten: its record goes before anything else.
    pub open spec fn without_peer(self, peer: Seq<char>) -> State<W> {
        State {
            peers: self.peers.remove(peer),
            addrs: self.addrs.remove(peer),
            dial_trouble: self.dial_trouble.remove(peer),
            ..self
        }
    }

    /// Whether `s2` and `out2` follow from forgetting a peer.
    pub open spec fn revoked(
        self,
        now: u64,
        peer: Seq<char>,
        out: Out,
        s2: State<W>,
        out2: Out,
    ) -> bool {
        let s = self.without_peer(peer);
        let list = s.links_to(peer);
        exists|o: Out|
            #![trigger s.closed_down(now, list, ReasonView::Protocol(ErrorCode::NotPaired), unkeep(peer, out), s2, o)]
            s.closed_down(
                now,
                list,
                ReasonView::Protocol(ErrorCode::NotPaired),
                unkeep(peer, out),
                s2,
                o,
            ) && out2 == if self.peers.dom().contains(peer) {
                s2.announce(self.peers[peer].fingerprint, ui(o, UiView::Revoked { peer }))
            } else {
                ui(o, UiView::Revoked { peer })
            }
    }

    /// Whether `s2` and `out2` follow from handing a plugin something local.
    pub open spec fn plugin_command(
        self,
        now: u64,
        peer: Seq<char>,
        cap: Seq<char>,
        ty: Seq<char>,
        body: Seq<u8>,
        out: Out,
        s2: State<W>,
        out2: Out,
    ) -> bool {
        let told = Told::Local { peer, ty, body };
        let bulk = self.bulk_for(peer);
        match handler(self.manifests, cap, self.manifests.len() as int) {
            None => (s2, out2) == (
                self,
                error(out, Some(peer), ErrorCode::UnknownType, "no plugin handles "@ + cap),
            ),
            Some(idx) => exists|fault: Option<FaultView>, o: Out|
                #![trigger self.told_one(now, idx, told, bulk, verdict(fault), out, s2, o), complained(fault, peer, o)]
                self.told_one(now, idx, told, bulk, verdict(fault), out, s2, o) && out2
                    == complained(fault, peer, o),
        }
    }

    /// Whether `s2` and `out2` follow from something a person asked for.
    pub open spec fn commanded(
        self,
        now: u64,
        cmd: LocalCommand,
        out: Out,
        s2: State<W>,
        out2: Out,
    ) -> bool {
        match cmd {
            LocalCommand::RequestPairing { transport, addr } => (s2, out2) == self.request_pairing(
                now,
                transport.0,
                addr@,
                out,
            ),
            LocalCommand::ConfirmPairing { accept } => (s2, out2) == self.confirm_pairing(
                now,
                accept,
                out,
            ),
            LocalCommand::SetPeerAddress { peer, transport, addr } => (s2, out2)
                == self.set_peer_address(peer@, transport.0, addr@, out),
            LocalCommand::ForgetPeerAddress { peer, transport, addr } => (s2, out2) == (
                self.forget_peer_address(peer@, transport.0, addr@),
                out,
            ),
            LocalCommand::Connect { peer } => (s2, out2) == self.connect_peer(
                now,
                peer@,
                true,
                out,
            ),
            LocalCommand::ReconsiderRoutes => {
                let list = ascending::<String>(self.peers.dom());
                (s2, out2) == self.connect_all(now, list, list.len() as int, out)
            },
            LocalCommand::Disconnect { peer } => {
                let list = self.links_to(peer@);
                self.closed_down(
                    now,
                    list,
                    ReasonView::Closed,
                    out,
                    s2,
                    out2,
                )
            },
            LocalCommand::Revoke { peer } => self.revoked(now, peer@, out, s2, out2),
            LocalCommand::Plugin { peer, cap, ty, body } => self.plugin_command(
                now,
                peer@,
                cap@,
                ty@,
                body@,
                out,
                s2,
                out2,
            ),
        }
    }

    /// Whether `s2` and `out2` follow from telling the owner of a transfer
    /// something; a transfer nobody owns has nobody to tell.
    pub open spec fn owner_told(
        self,
        now: u64,
        transfer: u64,
        told: Told,
        out: Out,
        s2: State<W>,
        out2: Out,
    ) -> bool {
        if self.bulk_owner.dom().contains(transfer) {
            self.told_one(now, self.bulk_owner[transfer], told, None, Ok(()), out, s2, out2)
        } else {
            (s2, out2) == (self, out)
        }
    }

    /// Whether `s2` and `out2` follow from the end of a transfer.
    pub open spec fn bulk_finished(
        self,
        now: u64,
        transfer: u64,
        ok: bool,
        detail: Seq<char>,
        out: Out,
        s2: State<W>,
        out2: Out,
    ) -> bool {
        let told = Told::Finished { transfer, ok, detail };
        exists|mid: State<W>|
            #![trigger self.owner_told(now, transfer, told, out, mid, out2)]
            self.owner_told(now, transfer, told, out, mid, out2) && s2 == (State {
                bulk_owner: mid.bulk_owner.remove(transfer),
                bulk_wait: mid.bulk_wait.remove(transfer),
                ..mid
            })
    }

    /// Whether `s2` and `out2` follow from the answer to an effect.
    pub open spec fn effect_done(
        self,
        now: u64,
        token: u64,
        result: ResultView,
        out: Out,
        s2: State<W>,
        out2: Out,
    ) -> bool {
        if self.effect_owner.dom().contains(token) {
            State { effect_owner: self.effect_owner.remove(token), ..self }.told_one(
                now,
                self.effect_owner[token],
                Told::Answer { token, result },
                None,
                Ok(()),
                out,
                s2,
                out2,
            )
        } else {
            (s2, out2) == (self, out)
        }
    }

    /// The transfers whose sender never connected, in order.
    pub open spec fn overdue(self, now: u64) -> Seq<u64> {
        ascending::<u64>(self.bulk_wait.dom()).filter(|t: u64| now >= self.bulk_wait[t])
    }

    /// Whether `s2` and `out2` follow from giving up on one transfer: the host
    /// is told first, then the plugin.
    pub open spec fn gave_up(
        self,
        now: u64,
        transfer: u64,
        out: Out,
        s2: State<W>,
        out2: Out,
    ) -> bool {
        let s = State { bulk_wait: self.bulk_wait.remove(transfer), ..self };
        let told = Told::Finished { transfer, ok: false, detail: "the sender never connected"@ };
        exists|mid: State<W>|
            #![trigger s.owner_told(now, transfer, told, out.push(ActionView::BulkCancel { transfer }), mid, out2)]
            s.owner_told(
                now,
                transfer,
                told,
                out.push(ActionView::BulkCancel { transfer }),
                mid,
                out2,
            ) && s2 == (State { bulk_owner: mid.bulk_owner.remove(transfer), ..mid })
    }

    /// Whether `s2` and `out2` follow from giving up on some transfers one after
    /// the other.
    pub open spec fn gave_up_all(
        self,
        now: u64,
        list: Seq<u64>,
        out: Out,
        s2: State<W>,
        out2: Out,
    ) -> bool {
        exists|trace: Seq<(State<W>, Out)>|
            #[trigger] give_up_trace(now, list, trace) && trace[0] == (self, out)
                && trace[list.len() as int] == (s2, out2)
    }

    /// Links that have had their time go, then dials nobody answered, and then
    /// what nothing reaches is dialled again.
    pub open spec fn tidy(self, now: u64, out: Out) -> (State<W>, Out) {
        let stale = self.stale_links(now);
        let (s, out) = self.drop_all_stale(now, stale, stale.len() as int, out);
        let expired = s.expired_dials(now);
        let (s, out) = s.expire_all(now, expired, expired.len() as int, out);
        s.reconnect(now, out)
    }

    /// Whether `s2` and `out2` follow from waking the plugins, if it is time.
    pub open spec fn woke(self, now: u64, out: Out, s2: State<W>, out2: Out) -> bool {
        if self.plugin_wake is Some && now >= self.plugin_wake->Some_0 {
            State { plugin_wake: None, ..self }.told_all(now, Told::Tick, out, s2, out2)
        } else {
            (s2, out2) == (self, out)
        }
    }

    /// Whether `s2` and `out2` follow from the timer.
    pub open spec fn ticked(self, now: u64, out: Out, s2: State<W>, out2: Out) -> bool {
        let (s, o) = self.lapse_pairing(now, out);
        let list = s.overdue(now);
        exists|mid: State<W>, o2: Out|
            #![trigger s.gave_up_all(now, list, o, mid, o2)]
            s.gave_up_all(now, list, o, mid, o2) && {
                let (t, o3) = mid.tidy(now, o2);
                t.woke(now, o3, s2, out2)
            }
    }

    /// Whether `s2` and `out2` follow from an event. The wall clock has already
    /// been noted.
    pub open spec fn handled(self, now: u64, ev: Event, s2: State<W>, out2: Out) -> bool {
        let out: Out = Seq::empty();
        match ev {
            Event::LinkUp { link, attrs, dial } => exists|said: Said|
                (s2, out2) == #[trigger] self.link_up(
                    now,
                    link.0,
                    attrs,
                    token_of(dial),
                    said,
                    out,
                ) && self.said_fits(token_of(dial), said),
            Event::LinkRecv { link, msg } => exists|
                frame: Option<(FrameKind, Seq<u8>)>,
                greeted: Greeted,
                opener: Opener,
                turn: Turn,
                opened: Opened,
            | #[trigger]
                self.received(
                    now,
                    link.0,
                    msg@,
                    frame,
                    greeted,
                    opener,
                    turn,
                    opened,
                    out,
                    s2,
                    out2,
                ),
            Event::LinkDown { link, reason } => {
                let (s, o, gone) = self.link_down(now, link.0, out);
                ends(s, o, left(gone), now, s2, out2)
            },
            Event::DialFailed { dial, reason } => (s2, out2) == self.dial_failed(
                now,
                dial.0,
                reason@,
                out,
            ),
            Event::Discovered { transport, peer } => (s2, out2) == self.discovered(
                now,
                transport.0,
                match peer.fingerprint {
                    Some(fp) => Some(fp@),
                    None => None,
                },
                peer.name@,
                peer.addr@,
                peer.pairing,
                out,
            ),
            Event::Undiscovered { transport, addr } => (s2, out2) == self.undiscovered(
                transport.0,
                addr@,
                out,
            ),
            Event::Tick => self.ticked(now, out, s2, out2),
            Event::BulkListening { transfer, endpoint } => self.owner_told(
                now,
                transfer.0,
                Told::Listening { transfer: transfer.0, endpoint: endpoint@ },
                out,
                s2,
                out2,
            ),
            Event::BulkStarted { transfer } => (s2, out2) == (
                State { bulk_wait: self.bulk_wait.remove(transfer.0), ..self },
                out,
            ),
            Event::BulkFinished { transfer, ok, detail } => self.bulk_finished(
                now,
                transfer.0,
                ok,
                detail@,
                out,
                s2,
                out2,
            ),
            Event::Local(cmd) => self.commanded(now, cmd, out, s2, out2),
            Event::EffectDone { token, result } => self.effect_done(
                now,
                token.0,
                result@,
                out,
                s2,
                out2,
            ),
        }
    }
}

/// The line that takes a kept record away.
pub open spec fn unkeep(peer: Seq<char>, out: Out) -> Out {
    out.push(
        ActionView::Persist {
            key: "peer/"@ + peer,
            value: None,
            sensitivity: Sensitivity::Secret,
        },
    )
}

/// The states passed through while some links are closed.
pub open spec fn close_trace<W: Wire>(
    now: u64,
    links: Seq<u64>,
    reason: ReasonView,
    trace: Seq<(State<W>, Out)>,
) -> bool {
    &&& trace.len() == links.len() + 1
    &&& forall|i: int|
        0 <= i < links.len() ==> (#[trigger] trace[i]).0.closed_one(
            now,
            links[i],
            reason,
            trace[i].1,
            trace[i + 1].0,
            trace[i + 1].1,
        )
}

/// The states passed through while some transfers are given up.
pub open spec fn give_up_trace<W: Wire>(
    now: u64,
    list: Seq<u64>,
    trace: Seq<(State<W>, Out)>,
) -> bool {
    &&& trace.len() == list.len() + 1
    &&& forall|i: int|
        0 <= i < list.len() ==> (#[trigger] trace[i]).0.gave_up(
            now,
            list[i],
            trace[i].1,
            trace[i + 1].0,
            trace[i + 1].1,
        )
}

/// The number of a dial, if there was one.
pub open spec fn token_of(dial: Option<DialToken>) -> Option<u64> {
    match dial {
        Some(d) => Some(d.0),
        None => None,
    }
}

/// The complaint of a plugin that refused something local.
pub open spec fn complained(fault: Option<FaultView>, peer: Seq<char>, out: Out) -> Out {
    match fault {
        None => out,
        Some(f) => error(out, Some(peer), f.code(), f.message()),
    }
}

} // verus!
