//! Pairing: the slot, the digits, and what a person says to them.
use crate::engine::frames::FoundV;
use crate::engine::model::State;
use crate::engine::{
    opt_aim, Aim, AwaitingConfirm, Core, Known, LinkState, PairingWindow, PendingLink,
};
use crate::ids::{DeviceId, Fingerprint};
use crate::link::{LinkAttrs, LinkDownReason, LinkId, Routes, TransportId};
use crate::peer::PeerRecord;
use crate::vocab::{Action, DialToken, Outcome, UiEvent};
use crate::wire::{ErrorCode, Wire};
use vstd::prelude::*;

verus! {

/// Who a pairing handshake turned out to be with.
pub(crate) struct Found {
    pub(crate) id: DeviceId,
    pub(crate) fingerprint: Fingerprint,
    pub(crate) record: PeerRecord,
    pub(crate) sas: String,
}

impl Found {
    /// Whether this is the partner that a [`FoundV`] describes.
    pub(crate) open spec fn is(&self, f: FoundV) -> bool {
        &&& self.id@ == f.id
        &&& self.fingerprint@ == f.fingerprint
        &&& self.sas@ == f.sas
        &&& self.record@ == f.awaiting(0, None).record
    }
}

impl<W: Wire> Core<W> {
    pub(crate) fn request_pairing(
        &mut self,
        now_ms: u64,
        transport: TransportId,
        addr: String,
        out: &mut Outcome,
    )
        requires
            old(self)@.clock_fits(now_ms),
        ensures
            (final(self)@, final(out)@) == old(self)@.request_pairing(
                now_ms,
                transport.0,
                addr@,
                old(out)@,
            ),
    {
        // Claim the slot before dialling, so a stranger's handshake
        // cannot land while a person here is waiting on their own.
        match self.why_not_pair(now_ms) {
            Some(why) => {
                out.ui(UiEvent::PairingFailed { reason: why.to_owned() });
                return;
            },
            None => {},
        }
        self.begin_pairing(now_ms);
        self.next_dial = self.next_dial.wrapping_add(1);
        let d: u64 = self.next_dial;
        self.pending_pair_dials.insert(d, Aim { transport, addr: addr.clone() });
        out.push(Action::Dial { transport, addr, dial: DialToken(d) });
    }

    /// A pairing handshake that could not be completed. One strike: nothing is
    /// typed, so retrying cannot help, and the cooldown bounds the next try.
    pub(crate) fn pairing_attempt_failed(&mut self, now_ms: u64, link: LinkId, out: &mut Outcome)
        requires
            old(self)@.clock_fits(now_ms),
        ensures
            (final(self)@, final(out)@) == old(self)@.pairing_attempt_failed(
                now_ms,
                link.0,
                old(out)@,
            ),
    {
        self.fail_link(link, "pairing handshake failed", out);
        self.end_pairing(now_ms, false);
        out.ui(UiEvent::PairingFailed { reason: "the pairing handshake failed".to_owned() });
    }

    /// A pairing handshake is complete: hold the link, and put the digits on
    /// the screen.
    pub(crate) fn await_confirmation(
        &mut self,
        now_ms: u64,
        link: LinkId,
        attrs: LinkAttrs,
        deadline: u64,
        via: Option<Aim>,
        found: Found,
        out: &mut Outcome,
    )
        requires
            old(self)@.clock_fits(now_ms),
        ensures
            forall|f: FoundV| #[trigger]
                found.is(f) ==> (final(self)@, final(out)@) == old(self)@.pairing_completed(
                    now_ms,
                    link.0,
                    attrs,
                    deadline,
                    f.awaiting(link.0, opt_aim(via)),
                    old(out)@,
                ),
    {
        // Nothing is written until a human agrees; hold the link in `Pending`
        // so a denial can still close it cleanly.
        self.links.insert(link.0, LinkState::Pending(PendingLink { attrs, deadline }));
        match &self.pairing {
            None => {
                self.fail_link(link, "no pairing is in progress", out);
                return;
            },
            Some(w) => {
                // Backstop for the never-replace-a-confirmation rule; see `PairingWindow`.
                if w.awaiting.is_some() {
                    self.fail_link(link, "a confirmation is already waiting", out);
                    return;
                }
            },
        }
        let Found { id, fingerprint, record, sas } = found;
        let e = UiEvent::PairingSas {
            name: record.name.clone(),
            fingerprint: fingerprint.clone(),
            sas: sas.clone(),
        };
        // A person's clock for comparing digits, not the handshake timeout.
        self.pairing = Some(
            PairingWindow {
                deadline: now_ms + self.config.pairing_window_ms,
                awaiting: Some(AwaitingConfirm { link, id, record, fingerprint, sas, via }),
            },
        );
        out.ui(e);
    }

    /// The addresses of a peer once a pairing with it is agreed to.
    fn learn_address(&mut self, a: &AwaitingConfirm)
        ensures
            final(self)@ == (State { addrs: old(self)@.addrs_after(a@), ..old(self)@ }),
    {
        match &a.via {
            // The pairing just proved this address reachable; discovery may not
            // speak again for a long time.
            Some(aim) => {
                self.note_addr(&a.id, aim.transport, aim.addr.clone());
            },
            // They dialled us; discovery may still have shown us an address.
            None => {
                let shown = match self.seen.get(&a.fingerprint.text()) {
                    Some(s) => s.routes.clone(),
                    None => {
                        return;
                    },
                };
                let mut routes = match self.addrs.remove(&a.id.text()) {
                    Some(r) => r,
                    None => Routes::new(),
                };
                routes.merge_from(&shown);
                self.addrs.insert(a.id.text(), routes);
                assert(self@.addrs =~= old(self)@.addrs_after(a@));
            },
        }
    }

    pub(crate) fn confirm_pairing(&mut self, now_ms: u64, accept: bool, out: &mut Outcome)
        requires
            old(self)@.clock_fits(now_ms),
        ensures
            (final(self)@, final(out)@) == old(self)@.confirm_pairing(
                now_ms,
                accept,
                old(out)@,
            ),
    {
        let a = match self.pairing.take() {
            Some(w) => match w.awaiting {
                Some(a) => a,
                None => {
                    self.pairing = Some(PairingWindow { deadline: w.deadline, awaiting: None });
                    return;
                },
            },
            None => {
                return;
            },
        };
        if !accept {
            // Mismatched digits are the one signal of a relay attack: close
            // the link and go quiet for a long time.
            out.push(
                Action::Close {
                    link: a.link,
                    reason: LinkDownReason::Protocol(ErrorCode::NotAllowed),
                },
            );
            let _ = self.links.remove(&a.link.0);
            self.end_pairing(now_ms, true);
            out.ui(UiEvent::PairingFailed { reason: "the codes did not match".to_owned() });
            return;
        }
        self.learn_address(&a);
        let AwaitingConfirm { link, id, record, fingerprint, .. } = a;
        Self::keep_record(&record, out);
        out.ui(UiEvent::PairingComplete { peer: id.clone(), name: record.name.clone() });
        self.peers.insert(id.text(), Known { record, fingerprint });
        // Pairing and session stay separate: exactly one code path
        // establishes a session.
        out.push(Action::Close { link, reason: LinkDownReason::Closed });
        let _ = self.links.remove(&link.0);
        // Armed rather than dialled: the two ends confirm at different
        // moments, and a dial landing before the other side finishes pairing
        // is refused as a stranger. The retry loop keeps trying until it lands.
        self.reconnect_at = Some(0);
    }

    /// A pairing nobody answered. Measured against the host's monotonic
    /// clock, so moving the wall clock cannot extend it.
    pub(crate) fn lapse_pairing(&mut self, now_ms: u64, out: &mut Outcome)
        requires
            old(self)@.clock_fits(now_ms),
        ensures
            (final(self)@, final(out)@) == old(self)@.lapse_pairing(now_ms, old(out)@),
    {
        let due = match &self.pairing {
            Some(w) => now_ms >= w.deadline,
            None => false,
        };
        if !due {
            return;
        }
        match self.pairing.take() {
            Some(w) => match w.awaiting {
                Some(a) => {
                    out.push(Action::Close { link: a.link, reason: LinkDownReason::Closed });
                    let _ = self.links.remove(&a.link.0);
                },
                None => {},
            },
            None => {},
        }
        // Quiet afterwards: without a cooldown, asking a machine with
        // nobody sitting at it would simply try again at once.
        self.end_pairing(now_ms, false);
        out.ui(
            UiEvent::PairingFailed { reason: "nobody confirmed the pairing in time".to_owned() },
        );
    }
}

} // verus!
