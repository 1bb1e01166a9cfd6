//! What plugins asked for becomes actions.
use crate::engine::model::{
    able, best, no_session, owners_of_bulk, owners_of_effects, seals, shows, LinkV, Sealed, State,
    UpV, BULK_DIAL_WAIT_MS,
};
use crate::engine::{Core, LinkState};
use crate::ids::DeviceId;
use crate::link::{BulkSupport, LinkId};
use crate::plugin::{BulkRequest, BulkView, Cx, PendingSend, SendView};
use crate::text::{holds, join2, join3, number};
use crate::vocab::{
    Action, ActionView, Effect, EffectToken, EffectView, Outcome, TransferId, UiEvent, UiView,
};
use crate::wire::{
    derive_key, join_frame, joins, transfer_key, write_envelope, Envelope, ErrorCode, FrameKind,
    Wire, WIRE_VERSION,
};
use vstd::prelude::*;

verus! {

impl<W: Wire> Core<W> {
    /// Write, seal and frame one message for an established link.
    fn seal_for(
        &mut self,
        link: LinkId,
        env: &Envelope,
    ) -> (r: (Option<Result<Vec<u8>, String>>, Ghost<Sealed>))
        requires
            old(self)@.links.dom().contains(link.0),
            old(self)@.links[link.0] is Up,
        ensures
            final(self)@ == (State {
                links: if r.1@ is Message {
                    old(self)@.links.insert(
                        link.0,
                        LinkV::Up(
                            UpV {
                                session: old(self)@.links[link.0]->Up_0.session.after_sealing(),
                                ..old(self)@.links[link.0]->Up_0
                            },
                        ),
                    )
                } else {
                    old(self)@.links
                },
                ..old(self)@
            }),
            seals(old(self)@.wire, old(self)@.links[link.0]->Up_0.session, env@, r.1@),
            match r.0 {
                None => r.1@ == Sealed::Unwritten,
                Some(Ok(m)) => r.1@ == Sealed::Message(m@),
                Some(Err(e)) => r.1@ == Sealed::Failed(e@),
            },
    {
        let ghost wire = self.wire;
        let plaintext = match write_envelope(&self.wire, env) {
            Some(p) => p,
            None => {
                return (None, Ghost(Sealed::Unwritten));
            },
        };
        let ghost before = self@;
        match self.links.remove(&link.0) {
            Some(LinkState::Up(u)) => {
                let mut u = u;
                let ghost session = u.session@;
                let sealed = u.session.encrypt(&plaintext);
                self.links.insert(link.0, LinkState::Up(u));
                match sealed {
                    Ok(ct) => {
                        let msg = join_frame(&self.wire, FrameKind::Transport, &ct);
                        let ghost m = msg@;
                        proof {
                            assert(joins(wire, FrameKind::Transport, session.seal(plaintext@), m));
                            assert(self@.links =~= before.links.insert(link.0, LinkV::Up(u@)));
                        }
                        (Some(Ok(msg)), Ghost(Sealed::Message(m)))
                    },
                    Err(e) => {
                        assert(self@.links =~= before.links);
                        let words = e.message();
                        let ghost w = words@;
                        (Some(Err(words)), Ghost(Sealed::Failed(w)))
                    },
                }
            },
            _ => (None, Ghost(Sealed::Unwritten)),
        }
    }

    /// Encrypt and emit one plugin message.
    pub(crate) fn dispatch_send(
        &mut self,
        s: PendingSend,
        out: &mut Outcome,
    ) -> (sealed: Ghost<Sealed>)
        ensures
            (final(self)@, final(out)@) == old(self)@.send_step(s@, sealed@, old(out)@),
            old(self)@.seal_fits(s@, sealed@),
    {
        let PendingSend { peer, cap, ty, body, re } = s;
        let link = match self.best_link(&peer) {
            Some(l) => l,
            None => {
                // Unreachable is an ordinary outcome, not an error.
                out.ui(UiEvent::PeerUnreachable { peer });
                return Ghost(Sealed::Unwritten);
            },
        };
        let (may_send, max_message, to) = match self.links.get(&link.0) {
            Some(LinkState::Up(u)) => (
                holds(&u.can_send, cap.as_str()),
                u.max_message,
                u.peer.clone(),
            ),
            _ => {
                return Ghost(Sealed::Unwritten);
            },
        };
        if !may_send {
            out.ui(
                UiEvent::Error {
                    peer: Some(to),
                    code: ErrorCode::CapNotNegotiated,
                    detail: join2(cap.as_str(), " is not negotiated with this peer"),
                },
            );
            return Ghost(Sealed::Unwritten);
        }
        self.next_msg_id = self.next_msg_id.wrapping_add(1);
        let env = Envelope { v: WIRE_VERSION, id: self.next_msg_id, re, cap, ty, body };
        let (sealed, witness) = self.seal_for(link, &env);
        match sealed {
            None => {},
            Some(Ok(msg)) => {
                // Enforces `LinkAttrs::max_message`; measured after sealing,
                // because the AEAD overhead travels too.
                if msg.len() as u64 > max_message as u64 {
                    let detail = join3(
                        number(msg.len() as u64).as_str(),
                        " bytes does not fit this link, which takes ",
                        number(max_message as u64).as_str(),
                    );
                    out.ui(UiEvent::Error { peer: Some(to), code: ErrorCode::TooLarge, detail });
                } else {
                    out.push(Action::LinkSend { link, msg });
                }
            },
            Some(Err(detail)) => {
                out.ui(UiEvent::Error { peer: Some(to), code: ErrorCode::Internal, detail });
            },
        }
        witness
    }

    /// Answer a message with an error code. `sealed` is what came of sealing the
    /// answer.
    pub(crate) fn send_error(
        &mut self,
        peer: &DeviceId,
        to: &Envelope,
        code: ErrorCode,
        out: &mut Outcome,
    ) -> (sealed:
        Ghost<Sealed>)
        ensures
            (final(self)@, final(out)@) == old(self)@.send_step(
                error_answer(peer@, to.cap@, to.id, code),
                sealed@,
                old(out)@,
            ),
            old(self)@.seal_fits(error_answer(peer@, to.cap@, to.id, code), sealed@),
    {
        let mut body: Vec<u8> = Vec::new();
        crate::cbor::put_text(&mut body, code.as_str());
        assert(body@ =~= crate::cbor::text_item(code.name()));
        self.dispatch_send(
            PendingSend {
                peer: peer.clone(),
                cap: to.cap.clone(),
                ty: "err".to_owned(),
                body,
                re: Some(to.id),
            },
            out,
        )
    }

    /// A link that cannot carry bulk must refuse here, not hand out an
    /// endpoint the far end has no route to.
    fn bulk_impossible(&mut self, peer: &DeviceId, transfer: TransferId, out: &mut Outcome)
        ensures
            (final(self)@, final(out)@) == old(self)@.bulk_impossible(
                peer@,
                transfer.0,
                old(out)@,
            ),
    {
        out.ui(
            UiEvent::Error {
                peer: Some(peer.clone()),
                code: ErrorCode::NotAllowed,
                detail: join3(
                    "transport for connection to ",
                    peer.as_str(),
                    " does not support file transfers. change transports and try again.",
                ),
            },
        );
        // Reported finished-and-failed too, so the plugin unwinds like it
        // would for any other failure instead of waiting forever.
        out.push(Action::BulkCancel { transfer });
        let _ = self.bulk_owner.remove(&transfer.0);
    }

    /// The key of a transfer with a peer, or why there is none.
    fn transfer_key(
        &mut self,
        peer: &DeviceId,
        transfer: TransferId,
        offerer: &str,
        number: u64,
        out: &mut Outcome,
    ) -> (r:
        Option<Vec<u8>>)
        ensures
            match r {
                Some(key) => {
                    &&& transfer_key(
                        old(self)@.wire,
                        old(self)@.links[best(able(old(self)@.links), peer@)->Some_0]->Up_0.handshake_hash,
                        offerer@,
                        number,
                        key@,
                    )
                    &&& final(self)@ == old(self)@
                    &&& final(out)@ == old(out)@
                    &&& old(self)@.bulk_for(peer@) != Some(BulkSupport::Unsupported)
                    &&& best(able(old(self)@.links), peer@) is Some
                },
                None => {
                    &&& old(self)@.bulk_for(peer@) == Some(BulkSupport::Unsupported) ==> (
                    final(self)@,
                    final(out)@,
                    ) == old(self)@.bulk_impossible(peer@, transfer.0, old(out)@)
                    &&& old(self)@.bulk_for(peer@) != Some(BulkSupport::Unsupported) ==> {
                        &&& best(able(old(self)@.links), peer@) is None
                        &&& final(self)@ == old(self)@
                        &&& final(out)@ == no_session(peer@, old(out)@)
                    }
                },
            },
    {
        match self.bulk_support_for(peer) {
            Some(BulkSupport::Unsupported) => {
                self.bulk_impossible(peer, transfer, out);
                return None;
            },
            _ => {},
        }
        match self.handshake_hash_for(peer) {
            Some(hash) => Some(derive_key(&self.wire, &hash, offerer, number)),
            None => {
                // No session, no key, no transfer.
                out.ui(
                    UiEvent::Error {
                        peer: Some(peer.clone()),
                        code: ErrorCode::NotAllowed,
                        detail: join3(
                            "no session with ",
                            peer.as_str(),
                            " to derive a transfer key from",
                        ),
                    },
                );
                None
            },
        }
    }

    fn dispatch_bulk(
        &mut self,
        now_ms: u64,
        request: BulkRequest,
        out: &mut Outcome,
    ) -> (key: Ghost<
        Seq<u8>,
    >)
        requires
            old(self)@.clock_fits(now_ms),
        ensures
            (final(self)@, final(out)@) == old(self)@.bulk_step(
                now_ms,
                request@,
                key@,
                old(out)@,
            ),
            old(self)@.key_fits(request@, key@),
    {
        match request {
            BulkRequest::Cancel { transfer } => {
                out.push(Action::BulkCancel { transfer });
                Ghost(Seq::empty())
            },
            // The key is derived from the offerer's device id and its own transfer
            // number (`offered_as`), not ours: both ends can name it without
            // asking, since the dialing side is always the one that offered.
            BulkRequest::Listen { peer, transfer, offered_as, expect_bytes } => {
                match self.transfer_key(&peer, transfer, peer.as_str(), offered_as, out) {
                    Some(key) => {
                        let ghost k = key@;
                        // Starts here rather than at `BulkListening`, so a host that
                        // never binds is bounded by the same deadline as a sender that
                        // never dials.
                        self.bulk_wait.insert(transfer.0, now_ms + BULK_DIAL_WAIT_MS);
                        out.push(
                            Action::BulkListen {
                                transfer,
                                // The peer's number: the same one the dialer will greet us with.
                                offered_as,
                                key,
                                expect_bytes,
                            },
                        );
                        Ghost(k)
                    },
                    None => Ghost(Seq::empty()),
                }
            },
            BulkRequest::Send { peer, transfer, endpoint } => {
                let me = self.id.text();
                match self.transfer_key(&peer, transfer, me.as_str(), transfer.0, out) {
                    Some(key) => {
                        let ghost k = key@;
                        out.push(Action::BulkSend { transfer, endpoint, key });
                        Ghost(k)
                    },
                    None => Ghost(Seq::empty()),
                }
            },
        }
    }

    /// Record which plugin owns whatever a `Cx` just asked for; effects and
    /// transfers are answered later, and this map is the only way back.
    fn remember(&mut self, cx: &Cx, idx: Option<usize>)
        ensures
            final(self)@ == old(self)@.remember(idx, cx@),
    {
        self.next_token = cx.next_token;
        self.next_transfer = cx.next_transfer;
        let idx: usize = match idx {
            Some(i) => i,
            None => {
                return;
            },
        };
        let ghost effects = cx@.effects;
        let ghost start = self@;
        assert(effects.take(0) =~= Seq::empty());
        for i in 0..cx.effects.len()
            invariant
                effects == cx@.effects,
                self@ == (State {
                    effect_owner: owners_of_effects(
                        start.effect_owner,
                        effects.take(i as int),
                        idx,
                    ),
                    ..start
                }),
        {
            proof {
                assert(effects.take(i + 1).drop_last() =~= effects.take(i as int));
                assert(effects[i as int].0 == cx.effects@[i as int].0.0);
            }
            self.effect_owner.insert(cx.effects[i].0.0, idx);
        }
        let ghost bulk = cx@.bulk;
        let ghost mid = self@;
        proof {
            assert(effects.take(effects.len() as int) =~= effects);
            assert(bulk.take(0) =~= Seq::empty());
        }
        for i in 0..cx.bulk.len()
            invariant
                bulk == cx@.bulk,
                self@ == (State {
                    bulk_owner: owners_of_bulk(mid.bulk_owner, bulk.take(i as int), idx),
                    ..mid
                }),
        {
            proof {
                assert(bulk.take(i + 1).drop_last() =~= bulk.take(i as int));
                assert(bulk[i as int] == cx.bulk@[i as int]@);
            }
            match &cx.bulk[i] {
                BulkRequest::Listen { transfer, .. } => {
                    self.bulk_owner.insert(transfer.0, idx);
                },
                BulkRequest::Send { transfer, .. } => {
                    self.bulk_owner.insert(transfer.0, idx);
                },
                BulkRequest::Cancel { .. } => {},
            }
        }
        assert(bulk.take(bulk.len() as int) =~= bulk);
    }

    /// Everything a plugin put out becomes actions.
    pub(crate) fn drain_cx(&mut self, now_ms: u64, idx: Option<usize>, cx: Cx, out: &mut Outcome)
        requires
            old(self)@.clock_fits(now_ms),
        ensures
            old(self)@.drained(now_ms, idx, cx@, old(out)@, final(self)@, final(out)@),
            final(self)@.clock_fits(now_ms),
    {
        let ghost v = cx@;
        self.remember(&cx, idx);
        let ghost start = self@;
        let ghost first = out@;
        let Cx { ui, effects, bulk, sends, wake_at, .. } = cx;
        let ghost shown = v.ui.map_values(|e: UiView| ActionView::Ui(e));
        assert(first + shown.take(0) =~= first);
        let ghost ui_list = ui@;
        for e in it: ui
            invariant
                it.seq() == ui_list,
                v.ui == ui_list.map_values(|e: UiEvent| e@),
                shown == v.ui.map_values(|e: UiView| ActionView::Ui(e)),
                out@ == first + shown.take(it.index() as int),
        {
            let ghost i = it.index();
            out.ui(e);
            proof {
                assert(shown[i as int] == ActionView::Ui(ui_list[i as int]@));
                assert(shown.take(i + 1) =~= shown.take(i as int).push(shown[i as int]));
                assert(out@ =~= first + shown.take(i + 1));
            }
        }
        let ghost second = out@;
        let ghost asked = v.effects.map_values(
            |e: (u64, EffectView)| ActionView::Effect { token: e.0, effect: e.1 },
        );
        proof {
            assert(shown.take(shown.len() as int) =~= shown);
            assert(second + asked.take(0) =~= second);
        }
        let ghost effect_list = effects@;
        for e in it: effects
            invariant
                it.seq() == effect_list,
                v.effects == effect_list.map_values(|e: (EffectToken, Effect)| (e.0.0, e.1@)),
                asked == v.effects.map_values(
                    |e: (u64, EffectView)| ActionView::Effect { token: e.0, effect: e.1 },
                ),
                out@ == second + asked.take(it.index() as int),
        {
            let ghost i = it.index();
            let (token, effect) = e;
            out.push(Action::Effect { token, effect });
            proof {
                assert(asked.take(i + 1) =~= asked.take(i as int).push(asked[i as int]));
                assert(out@ =~= second + asked.take(i + 1));
            }
        }
        let ghost third = out@;
        let ghost mut keys: Seq<Seq<u8>> = Seq::empty();
        proof {
            assert(asked.take(asked.len() as int) =~= asked);
            assert(third =~= first + shows(v));
        }
        let ghost bulk_list = bulk@;
        for b in it: bulk
            invariant
                it.seq() == bulk_list,
                v.bulk == bulk_list.map_values(|b: BulkRequest| b@),
                keys.len() == it.index(),
                self@.clock_fits(now_ms),
                (self@, out@) == start.bulk_steps(now_ms, v.bulk, keys, it.index() as int, third),
                start.keys_fit(now_ms, v.bulk, keys, it.index() as int, third),
        {
            let ghost i = it.index();
            let ghost old_keys = keys;
            let key = self.dispatch_bulk(now_ms, b, out);
            proof {
                keys = keys.push(key@);
                bulk_keys_stay(start, now_ms, v.bulk, old_keys, key@, i as int, third);
            }
        }
        let ghost mid = self@;
        let ghost fourth = out@;
        let ghost mut sealed: Seq<Sealed> = Seq::empty();
        let ghost send_list = sends@;
        for s in it: sends
            invariant
                it.seq() == send_list,
                v.sends == send_list.map_values(|s: PendingSend| s@),
                sealed.len() == it.index(),
                self@.clock_fits(now_ms),
                (self@, out@) == mid.send_steps(v.sends, sealed, it.index() as int, fourth),
                mid.seals_fit(v.sends, sealed, it.index() as int, fourth),
        {
            let ghost i = it.index();
            let ghost old_sealed = sealed;
            let one = self.dispatch_send(s, out);
            proof {
                sealed = sealed.push(one@);
                sealed_stay(mid, v.sends, old_sealed, one@, i as int, fourth);
            }
        }
        match wake_at {
            Some(w) => {
                self.plugin_wake = Some(
                    match self.plugin_wake {
                        Some(p) => if p <= w {
                            p
                        } else {
                            w
                        },
                        None => w,
                    },
                );
            },
            None => {},
        }
        proof {
            assert((self@, out@) == start.drain(now_ms, v, keys, sealed, first));
        }
    }
}

/// The answer to a message that was not accepted.
pub open spec fn error_answer(
    peer: Seq<char>,
    cap: Seq<char>,
    re: u32,
    code: ErrorCode,
) -> SendView {
    SendView {
        peer,
        cap,
        ty: "err"@,
        body: crate::cbor::text_item(code.name()),
        re: Some(re),
    }
}

/// A later key does not matter to earlier side channels.
proof fn bulk_keys_stay<W: Wire>(
    s: State<W>,
    now: u64,
    list: Seq<BulkView>,
    keys: Seq<Seq<u8>>,
    key: Seq<u8>,
    n: int,
    out: Seq<ActionView>,
)
    requires
        n <= keys.len(),
    ensures
        s.bulk_steps(now, list, keys.push(key), n, out) == s.bulk_steps(now, list, keys, n, out),
        s.keys_fit(now, list, keys.push(key), n, out) == s.keys_fit(now, list, keys, n, out),
    decreases n,
{
    if n > 0 {
        bulk_keys_stay(s, now, list, keys, key, n - 1, out);
        assert(keys.push(key)[n - 1] == keys[n - 1]);
    }
}

/// A later message does not matter to earlier ones.
proof fn sealed_stay<W: Wire>(
    s: State<W>,
    list: Seq<SendView>,
    sealed: Seq<Sealed>,
    one: Sealed,
    n: int,
    out: Seq<ActionView>,
)
    requires
        n <= sealed.len(),
    ensures
        s.send_steps(list, sealed.push(one), n, out) == s.send_steps(list, sealed, n, out),
        s.seals_fit(list, sealed.push(one), n, out) == s.seals_fit(list, sealed, n, out),
    decreases n,
{
    if n > 0 {
        sealed_stay(s, list, sealed, one, n - 1, out);
        assert(sealed.push(one)[n - 1] == sealed[n - 1]);
    }
}

} // verus!
