//! Plugins being told things.
use crate::engine::model::{round, rounds};
use crate::engine::Core;
use crate::ids::DeviceId;
use crate::link::BulkSupport;
use crate::plugin::{answer, Cx, CxView, Plugin, PluginError, Told};
use crate::vocab::{EffectResult, EffectToken, Outcome, TransferId};
use crate::wire::{Envelope, Wire};
use vstd::prelude::*;

verus! {

/// Something for one plugin.
pub(crate) enum News<'a> {
    Message(&'a DeviceId, &'a Envelope),
    Local(&'a DeviceId, &'a str, &'a [u8]),
    Answer(EffectToken, &'a EffectResult),
    Listening(TransferId, &'a str),
    Finished(TransferId, bool, &'a str),
}

impl<'a> News<'a> {
    pub(crate) open spec fn told(self) -> Told {
        match self {
            News::Message(peer, env) => Told::Message { peer: peer@, env: env@ },
            News::Local(peer, ty, body) => Told::Local { peer: peer@, ty: ty@, body: body@ },
            News::Answer(token, result) => Told::Answer { token: token.0, result: result@ },
            News::Listening(transfer, endpoint) => Told::Listening {
                transfer: transfer.0,
                endpoint: endpoint@,
            },
            News::Finished(transfer, ok, detail) => Told::Finished {
                transfer: transfer.0,
                ok,
                detail: detail@,
            },
        }
    }
}

/// Something for every plugin.
pub(crate) enum Round<'a> {
    Connected(&'a DeviceId),
    Disconnected(&'a DeviceId),
    Tick,
}

impl<'a> Round<'a> {
    pub(crate) open spec fn told(self) -> Told {
        match self {
            Round::Connected(peer) => Told::Connected { peer: peer@ },
            Round::Disconnected(peer) => Told::Disconnected { peer: peer@ },
            Round::Tick => Told::Tick,
        }
    }
}

impl<W: Wire> Core<W> {
    /// Tells one plugin something, and does what it then asks for.
    pub(crate) fn tell_one(
        &mut self,
        now_ms: u64,
        idx: usize,
        news: News,
        peer_bulk: Option<BulkSupport>,
        out: &mut Outcome,
    ) -> (r: Result<(), PluginError>)
        requires
            old(self)@.clock_fits(now_ms),
        ensures
            old(self)@.told_one(
                now_ms,
                idx,
                news.told(),
                peer_bulk,
                answer(r),
                old(out)@,
                final(self)@,
                final(out)@,
            ),
            final(self)@.clock_fits(now_ms),
            !(news is Message || news is Local) ==> r is Ok,
    {
        let ghost start = self@;
        let ghost first = out@;
        let mut cx = Cx::new(now_ms, self.next_token, self.next_transfer, self.serves).for_peer_link(
            peer_bulk,
        );
        let ghost handed = cx@;
        let mut r: Result<(), PluginError> = Ok(());
        if idx < self.plugins.len() {
            match news {
                News::Message(peer, env) => {
                    r = self.plugins[idx].plugin.on_message(&mut cx, peer, env);
                },
                News::Local(peer, ty, body) => {
                    r = self.plugins[idx].plugin.on_local(&mut cx, peer, ty, body);
                },
                News::Answer(token, result) => {
                    self.plugins[idx].plugin.on_effect_result(&mut cx, token, result);
                },
                News::Listening(transfer, endpoint) => {
                    self.plugins[idx].plugin.on_bulk_listening(&mut cx, transfer, endpoint);
                },
                News::Finished(transfer, ok, detail) => {
                    self.plugins[idx].plugin.on_bulk_finished(&mut cx, transfer, ok, detail);
                },
            }
        }
        let ghost v = cx@;
        let ghost told = self@;
        let ghost plugins = self@.plugins;
        proof {
            assert(self@.manifests =~= start.manifests);
            assert(start.one_heard(idx, news.told(), handed, v, answer(r), plugins));
            assert(told == start.with_plugins(plugins));
        }
        self.drain_cx(now_ms, Some(idx), cx, out);
        assert(start.with_plugins(plugins).drained(now_ms, Some(idx), v, first, self@, out@));
        r
    }

    /// Tells every plugin something, one after the other, and does what they then
    /// ask for.
    pub(crate) fn tell_all(&mut self, now_ms: u64, news: Round, out: &mut Outcome)
        requires
            old(self)@.clock_fits(now_ms),
        ensures
            old(self)@.told_all(
                now_ms,
                news.told(),
                old(out)@,
                final(self)@,
                final(out)@,
            ),
            final(self)@.clock_fits(now_ms),
    {
        let ghost start = self@;
        let ghost first = out@;
        let mut cx = Cx::new(now_ms, self.next_token, self.next_transfer, self.serves);
        let ghost mut trace: Seq<CxView> = seq![cx@];
        let n = self.plugins.len();
        for i in 0..n
            invariant
                n == self.plugins@.len(),
                n == start.plugins.len(),
                self@ == start.with_plugins(self.plugins@),
                forall|k: int| i <= k < n ==> self.plugins@[k] == start.plugins[k],
                trace.len() == i + 1,
                trace[0] == start.context(now_ms, None),
                trace[i as int] == cx@,
                forall|k: int|
                    0 <= k < i ==> #[trigger] round(
                        start.plugins,
                        self.plugins@,
                        news.told(),
                        trace,
                        k,
                    ),
        {
            let ghost before = trace;
            let ghost so_far = self.plugins@;
            match news {
                Round::Connected(peer) => {
                    self.plugins[i].plugin.on_peer_connected(&mut cx, peer);
                },
                Round::Disconnected(peer) => {
                    self.plugins[i].plugin.on_peer_disconnected(&mut cx, peer);
                },
                Round::Tick => {
                    self.plugins[i].plugin.on_tick(&mut cx);
                },
            }
            proof {
                assert(self@.manifests =~= start.manifests);
                trace = trace.push(cx@);
                assert forall|k: int| 0 <= k < i + 1 implies #[trigger] round(
                    start.plugins,
                    self.plugins@,
                    news.told(),
                    trace,
                    k,
                ) by {
                    if k < i {
                        assert(round(start.plugins, so_far, news.told(), before, k));
                        assert(self.plugins@[k] == so_far[k]);
                    }
                }
            }
        }
        let ghost v = cx@;
        let ghost plugins = self@.plugins;
        assert(rounds(start.plugins, plugins, news.told(), trace));
        self.drain_cx(now_ms, None, cx, out);
        proof {
            assert(start.all_heard(news.told(), start.context(now_ms, None), v, plugins));
            assert(start.with_plugins(plugins).drained(now_ms, None, v, first, self@, out@));
        }
    }
}

} // verus!
