//! `org.acrylius.ping/1`: the smallest possible plugin.
//!
//! It exists to exercise routing in both directions with no effector and no UI,
//! which makes it the thing that proves the plugin seam works before any feature
//! depends on it. KDE Connect has one for the same reason.
use crate::ids::DeviceId;
use crate::plugin::{
    answer, both_ways, Cx, CxView, FaultView, Memory, Plugin, PluginError, PluginManifest, Told,
};
use crate::text::{copy_bytes, same};
use crate::vocab::{EffectKind, EffectResult, EffectToken, TransferId};
use crate::wire::{Envelope, EnvelopeView};
use vstd::prelude::*;

verus! {

pub const CAP: &'static str = "org.acrylius.ping/1";

pub struct PingPlugin {
    /// Pongs seen since construction. Handy in tests and in `acryliusctl`.
    pub pongs: u32,
}

impl Default for PingPlugin {
    fn default() -> (p: PingPlugin)
        ensures
            p.pongs == 0,
    {
        PingPlugin { pongs: 0 }
    }
}

/// A count with one more; it starts over when it is used up.
pub open spec fn counted(n: u32) -> u32 {
    if n == u32::MAX {
        0
    } else {
        (n + 1) as u32
    }
}

/// A message from a peer: a ping is answered in kind, a pong is counted and
/// shown.
pub open spec fn message(pongs: u32, cx: CxView, peer: Seq<char>, env: EnvelopeView) -> (
    u32,
    CxView,
    Result<(), FaultView>,
) {
    if env.ty == "ping"@ {
        (pongs, cx.sent(peer, env.cap, "pong"@, env.body, Some(env.id)), Ok(()))
    } else if env.ty == "pong"@ {
        (counted(pongs), cx.told(peer, CAP@, "pong"@, env.body), Ok(()))
    } else {
        (pongs, cx, Err(FaultView::UnknownType(env.ty)))
    }
}

impl Plugin for PingPlugin {
    open spec fn memory(&self) -> Memory {
        Memory::Ping(self.pongs)
    }

    open spec fn may(
        &self,
        told: Told,
        cx: CxView,
        after: CxView,
        r: Result<(), FaultView>,
        next: Memory,
    ) -> bool {
        match told {
            Told::Message { peer, env } => {
                let (end, told, said) = message(self.pongs, cx, peer, env);
                after == told && r == said && next == Memory::Ping(end)
            },
            Told::Local { peer, ty, body } => {
                &&& next == self.memory()
                &&& (after, r) == if ty == "ping"@ {
                    (cx.sent(peer, CAP@, "ping"@, body, None), Ok(()))
                } else {
                    (cx, Err(FaultView::UnknownType(ty)))
                }
            },
            _ => after == cx && next == self.memory(),
        }
    }

    fn manifest(&self) -> (m: PluginManifest)
        ensures
            m@ == both_ways("org.acrylius.ping"@, CAP@, Seq::empty()),
    {
        // No effects at all, so every host keeps this plugin.
        let none: Vec<EffectKind> = Vec::new();
        PluginManifest::both_ways("org.acrylius.ping", CAP, none)
    }

    fn on_message(&mut self, cx: &mut Cx, peer: &DeviceId, env: &Envelope) -> (r: Result<
        (),
        PluginError,
    >)
        ensures
            (final(self).pongs, final(cx)@, answer(r)) == message(old(self).pongs, old(cx)@, peer@, env@),
    {
        let ty = env.ty.as_str();
        if same(ty, "ping") {
            cx.reply(peer, env, "pong", copy_bytes(&env.body));
            Ok(())
        } else if same(ty, "pong") {
            self.pongs = self.pongs.wrapping_add(1);
            cx.tell(peer, CAP, "pong", copy_bytes(&env.body));
            Ok(())
        } else {
            // Answering an unknown verb with a named error, rather than ignoring
            // it, is what lets the other end say something useful.
            Err(PluginError::UnknownType(env.ty.clone()))
        }
    }

    fn on_local(&mut self, cx: &mut Cx, peer: &DeviceId, ty: &str, body: &[u8]) -> (r: Result<
        (),
        PluginError,
    >)
        ensures
            final(self).pongs == old(self).pongs,
            (final(cx)@, answer(r)) == (if ty@ == "ping"@ {
                (old(cx)@.sent(peer@, CAP@, "ping"@, body@, None), Ok(()))
            } else {
                (old(cx)@, Err(FaultView::UnknownType(ty@)))
            }),
    {
        if same(ty, "ping") {
            cx.send(peer, CAP, "ping", copy_bytes(body));
            Ok(())
        } else {
            Err(PluginError::UnknownType(ty.to_owned()))
        }
    }

    fn on_peer_connected(&mut self, cx: &mut Cx, peer: &DeviceId)
        ensures
            *final(self) == *old(self),
            final(cx)@ == old(cx)@,
    {
    }

    fn on_peer_disconnected(&mut self, cx: &mut Cx, peer: &DeviceId)
        ensures
            *final(self) == *old(self),
            final(cx)@ == old(cx)@,
    {
    }

    fn on_effect_result(&mut self, cx: &mut Cx, token: EffectToken, result: &EffectResult)
        ensures
            *final(self) == *old(self),
            final(cx)@ == old(cx)@,
    {
    }

    fn on_bulk_listening(&mut self, cx: &mut Cx, transfer: TransferId, endpoint: &str)
        ensures
            *final(self) == *old(self),
            final(cx)@ == old(cx)@,
    {
    }

    fn on_bulk_finished(&mut self, cx: &mut Cx, transfer: TransferId, ok: bool, detail: &str)
        ensures
            *final(self) == *old(self),
            final(cx)@ == old(cx)@,
    {
    }

    fn on_tick(&mut self, cx: &mut Cx)
        ensures
            *final(self) == *old(self),
            final(cx)@ == old(cx)@,
    {
    }
}

/// A ping is answered with a pong that carries its body, to whoever sent it and under
/// its own request; a pong is counted and shown; anything else is refused.
pub proof fn a_ping_is_ponged(
    p: PingPlugin,
    cx: CxView,
    peer: Seq<char>,
    env: EnvelopeView,
    end: CxView,
    r: Result<(), FaultView>,
    next: Memory,
)
    requires
        p.may(Told::Message { peer, env }, cx, end, r, next),
    ensures
        env.ty == "ping"@ ==> r is Ok && next == Memory::Ping(p.pongs) && end == cx.sent(
            peer,
            env.cap,
            "pong"@,
            env.body,
            Some(env.id),
        ),
        env.ty == "pong"@ ==> r is Ok && (p.pongs < u32::MAX ==> next == Memory::Ping(
            (p.pongs + 1) as u32,
        )) && end == cx.told(peer, "org.acrylius.ping/1"@, "pong"@, env.body),
        env.ty != "ping"@ && env.ty != "pong"@ ==> r == Err::<(), FaultView>(
            FaultView::UnknownType(env.ty),
        ) && end == cx && next == Memory::Ping(p.pongs),
{
    assert("pong"@ != "ping"@) by {
        reveal_strlit("ping");
        reveal_strlit("pong");
        assert("pong"@[1] != "ping"@[1]);
    }
}

/// A ping that a person asks for goes to the peer they name, with what they wrote.
pub proof fn a_person_can_ping(
    p: PingPlugin,
    cx: CxView,
    peer: Seq<char>,
    ty: Seq<char>,
    body: Seq<u8>,
    end: CxView,
    r: Result<(), FaultView>,
    next: Memory,
)
    requires
        p.may(Told::Local { peer, ty, body }, cx, end, r, next),
    ensures
        next == Memory::Ping(p.pongs),
        ty == "ping"@ ==> r is Ok && end == cx.sent(
            peer,
            "org.acrylius.ping/1"@,
            "ping"@,
            body,
            None,
        ),
        ty != "ping"@ ==> r == Err::<(), FaultView>(FaultView::UnknownType(ty)) && end == cx,
{
}

} // verus!
