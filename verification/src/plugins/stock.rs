//! A plugin as a core keeps it.
use crate::ids::DeviceId;
use crate::plugin::{Cx, CxView, FaultView, Memory, Plugin, PluginError, PluginManifest, Told};
use crate::plugins::clipboard::ClipboardPlugin;
use crate::plugins::command::CommandPlugin;
use crate::plugins::media::MediaPlugin;
use crate::plugins::ping::PingPlugin;
use crate::plugins::session::SessionPlugin;
use crate::plugins::share::SharePlugin;
use crate::plugins::touchpad::TouchpadPlugin;
use crate::plugins::wol::WolPlugin;
use crate::vocab::{EffectKind, EffectResult, EffectToken, TransferId};
use crate::wire::Envelope;
use vstd::prelude::*;

verus! {

/// A plugin that a core keeps: one of those every device registers, or somebody
/// else's.
pub enum Stock {
    Ping(PingPlugin),
    Session(SessionPlugin),
    Wol(WolPlugin),
    Clipboard(ClipboardPlugin),
    Command(CommandPlugin),
    Media(MediaPlugin),
    Share(SharePlugin),
    Touchpad(TouchpadPlugin),
    Other(Box<dyn Plugin>),
}

/// Which plugin a core keeps.
pub enum Kind {
    Ping,
    Session,
    Wol,
    Clipboard,
    Command,
    Media,
    Share,
    Touchpad,
    Other,
}

impl Stock {
    /// Which plugin this is. It is the same one whatever it is told.
    pub open spec fn kind(&self) -> Kind {
        match self {
            Stock::Ping(_) => Kind::Ping,
            Stock::Session(_) => Kind::Session,
            Stock::Wol(_) => Kind::Wol,
            Stock::Clipboard(_) => Kind::Clipboard,
            Stock::Command(_) => Kind::Command,
            Stock::Media(_) => Kind::Media,
            Stock::Share(_) => Kind::Share,
            Stock::Touchpad(_) => Kind::Touchpad,
            Stock::Other(_) => Kind::Other,
        }
    }
}

/// A plugin that can be given to a core to keep. Unless it says otherwise, it is kept
/// as somebody else's.
pub trait Kept: Plugin + Sized + 'static {
    fn kept(self) -> (s: Stock)
        default_ensures
            s is Other,
    {
        Stock::Other(Box::new(self))
    }
}

impl Kept for PingPlugin {
    fn kept(self) -> (s: Stock)
        ensures
            s == Stock::Ping(self),
    {
        Stock::Ping(self)
    }
}

impl Kept for SessionPlugin {
    fn kept(self) -> (s: Stock)
        ensures
            s == Stock::Session(self),
    {
        Stock::Session(self)
    }
}

impl Kept for WolPlugin {
    fn kept(self) -> (s: Stock)
        ensures
            s == Stock::Wol(self),
    {
        Stock::Wol(self)
    }
}

impl Kept for ClipboardPlugin {
    fn kept(self) -> (s: Stock)
        ensures
            s == Stock::Clipboard(self),
    {
        Stock::Clipboard(self)
    }
}

impl Kept for CommandPlugin {
    fn kept(self) -> (s: Stock)
        ensures
            s == Stock::Command(self),
    {
        Stock::Command(self)
    }
}

impl Kept for MediaPlugin {
    fn kept(self) -> (s: Stock)
        ensures
            s == Stock::Media(self),
    {
        Stock::Media(self)
    }
}

impl Kept for SharePlugin {
    fn kept(self) -> (s: Stock)
        ensures
            s == Stock::Share(self),
    {
        Stock::Share(self)
    }
}

impl Kept for TouchpadPlugin {
    fn kept(self) -> (s: Stock)
        ensures
            s == Stock::Touchpad(self),
    {
        Stock::Touchpad(self)
    }
}

impl Plugin for Stock {
    open spec fn memory(&self) -> Memory {
        match self {
            Stock::Ping(p) => p.memory(),
            Stock::Session(p) => p.memory(),
            Stock::Wol(p) => p.memory(),
            Stock::Clipboard(p) => p.memory(),
            Stock::Command(p) => p.memory(),
            Stock::Media(p) => p.memory(),
            Stock::Share(p) => p.memory(),
            Stock::Touchpad(p) => p.memory(),
            Stock::Other(p) => p.memory(),
        }
    }

    open spec fn may(
        &self,
        told: Told,
        cx: CxView,
        after: CxView,
        r: Result<(), FaultView>,
        next: Memory,
    ) -> bool {
        match self {
            Stock::Ping(p) => p.may(told, cx, after, r, next),
            Stock::Session(p) => p.may(told, cx, after, r, next),
            Stock::Wol(p) => p.may(told, cx, after, r, next),
            Stock::Clipboard(p) => p.may(told, cx, after, r, next),
            Stock::Command(p) => p.may(told, cx, after, r, next),
            Stock::Media(p) => p.may(told, cx, after, r, next),
            Stock::Share(p) => p.may(told, cx, after, r, next),
            Stock::Touchpad(p) => p.may(told, cx, after, r, next),
            Stock::Other(p) => p.may(told, cx, after, r, next),
        }
    }

    fn manifest(&self) -> PluginManifest {
        match self {
            Stock::Ping(p) => p.manifest(),
            Stock::Session(p) => p.manifest(),
            Stock::Wol(p) => p.manifest(),
            Stock::Clipboard(p) => p.manifest(),
            Stock::Command(p) => p.manifest(),
            Stock::Media(p) => p.manifest(),
            Stock::Share(p) => p.manifest(),
            Stock::Touchpad(p) => p.manifest(),
            Stock::Other(p) => p.manifest(),
        }
    }

    fn on_message(&mut self, cx: &mut Cx, peer: &DeviceId, env: &Envelope) -> (r: Result<
        (),
        PluginError,
    >)
        ensures
            final(self).kind() == old(self).kind(),
    {
        match self {
            Stock::Ping(p) => p.on_message(cx, peer, env),
            Stock::Session(p) => p.on_message(cx, peer, env),
            Stock::Wol(p) => p.on_message(cx, peer, env),
            Stock::Clipboard(p) => p.on_message(cx, peer, env),
            Stock::Command(p) => p.on_message(cx, peer, env),
            Stock::Media(p) => p.on_message(cx, peer, env),
            Stock::Share(p) => p.on_message(cx, peer, env),
            Stock::Touchpad(p) => p.on_message(cx, peer, env),
            Stock::Other(p) => p.on_message(cx, peer, env),
        }
    }

    fn on_peer_connected(&mut self, cx: &mut Cx, peer: &DeviceId)
        ensures
            final(self).kind() == old(self).kind(),
    {
        match self {
            Stock::Ping(p) => p.on_peer_connected(cx, peer),
            Stock::Session(p) => p.on_peer_connected(cx, peer),
            Stock::Wol(p) => p.on_peer_connected(cx, peer),
            Stock::Clipboard(p) => p.on_peer_connected(cx, peer),
            Stock::Command(p) => p.on_peer_connected(cx, peer),
            Stock::Media(p) => p.on_peer_connected(cx, peer),
            Stock::Share(p) => p.on_peer_connected(cx, peer),
            Stock::Touchpad(p) => p.on_peer_connected(cx, peer),
            Stock::Other(p) => p.on_peer_connected(cx, peer),
        }
    }

    fn on_peer_disconnected(&mut self, cx: &mut Cx, peer: &DeviceId)
        ensures
            final(self).kind() == old(self).kind(),
    {
        match self {
            Stock::Ping(p) => p.on_peer_disconnected(cx, peer),
            Stock::Session(p) => p.on_peer_disconnected(cx, peer),
            Stock::Wol(p) => p.on_peer_disconnected(cx, peer),
            Stock::Clipboard(p) => p.on_peer_disconnected(cx, peer),
            Stock::Command(p) => p.on_peer_disconnected(cx, peer),
            Stock::Media(p) => p.on_peer_disconnected(cx, peer),
            Stock::Share(p) => p.on_peer_disconnected(cx, peer),
            Stock::Touchpad(p) => p.on_peer_disconnected(cx, peer),
            Stock::Other(p) => p.on_peer_disconnected(cx, peer),
        }
    }

    fn on_local(&mut self, cx: &mut Cx, peer: &DeviceId, ty: &str, body: &[u8]) -> (r: Result<
        (),
        PluginError,
    >)
        ensures
            final(self).kind() == old(self).kind(),
    {
        match self {
            Stock::Ping(p) => p.on_local(cx, peer, ty, body),
            Stock::Session(p) => p.on_local(cx, peer, ty, body),
            Stock::Wol(p) => p.on_local(cx, peer, ty, body),
            Stock::Clipboard(p) => p.on_local(cx, peer, ty, body),
            Stock::Command(p) => p.on_local(cx, peer, ty, body),
            Stock::Media(p) => p.on_local(cx, peer, ty, body),
            Stock::Share(p) => p.on_local(cx, peer, ty, body),
            Stock::Touchpad(p) => p.on_local(cx, peer, ty, body),
            Stock::Other(p) => p.on_local(cx, peer, ty, body),
        }
    }

    fn on_effect_result(&mut self, cx: &mut Cx, token: EffectToken, result: &EffectResult)
        ensures
            final(self).kind() == old(self).kind(),
    {
        match self {
            Stock::Ping(p) => p.on_effect_result(cx, token, result),
            Stock::Session(p) => p.on_effect_result(cx, token, result),
            Stock::Wol(p) => p.on_effect_result(cx, token, result),
            Stock::Clipboard(p) => p.on_effect_result(cx, token, result),
            Stock::Command(p) => p.on_effect_result(cx, token, result),
            Stock::Media(p) => p.on_effect_result(cx, token, result),
            Stock::Share(p) => p.on_effect_result(cx, token, result),
            Stock::Touchpad(p) => p.on_effect_result(cx, token, result),
            Stock::Other(p) => p.on_effect_result(cx, token, result),
        }
    }

    fn on_bulk_listening(&mut self, cx: &mut Cx, transfer: TransferId, endpoint: &str)
        ensures
            final(self).kind() == old(self).kind(),
    {
        match self {
            Stock::Ping(p) => p.on_bulk_listening(cx, transfer, endpoint),
            Stock::Session(p) => p.on_bulk_listening(cx, transfer, endpoint),
            Stock::Wol(p) => p.on_bulk_listening(cx, transfer, endpoint),
            Stock::Clipboard(p) => p.on_bulk_listening(cx, transfer, endpoint),
            Stock::Command(p) => p.on_bulk_listening(cx, transfer, endpoint),
            Stock::Media(p) => p.on_bulk_listening(cx, transfer, endpoint),
            Stock::Share(p) => p.on_bulk_listening(cx, transfer, endpoint),
            Stock::Touchpad(p) => p.on_bulk_listening(cx, transfer, endpoint),
            Stock::Other(p) => p.on_bulk_listening(cx, transfer, endpoint),
        }
    }

    fn on_bulk_finished(&mut self, cx: &mut Cx, transfer: TransferId, ok: bool, detail: &str)
        ensures
            final(self).kind() == old(self).kind(),
    {
        match self {
            Stock::Ping(p) => p.on_bulk_finished(cx, transfer, ok, detail),
            Stock::Session(p) => p.on_bulk_finished(cx, transfer, ok, detail),
            Stock::Wol(p) => p.on_bulk_finished(cx, transfer, ok, detail),
            Stock::Clipboard(p) => p.on_bulk_finished(cx, transfer, ok, detail),
            Stock::Command(p) => p.on_bulk_finished(cx, transfer, ok, detail),
            Stock::Media(p) => p.on_bulk_finished(cx, transfer, ok, detail),
            Stock::Share(p) => p.on_bulk_finished(cx, transfer, ok, detail),
            Stock::Touchpad(p) => p.on_bulk_finished(cx, transfer, ok, detail),
            Stock::Other(p) => p.on_bulk_finished(cx, transfer, ok, detail),
        }
    }

    fn on_tick(&mut self, cx: &mut Cx)
        ensures
            final(self).kind() == old(self).kind(),
    {
        match self {
            Stock::Ping(p) => p.on_tick(cx),
            Stock::Session(p) => p.on_tick(cx),
            Stock::Wol(p) => p.on_tick(cx),
            Stock::Clipboard(p) => p.on_tick(cx),
            Stock::Command(p) => p.on_tick(cx),
            Stock::Media(p) => p.on_tick(cx),
            Stock::Share(p) => p.on_tick(cx),
            Stock::Touchpad(p) => p.on_tick(cx),
            Stock::Other(p) => p.on_tick(cx),
        }
    }
}

/// A plugin that a core keeps is the one it was given, and makes of everything it is told
/// what it would make of it by itself.
pub proof fn a_kept_plugin_stays_itself(
    ping: PingPlugin,
    session: SessionPlugin,
    wol: WolPlugin,
    clipboard: ClipboardPlugin,
    command: CommandPlugin,
    media: MediaPlugin,
    share: SharePlugin,
    touchpad: TouchpadPlugin,
    told: Told,
    cx: CxView,
    after: CxView,
    r: Result<(), FaultView>,
    next: Memory,
)
    ensures
        Stock::Ping(ping).may(told, cx, after, r, next) <==> ping.may(told, cx, after, r, next),
        Stock::Session(session).may(told, cx, after, r, next) <==> session.may(
            told,
            cx,
            after,
            r,
            next,
        ),
        Stock::Wol(wol).may(told, cx, after, r, next) <==> wol.may(told, cx, after, r, next),
        Stock::Clipboard(clipboard).may(told, cx, after, r, next) <==> clipboard.may(
            told,
            cx,
            after,
            r,
            next,
        ),
        Stock::Command(command).may(told, cx, after, r, next) <==> command.may(
            told,
            cx,
            after,
            r,
            next,
        ),
        Stock::Media(media).may(told, cx, after, r, next) <==> media.may(told, cx, after, r, next),
        Stock::Share(share).may(told, cx, after, r, next) <==> share.may(told, cx, after, r, next),
        Stock::Touchpad(touchpad).may(told, cx, after, r, next) <==> touchpad.may(
            told,
            cx,
            after,
            r,
            next,
        ),
{
}

/// Each plugin is declared under its own name, offers its one capability both ways, and
/// needs of a host the one class of effect that it asks for; a ping needs none.
pub proof fn each_plugin_declares_itself(
    ping: PingPlugin,
    a: PluginManifest,
    session: SessionPlugin,
    b: PluginManifest,
    wol: WolPlugin,
    c: PluginManifest,
    clipboard: ClipboardPlugin,
    d: PluginManifest,
    command: CommandPlugin,
    e: PluginManifest,
    media: MediaPlugin,
    f: PluginManifest,
    share: SharePlugin,
    g: PluginManifest,
    touchpad: TouchpadPlugin,
    h: PluginManifest,
)
    requires
        call_ensures(PingPlugin::manifest, (&ping,), a),
        call_ensures(SessionPlugin::manifest, (&session,), b),
        call_ensures(WolPlugin::manifest, (&wol,), c),
        call_ensures(ClipboardPlugin::manifest, (&clipboard,), d),
        call_ensures(CommandPlugin::manifest, (&command,), e),
        call_ensures(MediaPlugin::manifest, (&media,), f),
        call_ensures(SharePlugin::manifest, (&share,), g),
        call_ensures(TouchpadPlugin::manifest, (&touchpad,), h),
    ensures
        a@.id == "org.acrylius.ping"@,
        a@.incoming == seq!["org.acrylius.ping/1"@] && a@.outgoing == a@.incoming
            && a@.requires_effects.len() == 0,
        b@.id == "org.acrylius.session"@,
        b@.incoming == seq!["org.acrylius.session/1"@] && b@.outgoing == b@.incoming
            && b@.requires_effects == seq![EffectKind::Session],
        c@.id == "org.acrylius.wol"@,
        c@.incoming == seq!["org.acrylius.wol/1"@] && c@.outgoing == c@.incoming
            && c@.requires_effects == seq![EffectKind::Wol],
        d@.id == "org.acrylius.clipboard"@,
        d@.incoming == seq!["org.acrylius.clipboard/1"@] && d@.outgoing == d@.incoming
            && d@.requires_effects == seq![EffectKind::Clipboard],
        e@.id == "org.acrylius.command"@,
        e@.incoming == seq!["org.acrylius.command/1"@] && e@.outgoing == e@.incoming
            && e@.requires_effects == seq![EffectKind::Command],
        f@.id == "org.acrylius.media"@,
        f@.incoming == seq!["org.acrylius.media/1"@] && f@.outgoing == f@.incoming
            && f@.requires_effects == seq![EffectKind::Media],
        g@.id == "org.acrylius.share"@,
        g@.incoming == seq!["org.acrylius.share/1"@] && g@.outgoing == g@.incoming
            && g@.requires_effects == seq![EffectKind::Share],
        h@.id == "org.acrylius.touchpad"@,
        h@.incoming == seq!["org.acrylius.touchpad/1"@] && h@.outgoing == h@.incoming
            && h@.requires_effects == seq![EffectKind::Touchpad],
{
}

} // verus!
