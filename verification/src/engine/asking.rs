//! What a core with the plugins that every device registers asks of its host.
use crate::body::{value_of, Body};
use crate::engine::events::{close_trace, complained, give_up_trace, token_of, unkeep};
use crate::engine::frames::{
    answered, ends, handler, left, verdict, End, Made, Opened, Opener, Reply, Turn,
};
use crate::engine::model::{
    error, heeds, round, rounds, shows, ui, Greeted, LinkV, Out, Said, Sealed, ShakingV,
    State, UpV,
};
use crate::engine::sends::error_answer;
use crate::link::{BulkSupport, LinkAttrs, ReasonView};
use crate::plugin::{
    BulkView, CxView, FaultView, Memory, Plugin, Registered, SendView, Told,
};
use crate::plugins::clipboard::ClipboardPlugin;
use crate::plugins::command::{listed, CommandPlugin};
use crate::plugins::media::{MediaPlugin, MediaState};
use crate::plugins::ping::PingPlugin;
use crate::plugins::roster::sent_round;
use crate::plugins::session::{SessionPlugin, SessionState};
use crate::plugins::share::{Finished, SharePlugin};
use crate::plugins::stock::Stock;
use crate::plugins::touchpad::TouchpadPlugin;
use crate::plugins::wol::{allowed, WolPlugin};
use crate::table::ascending;
use crate::vocab::{
    ActionView, EffectView, Event, LocalCommand, MediaAction, ResultView, UiView,
};
use crate::wire::{EnvelopeView, ErrorCode, FrameKind, Wire};
use vstd::prelude::*;

verus! {

/// Whether every plugin of a core is one of those that every device registers.
pub open spec fn ours(plugins: Seq<Registered>) -> bool {
    forall|i: int| 0 <= i < plugins.len() ==> !((#[trigger] plugins[i]).plugin is Other)
}

/// Whether a command is on the list of a core's plugins.
pub open spec fn may_run(plugins: Seq<Registered>, id: Seq<char>) -> bool {
    exists|i: int|
        0 <= i < plugins.len() && ((#[trigger] plugins[i]).plugin matches Stock::Command(p)
            && listed(p@.catalog, id))
}

/// Whether a machine is on the list of those that a core's plugins wake for others,
/// and is called where that list is for.
pub open spec fn may_wake(
    plugins: Seq<Registered>,
    mac: Seq<char>,
    dests: Seq<Seq<char>>,
    port: u16,
) -> bool {
    exists|i: int|
        0 <= i < plugins.len() && ((#[trigger] plugins[i]).plugin matches Stock::Wol(p) && allowed(
            p@.allowlist,
            mac,
        ) && dests == seq![p@.config.broadcast] && port == p@.config.port)
}

/// Whether a core's plugins put what a peer has copied on this device's clipboard.
pub open spec fn may_paste(plugins: Seq<Registered>) -> bool {
    exists|i: int|
        0 <= i < plugins.len() && ((#[trigger] plugins[i]).plugin matches Stock::Clipboard(p)
            && p@.directions.receive)
}

/// Whether a host may be asked for an effect: it runs nothing and wakes nobody that
/// is not on a list, takes nothing on its clipboard where it is set to take nothing,
/// and plays no louder than it can.
pub open spec fn fair_effect(plugins: Seq<Registered>, e: EffectView) -> bool {
    match e {
        EffectView::RunCommand { id } => may_run(plugins, id),
        EffectView::SendMagicPacket { macs, dests, port } => macs.len() == 1 && may_wake(
            plugins,
            macs[0],
            dests,
            port,
        ),
        EffectView::ClipboardWrite { .. } => may_paste(plugins),
        EffectView::MediaControl { action: MediaAction::SetVolume { percent }, .. } => percent
            <= 100,
        _ => true,
    }
}

/// A file that a person has agreed to receive: our number for it, the number of the
/// peer that offers it, and how long it is to be.
pub struct Grant {
    pub transfer: u64,
    pub offered_as: u64,
    pub expect_bytes: u64,
}

/// Whether an action is one that a core may ask for, where `granted` is what a person
/// has just agreed to receive: it listens for nothing else.
pub open spec fn fair(plugins: Seq<Registered>, granted: Set<Grant>, a: ActionView) -> bool {
    match a {
        ActionView::Effect { effect, .. } => fair_effect(plugins, effect),
        ActionView::BulkListen { transfer, offered_as, expect_bytes, .. } => granted.contains(
            Grant { transfer, offered_as, expect_bytes },
        ),
        _ => true,
    }
}

/// Whether every action of a list is one that a core may ask for.
pub open spec fn clean(plugins: Seq<Registered>, granted: Set<Grant>, out: Out) -> bool {
    forall|i: int| 0 <= i < out.len() ==> fair(plugins, granted, #[trigger] out[i])
}

/// The same of what plugins wish for.
pub open spec fn clean_wishes(
    plugins: Seq<Registered>,
    granted: Set<Grant>,
    cx: CxView,
) -> bool {
    &&& forall|i: int|
        0 <= i < cx.effects.len() ==> fair_effect(plugins, (#[trigger] cx.effects[i]).1)
    &&& forall|i: int|
        0 <= i < cx.bulk.len() ==> (#[trigger] cx.bulk[i] matches BulkView::Listen {
            transfer,
            offered_as,
            expect_bytes,
            ..
        } ==> granted.contains(Grant { transfer, offered_as, expect_bytes }))
}

/// What a person agrees to receive by what the plugins are told: the file they name,
/// where a peer has offered it.
pub open spec fn grants(plugins: Seq<Registered>, told: Told) -> Set<Grant> {
    Set::new(
        |g: Grant|
            told matches Told::Local { ty, body, .. } && ty == "accept"@ && (value_of::<Finished>(
                body,
            ) matches Some(f) && f.transfer == g.transfer) && offered(plugins, g),
    )
}

/// Whether a peer has offered a file.
pub open spec fn offered(plugins: Seq<Registered>, g: Grant) -> bool {
    exists|i: int|
        0 <= i < plugins.len() && ((#[trigger] plugins[i]).plugin matches Stock::Share(p)
            && p@.offered.dom().contains(g.transfer) && p@.offered[g.transfer].offered_as
            == g.offered_as && p@.offered[g.transfer].offer.size == g.expect_bytes)
}

/// What a person agrees to receive by an event.
pub open spec fn granted_by(plugins: Seq<Registered>, ev: Event) -> Set<Grant> {
    match ev {
        Event::Local(LocalCommand::Plugin { peer, cap, ty, body }) => grants(
            plugins,
            Told::Local { peer: peer@, ty: ty@, body: body@ },
        ),
        _ => Set::empty(),
    }
}

/// Whether two plugins are of a kind, and made alike: with the same list of commands,
/// the same machines to wake, the same clipboard directions.
pub open spec fn made_alike(a: Stock, b: Stock) -> bool {
    &&& a.kind() == b.kind()
    &&& match (a, b) {
        (Stock::Command(x), Stock::Command(y)) => x@.catalog == y@.catalog,
        (Stock::Wol(x), Stock::Wol(y)) => x@.allowlist == y@.allowlist && x@.config == y@.config,
        (Stock::Clipboard(x), Stock::Clipboard(y)) => x@.directions == y@.directions,
        _ => true,
    }
}

/// Whether the plugins of two cores are, one by one.
pub open spec fn all_made_alike(a: Seq<Registered>, b: Seq<Registered>) -> bool {
    &&& a.len() == b.len()
    &&& forall|i: int|
        #![trigger a[i]]
        #![trigger b[i]]
        0 <= i < a.len() ==> made_alike(a[i].plugin, b[i].plugin)
}

// ------------------------------------------------------------------ plugin by plugin

proof fn a_round_only_sends(
    cx: CxView,
    list: Seq<Seq<char>>,
    except: Option<Seq<char>>,
    cap: Seq<char>,
    ty: Seq<char>,
    body: Seq<u8>,
)
    ensures
        sent_round(cx, list, except, cap, ty, body).effects == cx.effects,
        sent_round(cx, list, except, cap, ty, body).bulk == cx.bulk,
    decreases list.len(),
{
    if list.len() > 0 {
        a_round_only_sends(cx, list.drop_last(), except, cap, ty, body);
    }
}

proof fn ping_asks_fairly(
    p: PingPlugin,
    all: Seq<Registered>,
    granted: Set<Grant>,
    told: Told,
    cx: CxView,
    after: CxView,
    r: Result<(), FaultView>,
    next: Memory,
)
    requires
        p.may(told, cx, after, r, next),
        clean_wishes(all, granted, cx),
    ensures
        clean_wishes(all, granted, after),
{
}

proof fn session_asks_fairly(
    p: SessionPlugin,
    all: Seq<Registered>,
    granted: Set<Grant>,
    told: Told,
    cx: CxView,
    after: CxView,
    r: Result<(), FaultView>,
    next: Memory,
)
    requires
        p.may(told, cx, after, r, next),
        clean_wishes(all, granted, cx),
    ensures
        clean_wishes(all, granted, after),
{
    match told {
        Told::Answer { token, result } => {
            if p@.pending.dom().contains(token) {
                let who = p@.pending[token];
                match result {
                    ResultView::Done(bytes) => {
                        match value_of::<SessionState>(bytes) {
                            Some(state) => {
                                let item = <SessionState as Body>::item(
                                    state,
                                );
                                let cap = crate::plugins::session::CAP@;
                                a_round_only_sends(cx, p@.connected, None, cap, "state"@, item);
                                a_round_only_sends(
                                    cx,
                                    p@.connected,
                                    Some(who.peer),
                                    cap,
                                    "state"@,
                                    item,
                                );
                            },
                            None => {},
                        }
                    },
                    _ => {},
                }
            }
        },
        _ => {},
    }
}

proof fn wol_asks_fairly(
    p: WolPlugin,
    all: Seq<Registered>,
    i: int,
    granted: Set<Grant>,
    told: Told,
    cx: CxView,
    after: CxView,
    r: Result<(), FaultView>,
    next: Memory,
)
    requires
        0 <= i < all.len(),
        made_alike(all[i].plugin, Stock::Wol(p)),
        p.may(told, cx, after, r, next),
        clean_wishes(all, granted, cx),
    ensures
        clean_wishes(all, granted, after),
        next matches Memory::Wol(v) && v.allowlist == p@.allowlist && v.config == p@.config,
{
    match told {
        Told::Message { peer, env } => {
            let end = crate::plugins::wol::message(p@, cx, peer, env.id, env.ty, env.body).1;
            crate::plugins::wol::only_allowed_machines_are_woken(
                p@,
                cx,
                peer,
                env.id,
                env.ty,
                env.body,
            );
            if end.effects != cx.effects {
                match end.effects.last().1 {
                    EffectView::SendMagicPacket { macs, dests, port } => {
                        assert(may_wake(all, macs[0], dests, port)) by {
                            assert(all[i].plugin is Wol);
                        }
                    },
                    _ => {},
                }
                assert forall|k: int| 0 <= k < end.effects.len() implies fair_effect(
                    all,
                    (#[trigger] end.effects[k]).1,
                ) by {
                    if k < cx.effects.len() {
                        assert(end.effects.drop_last()[k] == end.effects[k]);
                        assert(fair_effect(all, cx.effects[k].1));
                    }
                }
            }
        },
        _ => {},
    }
}

proof fn clipboard_asks_fairly(
    p: ClipboardPlugin,
    all: Seq<Registered>,
    i: int,
    granted: Set<Grant>,
    told: Told,
    cx: CxView,
    after: CxView,
    r: Result<(), FaultView>,
    next: Memory,
)
    requires
        0 <= i < all.len(),
        made_alike(all[i].plugin, Stock::Clipboard(p)),
        p.may(told, cx, after, r, next),
        clean_wishes(all, granted, cx),
    ensures
        clean_wishes(all, granted, after),
        next matches Memory::Clipboard(v) && v.directions == p@.directions,
{
    match told {
        Told::Local { peer, ty, body } => {
            a_round_only_sends(
                cx,
                p@.connected,
                None,
                crate::plugins::clipboard::CAP@,
                "set"@,
                crate::plugins::clipboard::set_body(body),
            );
        },
        Told::Message { peer, env } => {
            if p@.directions.receive {
                assert(may_paste(all)) by {
                    assert(all[i].plugin is Clipboard);
                }
            }
        },
        _ => {},
    }
}

proof fn command_asks_fairly(
    p: CommandPlugin,
    all: Seq<Registered>,
    i: int,
    granted: Set<Grant>,
    told: Told,
    cx: CxView,
    after: CxView,
    r: Result<(), FaultView>,
    next: Memory,
)
    requires
        0 <= i < all.len(),
        made_alike(all[i].plugin, Stock::Command(p)),
        p.may(told, cx, after, r, next),
        clean_wishes(all, granted, cx),
    ensures
        clean_wishes(all, granted, after),
        next matches Memory::Command(v) && v.catalog == p@.catalog,
{
    match told {
        Told::Message { peer, env } => {
            let end = crate::plugins::command::message(p@, cx, peer, env.id, env.ty, env.body).1;
            crate::plugins::command::only_listed_commands_reach_the_host(
                p@,
                cx,
                peer,
                env.id,
                env.ty,
                env.body,
            );
            if end.effects != cx.effects {
                match end.effects.last().1 {
                    EffectView::RunCommand { id } => {
                        assert(may_run(all, id)) by {
                            assert(all[i].plugin is Command);
                        }
                    },
                    _ => {},
                }
                assert forall|k: int| 0 <= k < end.effects.len() implies fair_effect(
                    all,
                    (#[trigger] end.effects[k]).1,
                ) by {
                    if k < cx.effects.len() {
                        assert(end.effects.drop_last()[k] == end.effects[k]);
                        assert(fair_effect(all, cx.effects[k].1));
                    }
                }
            }
        },
        _ => {},
    }
}

proof fn media_asks_fairly(
    p: MediaPlugin,
    all: Seq<Registered>,
    granted: Set<Grant>,
    told: Told,
    cx: CxView,
    after: CxView,
    r: Result<(), FaultView>,
    next: Memory,
)
    requires
        p.may(told, cx, after, r, next),
        clean_wishes(all, granted, cx),
    ensures
        clean_wishes(all, granted, after),
{
    match told {
        Told::Answer { token, result } => {
            match result {
                ResultView::Done(data) => {
                    match value_of::<MediaState>(data) {
                        Some(state) => {
                            a_round_only_sends(
                                cx,
                                p@.connected,
                                None,
                                crate::plugins::media::CAP@,
                                "state"@,
                                <MediaState as Body>::item(state),
                            );
                        },
                        None => {},
                    }
                },
                _ => {},
            }
        },
        _ => {},
    }
}

proof fn share_asks_fairly(
    p: SharePlugin,
    all: Seq<Registered>,
    plugins: Seq<Registered>,
    i: int,
    granted: Set<Grant>,
    told: Told,
    cx: CxView,
    after: CxView,
    r: Result<(), FaultView>,
    next: Memory,
)
    requires
        0 <= i < plugins.len(),
        plugins[i].plugin == Stock::Share(p),
        p.may(told, cx, after, r, next),
        clean_wishes(all, granted, cx),
        grants(plugins, told).subset_of(granted),
    ensures
        clean_wishes(all, granted, after),
{
    match told {
        Told::Local { peer, ty, body } => {
            match value_of::<Finished>(body) {
                Some(f) => {
                    if ty == "accept"@ && p@.offered.dom().contains(f.transfer) {
                        let o = p@.offered[f.transfer];
                        let g = Grant {
                            transfer: f.transfer,
                            offered_as: o.offered_as,
                            expect_bytes: o.offer.size,
                        };
                        assert(offered(plugins, g)) by {
                            assert(plugins[i].plugin is Share);
                        }
                        assert(grants(plugins, told).contains(g));
                    }
                },
                None => {},
            }
        },
        _ => {},
    }
}

proof fn touchpad_asks_fairly(
    p: TouchpadPlugin,
    all: Seq<Registered>,
    granted: Set<Grant>,
    told: Told,
    cx: CxView,
    after: CxView,
    r: Result<(), FaultView>,
    next: Memory,
)
    requires
        p.may(told, cx, after, r, next),
        clean_wishes(all, granted, cx),
    ensures
        clean_wishes(all, granted, after),
{
}

/// A plugin that every device registers wishes for nothing unfair, and stays as it was
/// made.
proof fn a_plugin_asks_fairly(
    all: Seq<Registered>,
    plugins: Seq<Registered>,
    next: Seq<Registered>,
    i: int,
    granted: Set<Grant>,
    told: Told,
    cx: CxView,
    after: CxView,
    r: Result<(), FaultView>,
)
    requires
        ours(all),
        0 <= i < all.len() == plugins.len(),
        made_alike(all[i].plugin, plugins[i].plugin),
        heeds(plugins, next, i, told, cx, after, r),
        clean_wishes(all, granted, cx),
        grants(plugins, told).subset_of(granted),
    ensures
        clean_wishes(all, granted, after),
        made_alike(all[i].plugin, next[i].plugin),
{
    let m = next[i].plugin.memory();
    assert(!(all[i].plugin is Other));
    match plugins[i].plugin {
        Stock::Ping(p) => {
            ping_asks_fairly(p, all, granted, told, cx, after, r, m);
        },
        Stock::Session(p) => {
            session_asks_fairly(p, all, granted, told, cx, after, r, m);
        },
        Stock::Wol(p) => {
            wol_asks_fairly(p, all, i, granted, told, cx, after, r, m);
        },
        Stock::Clipboard(p) => {
            clipboard_asks_fairly(p, all, i, granted, told, cx, after, r, m);
        },
        Stock::Command(p) => {
            command_asks_fairly(p, all, i, granted, told, cx, after, r, m);
        },
        Stock::Media(p) => {
            media_asks_fairly(p, all, granted, told, cx, after, r, m);
        },
        Stock::Share(p) => {
            share_asks_fairly(p, all, plugins, i, granted, told, cx, after, r, m);
        },
        Stock::Touchpad(p) => {
            touchpad_asks_fairly(p, all, granted, told, cx, after, r, m);
        },
        Stock::Other(_) => {},
    }
}


// ------------------------------------------------------- from wishes to actions

proof fn bulk_steps_are_fair<W: Wire>(
    s: State<W>,
    all: Seq<Registered>,
    granted: Set<Grant>,
    now: u64,
    cx: CxView,
    keys: Seq<Seq<u8>>,
    n: int,
    out: Out,
)
    requires
        0 <= n <= cx.bulk.len(),
        clean_wishes(all, granted, cx),
        clean(all, granted, out),
    ensures
        s.bulk_steps(now, cx.bulk, keys, n, out).0.plugins == s.plugins,
        clean(all, granted, s.bulk_steps(now, cx.bulk, keys, n, out).1),
    decreases n,
{
    if n > 0 {
        bulk_steps_are_fair(s, all, granted, now, cx, keys, n - 1, out);
        match cx.bulk[n - 1] {
            BulkView::Listen { transfer, offered_as, expect_bytes, .. } => {
                assert(granted.contains(Grant { transfer, offered_as, expect_bytes }));
            },
            _ => {},
        }
    }
}

proof fn send_step_is_fair<W: Wire>(
    s: State<W>,
    all: Seq<Registered>,
    granted: Set<Grant>,
    m: SendView,
    sealed: Sealed,
    out: Out,
)
    requires
        clean(all, granted, out),
    ensures
        s.send_step(m, sealed, out).0.plugins == s.plugins,
        clean(all, granted, s.send_step(m, sealed, out).1),
{
}

proof fn send_steps_are_fair<W: Wire>(
    s: State<W>,
    all: Seq<Registered>,
    granted: Set<Grant>,
    list: Seq<SendView>,
    sealed: Seq<Sealed>,
    n: int,
    out: Out,
)
    requires
        clean(all, granted, out),
    ensures
        s.send_steps(list, sealed, n, out).0.plugins == s.plugins,
        clean(all, granted, s.send_steps(list, sealed, n, out).1),
    decreases n,
{
    if n > 0 {
        send_steps_are_fair(s, all, granted, list, sealed, n - 1, out);
        let (mid, o) = s.send_steps(list, sealed, n - 1, out);
        send_step_is_fair(mid, all, granted, list[n - 1], sealed[n - 1], o);
    }
}

proof fn drained_is_fair<W: Wire>(
    s: State<W>,
    all: Seq<Registered>,
    granted: Set<Grant>,
    now: u64,
    idx: Option<usize>,
    cx: CxView,
    out: Out,
    s2: State<W>,
    out2: Out,
)
    requires
        s.drained(now, idx, cx, out, s2, out2),
        clean_wishes(all, granted, cx),
        clean(all, granted, out),
    ensures
        s2.plugins == s.plugins,
        clean(all, granted, out2),
{
    let (keys, sealed) = choose|keys: Seq<Seq<u8>>, sealed: Seq<Sealed>|
        #![trigger s.remember(idx, cx).drain(now, cx, keys, sealed, out)]
        s.remember(idx, cx).answers_fit(now, cx, keys, sealed, out) && (s2, out2) == s.remember(
            idx,
            cx,
        ).drain(now, cx, keys, sealed, out);
    let r = s.remember(idx, cx);
    let shown = out + shows(cx);
    assert forall|i: int| 0 <= i < shown.len() implies fair(all, granted, #[trigger] shown[i]) by {
        if i >= out.len() + cx.ui.len() {
            let k = i - out.len() - cx.ui.len();
            assert(fair_effect(all, cx.effects[k].1));
        }
    }
    bulk_steps_are_fair(r, all, granted, now, cx, keys, cx.bulk.len() as int, shown);
    let (b, o) = r.bulk_steps(now, cx.bulk, keys, cx.bulk.len() as int, shown);
    send_steps_are_fair(b, all, granted, cx.sends, sealed, cx.sends.len() as int, o);
}

/// Telling one plugin something asks for nothing unfair.
proof fn one_told_is_fair<W: Wire>(
    s: State<W>,
    all: Seq<Registered>,
    granted: Set<Grant>,
    now: u64,
    idx: usize,
    told: Told,
    bulk: Option<BulkSupport>,
    r: Result<(), FaultView>,
    out: Out,
    s2: State<W>,
    out2: Out,
)
    requires
        ours(all),
        all_made_alike(all, s.plugins),
        s.told_one(now, idx, told, bulk, r, out, s2, out2),
        grants(s.plugins, told).subset_of(granted),
        clean(all, granted, out),
    ensures
        all_made_alike(all, s2.plugins),
        clean(all, granted, out2),
{
    let handed = s.context(now, bulk);
    let (cx, plugins) = choose|cx: CxView, plugins: Seq<Registered>|
        #![trigger s.with_plugins(plugins).drained(now, Some(idx), cx, out, s2, out2)]
        s.one_heard(idx, told, handed, cx, r, plugins) && s.with_plugins(plugins).drained(
            now,
            Some(idx),
            cx,
            out,
            s2,
            out2,
        );
    if idx < s.plugins.len() {
        assert(made_alike(all[idx as int].plugin, s.plugins[idx as int].plugin));
        a_plugin_asks_fairly(all, s.plugins, plugins, idx as int, granted, told, handed, cx, r);
    }
    assert forall|k: int|
        #![trigger all[k]]
        #![trigger plugins[k]]
        0 <= k < all.len() implies made_alike(all[k].plugin, plugins[k].plugin) by {
        if k != idx {
            assert(plugins[k] == s.plugins[k]);
        }
    }
    drained_is_fair(s.with_plugins(plugins), all, granted, now, Some(idx), cx, out, s2, out2);
}

proof fn rounds_are_fair(
    all: Seq<Registered>,
    plugins: Seq<Registered>,
    next: Seq<Registered>,
    granted: Set<Grant>,
    told: Told,
    trace: Seq<CxView>,
    n: int,
)
    requires
        ours(all),
        all_made_alike(all, plugins),
        rounds(plugins, next, told, trace),
        0 <= n <= plugins.len(),
        !(told is Local),
        clean_wishes(all, granted, trace[0]),
    ensures
        clean_wishes(all, granted, trace[n]),
        forall|k: int| 0 <= k < n ==> made_alike(all[k].plugin, (#[trigger] next[k]).plugin),
    decreases n,
{
    if n > 0 {
        rounds_are_fair(all, plugins, next, granted, told, trace, n - 1);
        assert(round(plugins, next, told, trace, n - 1));
        assert(made_alike(all[n - 1].plugin, plugins[n - 1].plugin));
        a_plugin_asks_fairly(
            all,
            plugins,
            next,
            n - 1,
            granted,
            told,
            trace[n - 1],
            trace[n],
            Ok(()),
        );
    }
}

/// Telling every plugin something asks for nothing unfair.
proof fn all_told_is_fair<W: Wire>(
    s: State<W>,
    all: Seq<Registered>,
    granted: Set<Grant>,
    now: u64,
    told: Told,
    out: Out,
    s2: State<W>,
    out2: Out,
)
    requires
        ours(all),
        all_made_alike(all, s.plugins),
        s.told_all(now, told, out, s2, out2),
        !(told is Local),
        clean(all, granted, out),
    ensures
        all_made_alike(all, s2.plugins),
        clean(all, granted, out2),
{
    let (cx, plugins) = choose|cx: CxView, plugins: Seq<Registered>|
        #![trigger s.with_plugins(plugins).drained(now, None, cx, out, s2, out2)]
        plugins.len() == s.plugins.len() && s.all_heard(told, s.context(now, None), cx, plugins)
            && s.with_plugins(plugins).drained(now, None, cx, out, s2, out2);
    let n = s.plugins.len() as int;
    let trace = choose|trace: Seq<CxView>|
        #[trigger] rounds(s.plugins, plugins, told, trace) && trace[0] == s.context(now, None)
            && trace[n] == cx;
    rounds_are_fair(all, s.plugins, plugins, granted, told, trace, n);
    drained_is_fair(s.with_plugins(plugins), all, granted, now, None, cx, out, s2, out2);
}

proof fn ends_fairly<W: Wire>(
    s: State<W>,
    all: Seq<Registered>,
    granted: Set<Grant>,
    out: Out,
    news: Option<Told>,
    now: u64,
    s2: State<W>,
    out2: Out,
)
    requires
        ours(all),
        all_made_alike(all, s.plugins),
        ends(s, out, news, now, s2, out2),
        news matches Some(told) ==> !(told is Local),
        clean(all, granted, out),
    ensures
        all_made_alike(all, s2.plugins),
        clean(all, granted, out2),
{
    if news is Some {
        all_told_is_fair(s, all, granted, now, news->Some_0, out, s2, out2);
    }
}


// --------------------------------------------------- steps that tell plugins nothing

proof fn connecting_is_calm<W: Wire>(
    s: State<W>,
    all: Seq<Registered>,
    granted: Set<Grant>,
    now: u64,
    peer: Seq<char>,
    by_hand: bool,
    out: Out,
)
    requires
        clean(all, granted, out),
    ensures
        s.connect_peer(now, peer, by_hand, out).0.plugins == s.plugins,
        clean(all, granted, s.connect_peer(now, peer, by_hand, out).1),
{
}

proof fn connecting_all_is_calm<W: Wire>(
    s: State<W>,
    all: Seq<Registered>,
    granted: Set<Grant>,
    now: u64,
    peers: Seq<Seq<char>>,
    n: int,
    out: Out,
)
    requires
        clean(all, granted, out),
    ensures
        s.connect_all(now, peers, n, out).0.plugins == s.plugins,
        clean(all, granted, s.connect_all(now, peers, n, out).1),
    decreases n,
{
    if n > 0 {
        connecting_all_is_calm(s, all, granted, now, peers, n - 1, out);
        let (mid, o) = s.connect_all(now, peers, n - 1, out);
        connecting_is_calm(mid, all, granted, now, peers[n - 1], false, o);
    }
}

proof fn sighting_is_calm<W: Wire>(
    s: State<W>,
    all: Seq<Registered>,
    granted: Set<Grant>,
    now: u64,
    transport: u16,
    fp: Option<Seq<char>>,
    name: Seq<char>,
    addr: Seq<char>,
    pairing: bool,
    out: Out,
)
    requires
        clean(all, granted, out),
    ensures
        s.discovered(now, transport, fp, name, addr, pairing, out).0.plugins == s.plugins,
        clean(all, granted, s.discovered(now, transport, fp, name, addr, pairing, out).1),
{
    if fp is Some {
        let seen = s.sight(fp->Some_0, transport, name, addr, pairing);
        if seen.peer_with(fp->Some_0) is Some {
            let id = seen.peer_with(fp->Some_0)->Some_0;
            let noted = seen.note_addr(id, transport, addr);
            connecting_is_calm(noted, all, granted, now, id, false, out);
        }
    }
}

proof fn withdrawing_is_calm<W: Wire>(
    s: State<W>,
    all: Seq<Registered>,
    granted: Set<Grant>,
    gone: Seq<Seq<char>>,
    n: int,
    out: Out,
)
    requires
        clean(all, granted, out),
    ensures
        clean(all, granted, s.withdraw(gone, n, out)),
    decreases n,
{
    if n > 0 {
        withdrawing_is_calm(s, all, granted, gone, n - 1, out);
    }
}

proof fn linking_is_calm<W: Wire>(
    s: State<W>,
    all: Seq<Registered>,
    granted: Set<Grant>,
    now: u64,
    link: u64,
    attrs: LinkAttrs,
    dial: Option<u64>,
    said: Said,
    out: Out,
)
    requires
        clean(all, granted, out),
    ensures
        s.link_up(now, link, attrs, dial, said, out).0.plugins == s.plugins,
        clean(all, granted, s.link_up(now, link, attrs, dial, said, out).1),
{
}

proof fn finishing_is_calm<W: Wire>(
    s: State<W>,
    all: Seq<Registered>,
    granted: Set<Grant>,
    now: u64,
    link: u64,
    attrs: LinkAttrs,
    peer: Seq<char>,
    made: Made,
    out: Out,
)
    requires
        clean(all, granted, out),
    ensures
        s.finish_session(now, link, attrs, peer, made, out).0.plugins == s.plugins,
        clean(all, granted, s.finish_session(now, link, attrs, peer, made, out).1),
{
}

proof fn opening_is_calm<W: Wire>(
    s: State<W>,
    all: Seq<Registered>,
    granted: Set<Grant>,
    now: u64,
    link: u64,
    attrs: LinkAttrs,
    opener: Opener,
    out: Out,
)
    requires
        clean(all, granted, out),
    ensures
        s.session_opener(now, link, attrs, opener, out).0.plugins == s.plugins,
        clean(all, granted, s.session_opener(now, link, attrs, opener, out).1),
{
    match opener {
        Opener::Read(id, heard, reply) => {
            let (mid, o, fresh) = s.accept_hello(id, heard, out);
            match reply {
                Reply::Message(msg, made) => {
                    let sent = o.push(ActionView::LinkSend { link, msg });
                    finishing_is_calm(mid, all, granted, now, link, attrs, id, made, sent);
                },
                _ => {},
            }
        },
        _ => {},
    }
}

proof fn first_frames_are_calm<W: Wire>(
    s: State<W>,
    all: Seq<Registered>,
    granted: Set<Grant>,
    now: u64,
    link: u64,
    attrs: LinkAttrs,
    deadline: u64,
    kind: FrameKind,
    greeted: Greeted,
    opener: Opener,
    out: Out,
)
    requires
        clean(all, granted, out),
    ensures
        s.first_frame(now, link, attrs, deadline, kind, greeted, opener, out).0.plugins == s.plugins,
        clean(all, granted, s.first_frame(now, link, attrs, deadline, kind, greeted, opener, out).1),
{
    opening_is_calm(s, all, granted, now, link, attrs, opener, out);
}

proof fn completing_is_calm<W: Wire>(
    s: State<W>,
    all: Seq<Registered>,
    granted: Set<Grant>,
    now: u64,
    link: u64,
    h: ShakingV,
    end: End,
    out: Out,
)
    requires
        clean(all, granted, out),
    ensures
        s.handshake_end(now, link, h, end, out).0.plugins == s.plugins,
        clean(all, granted, s.handshake_end(now, link, h, end, out).1),
{
    match (h.expect, end) {
        (Some(peer), End::Session(heard, made)) => {
            let (mid, o, fresh) = s.accept_hello(peer, heard, out);
            finishing_is_calm(mid, all, granted, now, link, h.attrs, peer, made, o);
        },
        _ => {},
    }
}

proof fn shaking_hands_is_calm<W: Wire>(
    s: State<W>,
    all: Seq<Registered>,
    granted: Set<Grant>,
    now: u64,
    link: u64,
    h: ShakingV,
    kind: FrameKind,
    turn: Turn,
    out: Out,
)
    requires
        clean(all, granted, out),
    ensures
        s.handshake_frame(now, link, h, kind, turn, out).0.plugins == s.plugins,
        clean(all, granted, s.handshake_frame(now, link, h, kind, turn, out).1),
{
    match turn {
        Turn::Went(said, hs, end) => {
            let o = match said {
                Some(msg) => out.push(ActionView::LinkSend { link, msg }),
                None => out,
            };
            completing_is_calm(s, all, granted, now, link, h, end, o);
        },
        _ => {},
    }
}

proof fn hanging_up_is_calm<W: Wire>(
    s: State<W>,
    all: Seq<Registered>,
    granted: Set<Grant>,
    now: u64,
    link: u64,
    out: Out,
)
    requires
        clean(all, granted, out),
    ensures
        s.link_down(now, link, out).0.plugins == s.plugins,
        clean(all, granted, s.link_down(now, link, out).1),
{
}

proof fn dropping_all_is_calm<W: Wire>(
    s: State<W>,
    all: Seq<Registered>,
    granted: Set<Grant>,
    now: u64,
    links: Seq<u64>,
    n: int,
    out: Out,
)
    requires
        clean(all, granted, out),
    ensures
        s.drop_all_stale(now, links, n, out).0.plugins == s.plugins,
        clean(all, granted, s.drop_all_stale(now, links, n, out).1),
    decreases n,
{
    if n > 0 {
        dropping_all_is_calm(s, all, granted, now, links, n - 1, out);
    }
}

proof fn expiring_all_is_calm<W: Wire>(
    s: State<W>,
    all: Seq<Registered>,
    granted: Set<Grant>,
    now: u64,
    dials: Seq<u64>,
    n: int,
    out: Out,
)
    requires
        clean(all, granted, out),
    ensures
        s.expire_all(now, dials, n, out).0.plugins == s.plugins,
        clean(all, granted, s.expire_all(now, dials, n, out).1),
    decreases n,
{
    if n > 0 {
        expiring_all_is_calm(s, all, granted, now, dials, n - 1, out);
    }
}

proof fn tidying_is_calm<W: Wire>(
    s: State<W>,
    all: Seq<Registered>,
    granted: Set<Grant>,
    now: u64,
    out: Out,
)
    requires
        clean(all, granted, out),
    ensures
        s.tidy(now, out).0.plugins == s.plugins,
        clean(all, granted, s.tidy(now, out).1),
{
    let stale = s.stale_links(now);
    dropping_all_is_calm(s, all, granted, now, stale, stale.len() as int, out);
    let (s1, o1) = s.drop_all_stale(now, stale, stale.len() as int, out);
    let expired = s1.expired_dials(now);
    expiring_all_is_calm(s1, all, granted, now, expired, expired.len() as int, o1);
    let (s2, o2) = s1.expire_all(now, expired, expired.len() as int, o1);
    let t = State { reconnect_at: Some((now + s2.config.reconnect_every_ms) as u64), ..s2 };
    let list = t.waiting();
    connecting_all_is_calm(t, all, granted, now, list, list.len() as int, o2);
}

// ------------------------------------------------------------- steps that tell them

proof fn messages_are_fair<W: Wire>(
    s: State<W>,
    all: Seq<Registered>,
    granted: Set<Grant>,
    now: u64,
    u: UpV,
    env: EnvelopeView,
    out: Out,
    s2: State<W>,
    out2: Out,
)
    requires
        ours(all),
        all_made_alike(all, s.plugins),
        s.message(now, u, env, out, s2, out2),
        clean(all, granted, out),
    ensures
        all_made_alike(all, s2.plugins),
        clean(all, granted, out2),
{
    let idx = handler(s.manifests, env.cap, s.manifests.len() as int);
    let answer = error_answer(u.peer, env.cap, env.id, ErrorCode::CapNotNegotiated);
    if !u.can_recv.contains(env.cap) || (env.ty != "err"@ && idx is None) {
        let sealed = choose|sealed: Sealed|
            (s2, out2) == #[trigger] s.send_step(answer, sealed, out) && s.seal_fits(
                answer,
                sealed,
            );
        send_step_is_fair(s, all, granted, answer, sealed, out);
    } else if env.ty != "err"@ {
        let i = idx->Some_0;
        let told = Told::Message { peer: u.peer, env };
        let bulk = s.bulk_for(u.peer);
        let (fault, mid, out1, sealed) = choose|
            fault: Option<FaultView>,
            mid: State<W>,
            out1: Out,
            sealed: Sealed,
        |
            #![trigger s.told_one(now, i, told, bulk, verdict(fault), out, mid, out1), answered(fault, mid, out1, sealed, u.peer, env.cap, env.id)]
            s.told_one(now, i, told, bulk, verdict(fault), out, mid, out1) && (s2, out2)
                == answered(fault, mid, out1, sealed, u.peer, env.cap, env.id) && (fault matches Some(
                f,
            ) ==> mid.seal_fits(error_answer(u.peer, env.cap, env.id, f.code()), sealed));
        one_told_is_fair(s, all, granted, now, i, told, bulk, verdict(fault), out, mid, out1);
        if fault is Some {
            let refusal = error_answer(u.peer, env.cap, env.id, fault->Some_0.code());
            send_step_is_fair(mid, all, granted, refusal, sealed, out1);
        }
    }
}

proof fn frames_are_fair<W: Wire>(
    s: State<W>,
    all: Seq<Registered>,
    granted: Set<Grant>,
    now: u64,
    link: u64,
    u: UpV,
    kind: FrameKind,
    opened: Opened,
    out: Out,
    s2: State<W>,
    out2: Out,
)
    requires
        ours(all),
        all_made_alike(all, s.plugins),
        s.transport_frame(now, link, u, kind, opened, out, s2, out2),
        clean(all, granted, out),
    ensures
        all_made_alike(all, s2.plugins),
        clean(all, granted, out2),
{
    let detail = match opened {
        Opened::Sealed(words) if kind == FrameKind::Transport => words,
        _ => "handshake frame on an established link"@,
    };
    let back = s.with_link(link, LinkV::Up(u));
    let o = out.push(
        ActionView::Close { link, reason: ReasonView::Protocol(ErrorCode::NotAllowed) },
    );
    let o = error(o, Some(u.peer), ErrorCode::NotAllowed, detail);
    hanging_up_is_calm(back, all, granted, now, link, o);
    let (s1, o1, gone) = back.link_down(now, link, o);
    if kind != FrameKind::Transport || opened is Sealed {
        ends_fairly(s1, all, granted, o1, left(gone), now, s2, out2);
    } else {
        match opened {
            Opened::Message(env) => {
                let heard = s.heard_from(now, link, u);
                messages_are_fair(heard, all, granted, now, u, env, out, s2, out2);
            },
            _ => {},
        }
    }
}

proof fn receiving_is_fair<W: Wire>(
    s: State<W>,
    all: Seq<Registered>,
    granted: Set<Grant>,
    now: u64,
    link: u64,
    msg: Seq<u8>,
    frame: Option<(FrameKind, Seq<u8>)>,
    greeted: Greeted,
    opener: Opener,
    turn: Turn,
    opened: Opened,
    out: Out,
    s2: State<W>,
    out2: Out,
)
    requires
        ours(all),
        all_made_alike(all, s.plugins),
        s.received(now, link, msg, frame, greeted, opener, turn, opened, out, s2, out2),
        clean(all, granted, out),
    ensures
        all_made_alike(all, s2.plugins),
        clean(all, granted, out2),
{
    match frame {
        None => {},
        Some((kind, body)) => {
            if s.links.dom().contains(link) {
                let less = s.without_link(link);
                match s.links[link] {
                    LinkV::Pending { attrs, deadline } => {
                        first_frames_are_calm(
                            less,
                            all,
                            granted,
                            now,
                            link,
                            attrs,
                            deadline,
                            kind,
                            greeted,
                            opener,
                            out,
                        );
                        let (s1, o, news) = less.first_frame(
                            now,
                            link,
                            attrs,
                            deadline,
                            kind,
                            greeted,
                            opener,
                            out,
                        );
                        ends_fairly(s1, all, granted, o, news, now, s2, out2);
                    },
                    LinkV::Handshaking(h) => {
                        shaking_hands_is_calm(less, all, granted, now, link, h, kind, turn, out);
                        let (s1, o, news) = less.handshake_frame(now, link, h, kind, turn, out);
                        ends_fairly(s1, all, granted, o, news, now, s2, out2);
                    },
                    LinkV::Up(u) => {
                        frames_are_fair(
                            less,
                            all,
                            granted,
                            now,
                            link,
                            u,
                            kind,
                            opened,
                            out,
                            s2,
                            out2,
                        );
                    },
                }
            }
        },
    }
}

proof fn owners_are_told_fairly<W: Wire>(
    s: State<W>,
    all: Seq<Registered>,
    granted: Set<Grant>,
    now: u64,
    transfer: u64,
    told: Told,
    out: Out,
    s2: State<W>,
    out2: Out,
)
    requires
        ours(all),
        all_made_alike(all, s.plugins),
        s.owner_told(now, transfer, told, out, s2, out2),
        !(told is Local),
        clean(all, granted, out),
    ensures
        all_made_alike(all, s2.plugins),
        clean(all, granted, out2),
{
    if s.bulk_owner.dom().contains(transfer) {
        let idx = s.bulk_owner[transfer];
        one_told_is_fair(s, all, granted, now, idx, told, None, Ok(()), out, s2, out2);
    }
}

proof fn giving_up_is_fair<W: Wire>(
    s: State<W>,
    all: Seq<Registered>,
    granted: Set<Grant>,
    now: u64,
    transfer: u64,
    out: Out,
    s2: State<W>,
    out2: Out,
)
    requires
        ours(all),
        all_made_alike(all, s.plugins),
        s.gave_up(now, transfer, out, s2, out2),
        clean(all, granted, out),
    ensures
        all_made_alike(all, s2.plugins),
        clean(all, granted, out2),
{
    let t = State { bulk_wait: s.bulk_wait.remove(transfer), ..s };
    let o = out.push(ActionView::BulkCancel { transfer });
    let told = Told::Finished { transfer, ok: false, detail: "the sender never connected"@ };
    let mid = choose|mid: State<W>|
        #![trigger t.owner_told(now, transfer, told, o, mid, out2)]
        t.owner_told(now, transfer, told, o, mid, out2) && s2 == (State {
            bulk_owner: mid.bulk_owner.remove(transfer),
            ..mid
        });
    owners_are_told_fairly(t, all, granted, now, transfer, told, o, mid, out2);
}

proof fn giving_up_all_is_fair<W: Wire>(
    all: Seq<Registered>,
    granted: Set<Grant>,
    now: u64,
    list: Seq<u64>,
    trace: Seq<(State<W>, Out)>,
    n: int,
)
    requires
        ours(all),
        give_up_trace(now, list, trace),
        0 <= n <= list.len(),
        all_made_alike(all, trace[0].0.plugins),
        clean(all, granted, trace[0].1),
    ensures
        all_made_alike(all, trace[n].0.plugins),
        clean(all, granted, trace[n].1),
    decreases n,
{
    if n > 0 {
        giving_up_all_is_fair(all, granted, now, list, trace, n - 1);
        let (s, o) = trace[n - 1];
        giving_up_is_fair(s, all, granted, now, list[n - 1], o, trace[n].0, trace[n].1);
    }
}

proof fn closing_all_is_fair<W: Wire>(
    all: Seq<Registered>,
    granted: Set<Grant>,
    now: u64,
    links: Seq<u64>,
    reason: ReasonView,
    trace: Seq<(State<W>, Out)>,
    n: int,
)
    requires
        ours(all),
        close_trace(now, links, reason, trace),
        0 <= n <= links.len(),
        all_made_alike(all, trace[0].0.plugins),
        clean(all, granted, trace[0].1),
    ensures
        all_made_alike(all, trace[n].0.plugins),
        clean(all, granted, trace[n].1),
    decreases n,
{
    if n > 0 {
        closing_all_is_fair(all, granted, now, links, reason, trace, n - 1);
        let (s, before) = trace[n - 1];
        let link = links[n - 1];
        let o = before.push(ActionView::Close { link, reason });
        hanging_up_is_calm(s, all, granted, now, link, o);
        let (s1, o1, gone) = s.link_down(now, link, o);
        ends_fairly(s1, all, granted, o1, left(gone), now, trace[n].0, trace[n].1);
    }
}

proof fn closing_down_is_fair<W: Wire>(
    s: State<W>,
    all: Seq<Registered>,
    granted: Set<Grant>,
    now: u64,
    links: Seq<u64>,
    reason: ReasonView,
    out: Out,
    s2: State<W>,
    out2: Out,
)
    requires
        ours(all),
        all_made_alike(all, s.plugins),
        s.closed_down(now, links, reason, out, s2, out2),
        clean(all, granted, out),
    ensures
        all_made_alike(all, s2.plugins),
        clean(all, granted, out2),
{
    let trace = choose|trace: Seq<(State<W>, Out)>|
        #[trigger] close_trace(now, links, reason, trace) && trace[0] == (s, out)
            && trace[links.len() as int] == (s2, out2);
    closing_all_is_fair(all, granted, now, links, reason, trace, links.len() as int);
}

proof fn revoking_is_fair<W: Wire>(
    s: State<W>,
    all: Seq<Registered>,
    granted: Set<Grant>,
    now: u64,
    peer: Seq<char>,
    out: Out,
    s2: State<W>,
    out2: Out,
)
    requires
        ours(all),
        all_made_alike(all, s.plugins),
        s.revoked(now, peer, out, s2, out2),
        clean(all, granted, out),
    ensures
        all_made_alike(all, s2.plugins),
        clean(all, granted, out2),
{
    let t = s.without_peer(peer);
    let list = t.links_to(peer);
    let reason = ReasonView::Protocol(ErrorCode::NotPaired);
    let o = choose|o: Out|
        #![trigger t.closed_down(now, list, reason, unkeep(peer, out), s2, o)]
        t.closed_down(now, list, reason, unkeep(peer, out), s2, o) && out2
            == if s.peers.dom().contains(peer) {
            s2.announce(
                s.peers[peer].fingerprint,
                ui(o, UiView::Revoked { peer }),
            )
        } else {
            ui(o, UiView::Revoked { peer })
        };
    closing_down_is_fair(t, all, granted, now, list, reason, unkeep(peer, out), s2, o);
}

proof fn ticking_is_fair<W: Wire>(
    s: State<W>,
    all: Seq<Registered>,
    granted: Set<Grant>,
    now: u64,
    out: Out,
    s2: State<W>,
    out2: Out,
)
    requires
        ours(all),
        all_made_alike(all, s.plugins),
        s.ticked(now, out, s2, out2),
        clean(all, granted, out),
    ensures
        all_made_alike(all, s2.plugins),
        clean(all, granted, out2),
{
    let (s1, o1) = s.lapse_pairing(now, out);
    let list = s1.overdue(now);
    let (mid, om) = choose|mid: State<W>, o2: Out|
        #![trigger s1.gave_up_all(now, list, o1, mid, o2)]
        s1.gave_up_all(now, list, o1, mid, o2) && {
            let (t, o3) = mid.tidy(now, o2);
            t.woke(now, o3, s2, out2)
        };
    let trace = choose|trace: Seq<(State<W>, Out)>|
        #[trigger] give_up_trace(now, list, trace) && trace[0] == (s1, o1)
            && trace[list.len() as int] == (mid, om);
    giving_up_all_is_fair(all, granted, now, list, trace, list.len() as int);
    tidying_is_calm(mid, all, granted, now, om);
    let (t, o3) = mid.tidy(now, om);
    if t.plugin_wake is Some && now >= t.plugin_wake->Some_0 {
        let w = State { plugin_wake: None, ..t };
        all_told_is_fair(w, all, granted, now, Told::Tick, o3, s2, out2);
    }
}

proof fn commanding_is_fair<W: Wire>(
    s: State<W>,
    all: Seq<Registered>,
    granted: Set<Grant>,
    now: u64,
    cmd: LocalCommand,
    out: Out,
    s2: State<W>,
    out2: Out,
)
    requires
        ours(all),
        all_made_alike(all, s.plugins),
        s.commanded(now, cmd, out, s2, out2),
        granted_by(s.plugins, Event::Local(cmd)).subset_of(granted),
        clean(all, granted, out),
    ensures
        all_made_alike(all, s2.plugins),
        clean(all, granted, out2),
{
    match cmd {
        LocalCommand::Connect { peer } => {
            connecting_is_calm(s, all, granted, now, peer@, true, out);
        },
        LocalCommand::ReconsiderRoutes => {
            let list = ascending::<String>(s.peers.dom());
            connecting_all_is_calm(s, all, granted, now, list, list.len() as int, out);
        },
        LocalCommand::Disconnect { peer } => {
            let list = s.links_to(peer@);
            closing_down_is_fair(s, all, granted, now, list, ReasonView::Closed, out, s2, out2);
        },
        LocalCommand::Revoke { peer } => {
            revoking_is_fair(s, all, granted, now, peer@, out, s2, out2);
        },
        LocalCommand::Plugin { peer, cap, ty, body } => {
            match handler(s.manifests, cap@, s.manifests.len() as int) {
                None => {},
                Some(idx) => {
                    let told = Told::Local { peer: peer@, ty: ty@, body: body@ };
                    let bulk = s.bulk_for(peer@);
                    let (fault, o) = choose|fault: Option<FaultView>, o: Out|
                        #![trigger s.told_one(now, idx, told, bulk, verdict(fault), out, s2, o), complained(fault, peer@, o)]
                        s.told_one(now, idx, told, bulk, verdict(fault), out, s2, o) && out2
                            == complained(fault, peer@, o);
                    one_told_is_fair(
                        s,
                        all,
                        granted,
                        now,
                        idx,
                        told,
                        bulk,
                        verdict(fault),
                        out,
                        s2,
                        o,
                    );
                },
            }
        },
        _ => {},
    }
}

proof fn handling_is_fair<W: Wire>(
    s: State<W>,
    all: Seq<Registered>,
    now: u64,
    ev: Event,
    s2: State<W>,
    out2: Out,
)
    requires
        ours(all),
        all_made_alike(all, s.plugins),
        s.handled(now, ev, s2, out2),
    ensures
        all_made_alike(all, s2.plugins),
        clean(all, granted_by(s.plugins, ev), out2),
{
    let out: Out = Seq::empty();
    let granted = granted_by(s.plugins, ev);
    match ev {
        Event::LinkUp { link, attrs, dial } => {
            let token = token_of(dial);
            let said = choose|said: Said|
                (s2, out2) == #[trigger] s.link_up(now, link.0, attrs, token, said, out)
                    && s.said_fits(token, said);
            linking_is_calm(s, all, granted, now, link.0, attrs, token, said, out);
        },
        Event::LinkRecv { link, msg } => {
            let (frame, greeted, opener, turn, opened) = choose|
                frame: Option<(FrameKind, Seq<u8>)>,
                greeted: Greeted,
                opener: Opener,
                turn: Turn,
                opened: Opened,
            | #[trigger]
                s.received(now, link.0, msg@, frame, greeted, opener, turn, opened, out, s2, out2);
            receiving_is_fair(
                s,
                all,
                granted,
                now,
                link.0,
                msg@,
                frame,
                greeted,
                opener,
                turn,
                opened,
                out,
                s2,
                out2,
            );
        },
        Event::LinkDown { link, reason } => {
            hanging_up_is_calm(s, all, granted, now, link.0, out);
            let (s1, o, gone) = s.link_down(now, link.0, out);
            ends_fairly(s1, all, granted, o, left(gone), now, s2, out2);
        },
        Event::DialFailed { dial, reason } => {},
        Event::Discovered { transport, peer } => {
            sighting_is_calm(
                s,
                all,
                granted,
                now,
                transport.0,
                match peer.fingerprint {
                    Some(fp) => Some(fp@),
                    None => None,
                },
                peer.name@,
                peer.addr@,
                peer.pairing,
                out,
            );
        },
        Event::Undiscovered { transport, addr } => {
            let gone = s.vanished(transport.0, addr@);
            withdrawing_is_calm(s, all, granted, gone, gone.len() as int, out);
        },
        Event::Tick => {
            ticking_is_fair(s, all, granted, now, out, s2, out2);
        },
        Event::BulkListening { transfer, endpoint } => {
            let told = Told::Listening { transfer: transfer.0, endpoint: endpoint@ };
            owners_are_told_fairly(s, all, granted, now, transfer.0, told, out, s2, out2);
        },
        Event::BulkStarted { transfer } => {},
        Event::BulkFinished { transfer, ok, detail } => {
            let n = transfer.0;
            let told = Told::Finished { transfer: n, ok, detail: detail@ };
            let mid = choose|mid: State<W>|
                #![trigger s.owner_told(now, n, told, out, mid, out2)]
                s.owner_told(now, n, told, out, mid, out2) && s2 == (State {
                    bulk_owner: mid.bulk_owner.remove(n),
                    bulk_wait: mid.bulk_wait.remove(n),
                    ..mid
                });
            owners_are_told_fairly(s, all, granted, now, n, told, out, mid, out2);
        },
        Event::Local(cmd) => {
            commanding_is_fair(s, all, granted, now, cmd, out, s2, out2);
        },
        Event::EffectDone { token, result } => {
            if s.effect_owner.dom().contains(token.0) {
                let t = State { effect_owner: s.effect_owner.remove(token.0), ..s };
                let idx = s.effect_owner[token.0];
                let told = Told::Answer { token: token.0, result: result@ };
                one_told_is_fair(t, all, granted, now, idx, told, None, Ok(()), out, s2, out2);
            }
        },
    }
}


// ---------------------------------------------------------------- what holds always

/// Whatever arrives, a core keeps its plugins, each in its place and as it was made.
pub proof fn plugins_stay_as_made<W: Wire>(
    s: State<W>,
    now: u64,
    ev: Event,
    s2: State<W>,
    out2: Out,
)
    requires
        ours(s.plugins),
        s.handled(now, ev, s2, out2),
    ensures
        ours(s2.plugins),
        all_made_alike(s.plugins, s2.plugins),
{
    handling_is_fair(s, s.plugins, now, ev, s2, out2);
    assert forall|i: int| 0 <= i < s2.plugins.len() implies !(
    (#[trigger] s2.plugins[i]).plugin is Other) by {
        assert(made_alike(s.plugins[i].plugin, s2.plugins[i].plugin));
    }
}

/// Nothing is listened for until a person says yes to it, and then it is a file that
/// a peer had offered, by the number and of the length of the offer.
pub proof fn nothing_is_listened_for_unasked<W: Wire>(
    s: State<W>,
    now: u64,
    ev: Event,
    s2: State<W>,
    out2: Out,
    i: int,
)
    requires
        ours(s.plugins),
        s.handled(now, ev, s2, out2),
        0 <= i < out2.len(),
        out2[i] is BulkListen,
    ensures
        ev matches Event::Local(LocalCommand::Plugin { ty, body, .. }) && ty@ == "accept"@ && (
        value_of::<Finished>(body@) matches Some(f) && f.transfer == out2[i]->BulkListen_transfer),
        offered(
            s.plugins,
            (Grant {
                transfer: out2[i]->BulkListen_transfer,
                offered_as: out2[i]->BulkListen_offered_as,
                expect_bytes: out2[i]->BulkListen_expect_bytes,
            }),
        ),
{
    handling_is_fair(s, s.plugins, now, ev, s2, out2);
    assert(fair(s.plugins, granted_by(s.plugins, ev), out2[i]));
}

/// Whatever arrives, a host is asked to run nothing but what is on this device's own
/// list.
pub proof fn only_listed_commands_run<W: Wire>(
    s: State<W>,
    now: u64,
    ev: Event,
    s2: State<W>,
    out2: Out,
    i: int,
)
    requires
        ours(s.plugins),
        s.handled(now, ev, s2, out2),
        0 <= i < out2.len(),
    ensures
        out2[i] matches ActionView::Effect { effect: EffectView::RunCommand { id }, .. } ==> may_run(
            s.plugins,
            id,
        ),
{
    handling_is_fair(s, s.plugins, now, ev, s2, out2);
    assert(fair(s.plugins, granted_by(s.plugins, ev), out2[i]));
}

/// Whatever arrives, a host is asked to wake nothing but one machine at a time, on
/// this device's own list and at its own broadcast address.
pub proof fn only_listed_machines_are_woken<W: Wire>(
    s: State<W>,
    now: u64,
    ev: Event,
    s2: State<W>,
    out2: Out,
    i: int,
)
    requires
        ours(s.plugins),
        s.handled(now, ev, s2, out2),
        0 <= i < out2.len(),
    ensures
        out2[i] matches ActionView::Effect {
            effect: EffectView::SendMagicPacket { macs, dests, port },
            ..
        } ==> macs.len() == 1 && may_wake(s.plugins, macs[0], dests, port),
{
    handling_is_fair(s, s.plugins, now, ev, s2, out2);
    assert(fair(s.plugins, granted_by(s.plugins, ev), out2[i]));
}

/// Whatever arrives, nothing is put on the clipboard of a device that is set to take
/// nothing there.
pub proof fn only_a_willing_clipboard_is_written<W: Wire>(
    s: State<W>,
    now: u64,
    ev: Event,
    s2: State<W>,
    out2: Out,
    i: int,
)
    requires
        ours(s.plugins),
        s.handled(now, ev, s2, out2),
        0 <= i < out2.len(),
    ensures
        out2[i] matches ActionView::Effect { effect: EffectView::ClipboardWrite { .. }, .. }
            ==> may_paste(s.plugins),
{
    handling_is_fair(s, s.plugins, now, ev, s2, out2);
    assert(fair(s.plugins, granted_by(s.plugins, ev), out2[i]));
}

/// Whatever arrives, a volume that a host is asked to set is a percentage.
pub proof fn every_volume_is_a_percentage<W: Wire>(
    s: State<W>,
    now: u64,
    ev: Event,
    s2: State<W>,
    out2: Out,
    i: int,
)
    requires
        ours(s.plugins),
        s.handled(now, ev, s2, out2),
        0 <= i < out2.len(),
    ensures
        out2[i] matches ActionView::Effect {
            effect: EffectView::MediaControl { action: MediaAction::SetVolume { percent }, .. },
            ..
        } ==> percent <= 100,
{
    handling_is_fair(s, s.plugins, now, ev, s2, out2);
    assert(fair(s.plugins, granted_by(s.plugins, ev), out2[i]));
}

/// One event in the life of a core: when it came, on both clocks, and what it led to.
pub struct DayV {
    pub now: u64,
    pub wall_ms: u64,
    pub ev: Event,
    pub out: Out,
}

/// Whether a core may pass through these states, by these events.
pub open spec fn lives<W: Wire>(states: Seq<State<W>>, days: Seq<DayV>) -> bool {
    &&& states.len() == days.len() + 1
    &&& forall|i: int|
        0 <= i < days.len() ==> (State {
            wall_ms: (#[trigger] days[i]).wall_ms,
            ..states[i]
        }).handled(days[i].now, days[i].ev, states[i + 1], days[i].out)
}

proof fn a_life_keeps_its_plugins<W: Wire>(states: Seq<State<W>>, days: Seq<DayV>, n: int)
    requires
        lives(states, days),
        ours(states[0].plugins),
        0 <= n <= days.len(),
    ensures
        all_made_alike(states[0].plugins, states[n].plugins),
    decreases n,
{
    if n > 0 {
        a_life_keeps_its_plugins(states, days, n - 1);
        let day = days[n - 1];
        let s = State { wall_ms: day.wall_ms, ..states[n - 1] };
        handling_is_fair(s, states[0].plugins, day.now, day.ev, states[n], day.out);
    }
}

/// However long a core lives and whatever arrives, its host is asked for nothing but
/// what the lists that the core began with allow.
pub proof fn the_first_lists_bind_for_life<W: Wire>(
    states: Seq<State<W>>,
    days: Seq<DayV>,
    n: int,
    i: int,
)
    requires
        lives(states, days),
        ours(states[0].plugins),
        0 <= n < days.len(),
        0 <= i < days[n].out.len(),
    ensures
        days[n].out[i] matches ActionView::Effect { effect, .. } ==> fair_effect(
            states[0].plugins,
            effect,
        ),
{
    a_life_keeps_its_plugins(states, days, n);
    let day = days[n];
    let s = State { wall_ms: day.wall_ms, ..states[n] };
    handling_is_fair(s, states[0].plugins, day.now, day.ev, states[n + 1], day.out);
    assert(fair(states[0].plugins, granted_by(s.plugins, day.ev), day.out[i]));
}

} // verus!
