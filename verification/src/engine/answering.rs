//! What a core with the plugins that every device registers does when it is asked.
use crate::body::value_of;
use crate::engine::events::complained;
use crate::engine::frames::{answered, handler, verdict, Opened, Opener, Turn};
use crate::engine::model::{able, best, shows, Greeted, LinkV, Out, Sealed, State, UpV};
use crate::engine::sends::error_answer;
use crate::ids::DeviceId;
use crate::link::LinkId;
use crate::plugin::{after, BulkView, CxView, FaultView, Plugin, Registered, SendView, Told};
use crate::plugins::command::{listed, RunRequest};
use crate::plugins::share::{Finished, FinishedView};
use crate::plugins::stock::Stock;
use crate::vocab::{ActionView, EffectView, Event, LocalCommand};
use crate::wire::{splits, EnvelopeView, FrameKind, Wire};
use vstd::prelude::*;

verus! {

/// Whether a frame on an established link can be nothing but a given message: the
/// wire format takes it apart in no other way, and the session opens it to no other.
pub open spec fn reads_as<W: Wire>(
    s: State<W>,
    link: u64,
    u: UpV,
    msg: Seq<u8>,
    env: EnvelopeView,
) -> bool {
    &&& s.links.dom().contains(link) && s.links[link] == LinkV::Up(u)
    &&& exists|body: Seq<u8>| #[trigger] opens_as(s, link, u, msg, body, env)
}

/// The same, where `body` is what the frame holds.
pub open spec fn opens_as<W: Wire>(
    s: State<W>,
    link: u64,
    u: UpV,
    msg: Seq<u8>,
    body: Seq<u8>,
    env: EnvelopeView,
) -> bool {
    &&& forall|frame: Option<(FrameKind, Seq<u8>)>| #[trigger]
        splits(s.wire, msg, frame) ==> frame == Some((FrameKind::Transport, body))
    &&& forall|opened: Opened| #[trigger]
        s.without_link(link).opened_fits(u, body, opened) ==> opened == Opened::Message(env)
}

/// Whether `s2` and `out2` follow from sending one message and asking for nothing
/// else, whatever the plugins remember.
pub open spec fn sends_alone<W: Wire>(s: State<W>, m: SendView, s2: State<W>, out2: Out) -> bool {
    exists|plugins: Seq<Registered>, sealed: Sealed|
        #![trigger s.with_plugins(plugins).send_step(m, sealed, Seq::empty())]
        s.with_plugins(plugins).seal_fits(m, sealed) && (s2, out2) == s.with_plugins(
            plugins,
        ).send_step(m, sealed, Seq::empty())
}

proof fn what_arrives_is_heard<W: Wire>(
    s: State<W>,
    now: u64,
    link: LinkId,
    msg: Vec<u8>,
    u: UpV,
    env: EnvelopeView,
    s2: State<W>,
    out2: Out,
)
    requires
        s.handled(now, Event::LinkRecv { link, msg }, s2, out2),
        reads_as(s, link.0, u, msg@, env),
    ensures
        s.without_link(link.0).heard_from(now, link.0, u).message(
            now,
            u,
            env,
            Seq::empty(),
            s2,
            out2,
        ),
{
    let out: Out = Seq::empty();
    let body = choose|body: Seq<u8>| #[trigger] opens_as(s, link.0, u, msg@, body, env);
    let (frame, greeted, opener, turn, opened) = choose|
        frame: Option<(FrameKind, Seq<u8>)>,
        greeted: Greeted,
        opener: Opener,
        turn: Turn,
        opened: Opened,
    | #[trigger]
        s.received(now, link.0, msg@, frame, greeted, opener, turn, opened, out, s2, out2);
    assert(splits(s.wire, msg@, frame));
    let less = s.without_link(link.0);
    assert(less.fits(now, s.links[link.0], FrameKind::Transport, body, greeted, opener, turn, opened));
    assert(less.opened_fits(u, body, opened));
}

/// What one plugin makes of a message: its verdict, its wishes, and where they lead.
proof fn what_is_heard_is_heeded<W: Wire>(
    s: State<W>,
    now: u64,
    u: UpV,
    env: EnvelopeView,
    i: usize,
    s2: State<W>,
    out2: Out,
) -> (r: (Option<FaultView>, CxView, Seq<Registered>))
    requires
        s.message(now, u, env, Seq::empty(), s2, out2),
        u.can_recv.contains(env.cap),
        env.ty != "err"@,
        handler(s.manifests, env.cap, s.manifests.len() as int) == Some(i),
        i < s.plugins.len(),
    ensures
        s.plugins[i as int].plugin.may(
            Told::Message { peer: u.peer, env },
            s.context(now, s.bulk_for(u.peer)),
            r.1,
            verdict(r.0),
            r.2[i as int].plugin.memory(),
        ),
        r.0 is None ==> s.with_plugins(r.2).drained(now, Some(i), r.1, Seq::empty(), s2, out2),
{
    let out: Out = Seq::empty();
    let told = Told::Message { peer: u.peer, env };
    let bulk = s.bulk_for(u.peer);
    let (fault, mid, out1, sealed) = choose|
        fault: Option<FaultView>,
        mid: State<W>,
        out1: Out,
        sealed: Sealed,
    |
        #![trigger s.told_one(now, i, told, bulk, verdict(fault), out, mid, out1), answered(fault, mid, out1, sealed, u.peer, env.cap, env.id)]
        s.told_one(now, i, told, bulk, verdict(fault), out, mid, out1) && (s2, out2) == answered(
            fault,
            mid,
            out1,
            sealed,
            u.peer,
            env.cap,
            env.id,
        ) && (fault matches Some(f) ==> mid.seal_fits(
            error_answer(u.peer, env.cap, env.id, f.code()),
            sealed,
        ));
    let (cx, plugins) = choose|cx: CxView, plugins: Seq<Registered>|
        #![trigger s.with_plugins(plugins).drained(now, Some(i), cx, out, mid, out1)]
        s.one_heard(i, told, s.context(now, bulk), cx, verdict(fault), plugins) && s.with_plugins(
            plugins,
        ).drained(now, Some(i), cx, out, mid, out1);
    (fault, cx, plugins)
}

/// A ping that arrives and was negotiated is answered with a pong that carries its
/// body and names it, and nothing else comes of it.
pub proof fn a_ping_is_answered<W: Wire>(
    s: State<W>,
    now: u64,
    link: LinkId,
    msg: Vec<u8>,
    u: UpV,
    env: EnvelopeView,
    i: usize,
    s2: State<W>,
    out2: Out,
)
    requires
        s.handled(now, Event::LinkRecv { link, msg }, s2, out2),
        reads_as(s, link.0, u, msg@, env),
        u.can_recv.contains(env.cap),
        env.ty == "ping"@,
        handler(s.manifests, env.cap, s.manifests.len() as int) == Some(i),
        i < s.plugins.len(),
        s.plugins[i as int].plugin is Ping,
    ensures
        sends_alone(
            s.without_link(link.0).heard_from(now, link.0, u),
            (SendView {
                peer: u.peer,
                cap: env.cap,
                ty: "pong"@,
                body: env.body,
                re: Some(env.id),
            }),
            s2,
            out2,
        ),
{
    assert("ping"@ != "err"@) by {
        reveal_strlit("ping");
        reveal_strlit("err");
        assert("ping"@.len() != "err"@.len());
    }
    let out: Out = Seq::empty();
    let pong = SendView {
        peer: u.peer,
        cap: env.cap,
        ty: "pong"@,
        body: env.body,
        re: Some(env.id),
    };
    what_arrives_is_heard(s, now, link, msg, u, env, s2, out2);
    let heard = s.without_link(link.0).heard_from(now, link.0, u);
    let (fault, cx, plugins) = what_is_heard_is_heeded(heard, now, u, env, i, s2, out2);
    assert(fault is None);
    let t = heard.with_plugins(plugins);
    let (keys, sealed) = choose|keys: Seq<Seq<u8>>, sealed: Seq<Sealed>|
        #![trigger t.remember(Some(i), cx).drain(now, cx, keys, sealed, out)]
        t.remember(Some(i), cx).answers_fit(now, cx, keys, sealed, out) && (s2, out2)
            == t.remember(Some(i), cx).drain(now, cx, keys, sealed, out);
    assert(t.remember(Some(i), cx) == t);
    assert(out + shows(cx) =~= out);
    assert(cx.sends =~= seq![pong]);
    assert(t.bulk_steps(now, cx.bulk, keys, 0, out) == (t, out));
    assert(t.send_steps(cx.sends, sealed, 0, out) == (t, out));
    assert(t.send_steps(cx.sends, sealed, 1, out) == t.send_step(pong, sealed[0], out));
    assert(t.seals_fit(cx.sends, sealed, 1, out));
    assert(t.seal_fits(pong, sealed[0]));
}

/// A command that a peer asks for, that was negotiated and is on this device's list
/// is handed to the host, under a number of its own, and nothing else comes of it.
pub proof fn a_listed_command_is_run<W: Wire>(
    s: State<W>,
    now: u64,
    link: LinkId,
    msg: Vec<u8>,
    u: UpV,
    env: EnvelopeView,
    i: usize,
    s2: State<W>,
    out2: Out,
)
    requires
        s.handled(now, Event::LinkRecv { link, msg }, s2, out2),
        reads_as(s, link.0, u, msg@, env),
        u.can_recv.contains(env.cap),
        env.ty == "run"@,
        handler(s.manifests, env.cap, s.manifests.len() as int) == Some(i),
        i < s.plugins.len(),
        s.plugins[i as int].plugin matches Stock::Command(p) && (value_of::<RunRequest>(
            env.body,
        ) matches Some(req) && listed(p@.catalog, req.id)),
    ensures
        out2 == seq![
            ActionView::Effect {
                token: after(s.next_token),
                effect: EffectView::RunCommand { id: value_of::<RunRequest>(env.body)->Some_0.id },
            },
        ],
        s2.effect_owner == s.effect_owner.insert(after(s.next_token), i),
{
    assert("run"@ != "err"@) by {
        reveal_strlit("run");
        reveal_strlit("err");
        assert("run"@[0] != "err"@[0]);
    }
    let out: Out = Seq::empty();
    what_arrives_is_heard(s, now, link, msg, u, env, s2, out2);
    let heard = s.without_link(link.0).heard_from(now, link.0, u);
    let (fault, cx, plugins) = what_is_heard_is_heeded(heard, now, u, env, i, s2, out2);
    assert(fault is None);
    let effect = EffectView::RunCommand { id: value_of::<RunRequest>(env.body)->Some_0.id };
    let t = heard.with_plugins(plugins);
    let (keys, sealed) = choose|keys: Seq<Seq<u8>>, sealed: Seq<Sealed>|
        #![trigger t.remember(Some(i), cx).drain(now, cx, keys, sealed, out)]
        t.remember(Some(i), cx).answers_fit(now, cx, keys, sealed, out) && (s2, out2)
            == t.remember(Some(i), cx).drain(now, cx, keys, sealed, out);
    assert(cx.effects =~= seq![(after(s.next_token), effect)]);
    assert(cx.effects.drop_last() =~= Seq::empty());
    let token = after(s.next_token);
    assert(crate::engine::model::owners_of_effects(s.effect_owner, cx.effects.drop_last(), i)
        == s.effect_owner);
    assert(out + shows(cx) =~= seq![ActionView::Effect { token, effect }]);
    let r = t.remember(Some(i), cx);
    assert(r.bulk_steps(now, cx.bulk, keys, 0, out + shows(cx)) == (r, out + shows(cx)));
    assert(r.send_steps(cx.sends, sealed, 0, out + shows(cx)) == (r, out + shows(cx)));
}

/// A file that a peer offered and a person agrees to is listened for, where a link to
/// that peer can carry files, under the key that the two derive from their session,
/// and nothing else comes of it.
pub proof fn an_agreed_file_is_listened_for<W: Wire>(
    s: State<W>,
    now: u64,
    peer: DeviceId,
    cap: String,
    ty: String,
    body: Vec<u8>,
    i: usize,
    f: FinishedView,
    s2: State<W>,
    out2: Out,
)
    requires
        s.handled(now, Event::Local(LocalCommand::Plugin { peer, cap, ty, body }), s2, out2),
        ty@ == "accept"@,
        value_of::<Finished>(body@) == Some(f),
        handler(s.manifests, cap@, s.manifests.len() as int) == Some(i),
        i < s.plugins.len(),
        s.plugins[i as int].plugin matches Stock::Share(p) && p@.offered.dom().contains(f.transfer)
            && best(able(s.links), p@.offered[f.transfer].peer) is Some,
    ensures
        ({
            let o = s.plugins[i as int].plugin->Share_0@.offered[f.transfer];
            let (transfer, offered_as, expect_bytes) = (f.transfer, o.offered_as, o.offer.size);
            exists|key: Seq<u8>|
                #[trigger] s.key_fits(
                    BulkView::Listen { peer: o.peer, transfer, offered_as, expect_bytes },
                    key,
                ) && out2 == seq![
                    ActionView::BulkListen { transfer, offered_as, key, expect_bytes },
                ]
        }),
        s2.bulk_owner.dom().contains(f.transfer) && s2.bulk_owner[f.transfer] == i,
{
    assert("accept"@ != "offer"@) by {
        reveal_strlit("accept");
        reveal_strlit("offer");
        assert("accept"@.len() != "offer"@.len());
    }
    let out: Out = Seq::empty();
    let told = Told::Local { peer: peer@, ty: ty@, body: body@ };
    let bulk = s.bulk_for(peer@);
    let (fault, o) = choose|fault: Option<FaultView>, o: Out|
        #![trigger s.told_one(now, i, told, bulk, verdict(fault), out, s2, o), complained(fault, peer@, o)]
        s.told_one(now, i, told, bulk, verdict(fault), out, s2, o) && out2 == complained(
            fault,
            peer@,
            o,
        );
    let (cx, plugins) = choose|cx: CxView, plugins: Seq<Registered>|
        #![trigger s.with_plugins(plugins).drained(now, Some(i), cx, out, s2, o)]
        s.one_heard(i, told, s.context(now, bulk), cx, verdict(fault), plugins) && s.with_plugins(
            plugins,
        ).drained(now, Some(i), cx, out, s2, o);
    assert(fault is None);
    let t = s.with_plugins(plugins);
    let (keys, sealed) = choose|keys: Seq<Seq<u8>>, sealed: Seq<Sealed>|
        #![trigger t.remember(Some(i), cx).drain(now, cx, keys, sealed, out)]
        t.remember(Some(i), cx).answers_fit(now, cx, keys, sealed, out) && (s2, o) == t.remember(
            Some(i),
            cx,
        ).drain(now, cx, keys, sealed, out);
    let offer = s.plugins[i as int].plugin->Share_0@.offered[f.transfer];
    let b = BulkView::Listen {
        peer: offer.peer,
        transfer: f.transfer,
        offered_as: offer.offered_as,
        expect_bytes: offer.offer.size,
    };
    assert(cx.bulk =~= seq![b]);
    assert(cx.bulk.last() == b);
    assert(out + shows(cx) =~= out);
    let r = t.remember(Some(i), cx);
    assert(r.bulk_steps(now, cx.bulk, keys, 0, out) == (r, out));
    assert(r.bulk_steps(now, cx.bulk, keys, 1, out) == r.bulk_step(now, b, keys[0], out));
    assert(r.keys_fit(now, cx.bulk, keys, 1, out));
    assert(r.key_fits(b, keys[0]));
    assert(s.key_fits(b, keys[0]));
    let (q, oq) = r.bulk_step(now, b, keys[0], out);
    assert(q.send_steps(cx.sends, sealed, 0, oq) == (q, oq));
    assert(out2 =~= seq![
        ActionView::BulkListen {
            transfer: f.transfer,
            offered_as: offer.offered_as,
            key: keys[0],
            expect_bytes: offer.offer.size,
        },
    ]);
}

} // verus!
