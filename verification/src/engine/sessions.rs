//! How a session comes about: by a fresh hello from a paired device, and in no
//! other way.
use crate::engine::events::{complained, give_up_trace, token_of};
use crate::engine::frames::{
    ends, handler, left, made_fits, verdict, End, Made, Opened, Opener, Reply, Turn,
};
use crate::engine::laws::{
    all_told_ran, closing_all_leaves_none, give_up_trace_step, message_step, one_told_ran,
    owner_told_step, plugins_reach_no_further, same_link, says_hello_whole, within_reach,
};
use crate::engine::model::{Greeted, HeardV, LinkV, Out, Said, ShakingV, State, UpV};
use crate::link::{LinkAttrs, LinkId, ReasonView};
use crate::noise::{a_whole_handshake_reads_on, Handshake};
use crate::plugin::{FaultView, Told};
use crate::table::ascending;
use crate::vocab::{ActionView, Event, LocalCommand, UiView};
use crate::wire::{freshness, hello_read, ErrorCode, FrameKind, HelloView, Wire};
use vstd::prelude::*;

verus! {

/// Whether every session of `b` is one of `a`'s.
pub open spec fn no_new_session<W: Wire>(a: State<W>, b: State<W>) -> bool {
    forall|l: u64| #[trigger]
        b.links.dom().contains(l) && b.links[l] is Up ==> a.links.dom().contains(l)
            && a.links[l] is Up && a.links[l]->Up_0.peer == b.links[l]->Up_0.peer
}

/// Whether a session with a peer rests on a hello that was fresh: one that the
/// wire format found newer than everything that peer had shown, at this time. Its
/// mark is then the peer's, so that it will not do again.
pub open spec fn rests_on_a_fresh_hello<W: Wire>(
    s: State<W>,
    s2: State<W>,
    peer: Seq<char>,
) -> bool {
    &&& s.peers.dom().contains(peer)
    &&& s2.peers.dom().contains(peer)
    &&& exists|h: HelloView|
        #[trigger] freshness(
            s.wire,
            h,
            s.wall_ms,
            s.peers[peer].record.greatest_seen,
            Ok(s2.peers[peer].record.greatest_seen),
        )
}

proof fn reach_has_no_new_session<W: Wire>(s: State<W>, s2: State<W>)
    requires
        within_reach(s, s2),
    ensures
        no_new_session(s, s2),
{
    assert forall|l: u64| #[trigger]
        s2.links.dom().contains(l) && s2.links[l] is Up implies s.links.dom().contains(l)
        && s.links[l] is Up && s.links[l]->Up_0.peer == s2.links[l]->Up_0.peer by {
        assert(s.links.dom().contains(l));
    }
}

/// What every plugin is told at the end of a step reaches no further than plugins do.
pub proof fn ends_reach<W: Wire>(
    s: State<W>,
    out: Out,
    news: Option<Told>,
    now: u64,
    s2: State<W>,
    out2: Out,
)
    requires
        ends(s, out, news, now, s2, out2),
    ensures
        within_reach(s, s2),
        no_new_session(s, s2),
{
    if news is Some {
        all_told_ran(s, now, news->Some_0, out, s2, out2);
        plugins_reach_no_further(s, now, None, out, s2, out2);
    }
    reach_has_no_new_session(s, s2);
}

proof fn connect_makes_none<W: Wire>(
    s: State<W>,
    now: u64,
    peer: Seq<char>,
    by_hand: bool,
    out: Out,
)
    ensures
        no_new_session(s, s.connect_peer(now, peer, by_hand, out).0),
{
}

proof fn connect_all_makes_none<W: Wire>(
    s: State<W>,
    now: u64,
    peers: Seq<Seq<char>>,
    n: int,
    out: Out,
)
    ensures
        no_new_session(s, s.connect_all(now, peers, n, out).0),
    decreases n,
{
    if n > 0 {
        connect_all_makes_none(s, now, peers, n - 1, out);
        let (mid, o) = s.connect_all(now, peers, n - 1, out);
        connect_makes_none(mid, now, peers[n - 1], false, o);
    }
}

proof fn drop_all_stale_makes_none<W: Wire>(
    s: State<W>,
    now: u64,
    links: Seq<u64>,
    n: int,
    out: Out,
)
    ensures
        no_new_session(s, s.drop_all_stale(now, links, n, out).0),
    decreases n,
{
    if n > 0 {
        drop_all_stale_makes_none(s, now, links, n - 1, out);
    }
}

proof fn expire_all_makes_none<W: Wire>(s: State<W>, now: u64, dials: Seq<u64>, n: int, out: Out)
    ensures
        s.expire_all(now, dials, n, out).0.links == s.links,
    decreases n,
{
    if n > 0 {
        expire_all_makes_none(s, now, dials, n - 1, out);
    }
}

proof fn tidy_makes_none<W: Wire>(s: State<W>, now: u64, out: Out)
    ensures
        no_new_session(s, s.tidy(now, out).0),
{
    let stale = s.stale_links(now);
    drop_all_stale_makes_none(s, now, stale, stale.len() as int, out);
    let (s1, o1) = s.drop_all_stale(now, stale, stale.len() as int, out);
    let expired = s1.expired_dials(now);
    expire_all_makes_none(s1, now, expired, expired.len() as int, o1);
    let (s2, o2) = s1.expire_all(now, expired, expired.len() as int, o1);
    if s2.reconnect_at is None || now >= s2.reconnect_at->Some_0 {
        let t = State {
            reconnect_at: Some((now + s2.config.reconnect_every_ms) as u64),
            ..s2
        };
        let list = t.waiting();
        connect_all_makes_none(t, now, list, list.len() as int, o2);
    }
}

proof fn ticked_makes_none<W: Wire>(s: State<W>, now: u64, out: Out, s2: State<W>, out2: Out)
    requires
        s.ticked(now, out, s2, out2),
    ensures
        no_new_session(s, s2),
{
    let (s1, o1) = s.lapse_pairing(now, out);
    let list = s1.overdue(now);
    let (mid, om) = choose|mid: State<W>, o2: Out|
        #![trigger s1.gave_up_all(now, list, o1, mid, o2)]
        s1.gave_up_all(now, list, o1, mid, o2) && {
            let (t, o3) = mid.tidy(now, o2);
            t.woke(now, o3, s2, out2)
        };
    let trace = choose|trace: Seq<(State<W>, Out)>|
        #[trigger] give_up_trace(now, list, trace) && trace[0] == (s1, o1)
            && trace[list.len() as int] == (mid, om);
    give_up_trace_step(now, list, trace, list.len() as int);
    reach_has_no_new_session(s1, mid);
    tidy_makes_none(mid, now, om);
    let (t, o3) = mid.tidy(now, om);
    if t.plugin_wake is Some && now >= t.plugin_wake->Some_0 {
        let w = State { plugin_wake: None, ..t };
        all_told_ran(w, now, Told::Tick, o3, s2, out2);
        plugins_reach_no_further(w, now, None, o3, s2, out2);
        reach_has_no_new_session(w, s2);
    }
}

proof fn commanded_makes_none<W: Wire>(
    s: State<W>,
    now: u64,
    cmd: LocalCommand,
    out: Out,
    s2: State<W>,
    out2: Out,
)
    requires
        s.sound(),
        s.commanded(now, cmd, out, s2, out2),
    ensures
        no_new_session(s, s2),
{
    match cmd {
        LocalCommand::Connect { peer } => {
            connect_makes_none(s, now, peer@, true, out);
        },
        LocalCommand::ReconsiderRoutes => {
            let list = ascending::<String>(s.peers.dom());
            connect_all_makes_none(s, now, list, list.len() as int, out);
        },
        LocalCommand::Disconnect { peer } => {
            closing_all_leaves_none(s, now, peer@, ReasonView::Closed, out, s2, out2);
        },
        LocalCommand::Revoke { peer } => {
            let t = s.without_peer(peer@);
            let list = t.links_to(peer@);
            let reason = ReasonView::Protocol(ErrorCode::NotPaired);
            let start = crate::engine::events::unkeep(peer@, out);
            let o = choose|o: Out|
                #![trigger t.closed_down(now, list, reason, start, s2, o)]
                t.closed_down(now, list, reason, start, s2, o) && out2
                    == if s.peers.dom().contains(peer@) {
                    s2.announce(
                        s.peers[peer@].fingerprint,
                        crate::engine::model::ui(o, UiView::Revoked { peer: peer@ }),
                    )
                } else {
                    crate::engine::model::ui(o, UiView::Revoked { peer: peer@ })
                };
            closing_all_leaves_none(t, now, peer@, reason, start, s2, o);
        },
        LocalCommand::Plugin { peer, cap, ty, body } => {
            match handler(s.manifests, cap@, s.manifests.len() as int) {
                None => {},
                Some(idx) => {
                    let told = Told::Local { peer: peer@, ty: ty@, body: body@ };
                    let bulk = s.bulk_for(peer@);
                    let (fault, o) = choose|fault: Option<FaultView>, o: Out|
                        #![trigger s.told_one(now, idx, told, bulk, verdict(fault), out, s2, o), complained(fault, peer@, o)]
                        s.told_one(now, idx, told, bulk, verdict(fault), out, s2, o) && out2
                            == complained(fault, peer@, o);
                    one_told_ran(s, now, idx, told, bulk, verdict(fault), out, s2, o);
                    plugins_reach_no_further(s, now, Some(idx), out, s2, o);
                    reach_has_no_new_session(s, s2);
                },
            }
        },
        _ => {},
    }
}

/// A hello that is taken in was fresh.
proof fn accepted_is_fresh<W: Wire>(
    s: State<W>,
    peer: Seq<char>,
    payload: Seq<u8>,
    heard: Option<HeardV>,
    out: Out,
)
    requires
        s.accept_hello(peer, heard, out).2,
        s.heard_fits(peer, payload, heard),
    ensures
        rests_on_a_fresh_hello(s, s.accept_hello(peer, heard, out).0, peer),
{
    let seen = s.peers[peer].record.greatest_seen;
    let hello = choose|hello: Option<HelloView>|
        #[trigger] hello_read(s.wire, payload, hello) && match hello {
            None => heard is None,
            Some(h) => heard matches Some(x) && x == (HeardV {
                name: h.name,
                platform: h.platform,
                caps_out: h.caps_out,
                caps_in: h.caps_in,
                fresh: x.fresh,
            }) && freshness(s.wire, h, s.wall_ms, seen, x.fresh),
        };
    let h = hello->Some_0;
    let s2 = s.accept_hello(peer, heard, out).0;
    assert(freshness(s.wire, h, s.wall_ms, seen, Ok(s2.peers[peer].record.greatest_seen)));
}

/// What a step came to, as far as sessions go: none is new, or one is, on this
/// link, and rests on a fresh hello.
pub open spec fn at_most_one<W: Wire>(s: State<W>, s2: State<W>, link: u64) -> bool {
    no_new_session(s, s2) || {
        &&& s2.links.dom().contains(link)
        &&& s2.links[link] is Up
        &&& no_new_session(s.with_link(link, s2.links[link]), s2)
        &&& rests_on_a_fresh_hello(s, s2, s2.links[link]->Up_0.peer)
        &&& !s2.dial_trouble.dom().contains(s2.links[link]->Up_0.peer)
    }
}

proof fn finish_makes_at_most_one<W: Wire>(
    s: State<W>,
    now: u64,
    link: u64,
    attrs: LinkAttrs,
    peer: Seq<char>,
    payload: Seq<u8>,
    heard: Option<HeardV>,
    made: Made,
    out: Out,
    o: Out,
)
    requires
        s.accept_hello(peer, heard, out).2,
        s.heard_fits(peer, payload, heard),
    ensures
        at_most_one(
            s,
            s.accept_hello(peer, heard, out).0.finish_session(now, link, attrs, peer, made, o).0,
            link,
        ),
{
    accepted_is_fresh(s, peer, payload, heard, out);
    let mid = s.accept_hello(peer, heard, out).0;
    let s2 = mid.finish_session(now, link, attrs, peer, made, o).0;
    match made {
        Made::Ready(hash, session) => {
            assert(s2.links.dom().contains(link));
            assert(s2.peers == mid.peers);
        },
        Made::Failed(_) => {
            assert(no_new_session(s, s2));
        },
    }
}

proof fn opener_makes_at_most_one<W: Wire>(
    s: State<W>,
    now: u64,
    link: u64,
    attrs: LinkAttrs,
    body: Seq<u8>,
    opener: Opener,
    out: Out,
)
    requires
        s.opener_fits(attrs, body, opener),
    ensures
        at_most_one(s, s.session_opener(now, link, attrs, opener, out).0, link),
{
    match opener {
        Opener::Read(id, heard, reply) => {
            let (start, payload, mid) = choose|start: Handshake, payload: Seq<u8>, mid: Handshake|
                s.answers_session(start, id) && #[trigger] start.has_read(body, payload, mid)
                    && s.heard_fits(id, payload, heard) && s.reply_fits(mid, attrs, reply);
            let (s1, o, fresh) = s.accept_hello(id, heard, out);
            if s.why_no_session(id) is None && fresh {
                match reply {
                    Reply::Message(msg, made) => {
                        finish_makes_at_most_one(
                            s,
                            now,
                            link,
                            attrs,
                            id,
                            payload,
                            heard,
                            made,
                            out,
                            o.push(ActionView::LinkSend { link, msg }),
                        );
                    },
                    _ => {},
                }
            }
        },
        _ => {},
    }
}

proof fn turn_makes_at_most_one<W: Wire>(
    s: State<W>,
    now: u64,
    link: u64,
    h: ShakingV,
    kind: FrameKind,
    body: Seq<u8>,
    turn: Turn,
    out: Out,
)
    requires
        kind == h.kind() ==> s.turn_fits(h, body, turn),
    ensures
        at_most_one(s, s.handshake_frame(now, link, h, kind, turn, out).0, link),
{
    let s2 = s.handshake_frame(now, link, h, kind, turn, out).0;
    match turn {
        Turn::Went(said, hs, end) => {
            if kind == h.kind() && hs@.complete() && !h.pairing_flow && h.expect is Some {
                let peer = h.expect->Some_0;
                let (payload, mid) = choose|payload: Seq<u8>, mid: Handshake|
                    #[trigger] h.hs.has_read(body, payload, mid) && s.went_fits(
                        h,
                        payload,
                        mid,
                        said,
                        hs,
                        end,
                    );
                let o = match said {
                    Some(msg) => out.push(ActionView::LinkSend { link, msg }),
                    None => out,
                };
                match end {
                    End::Session(heard, made) => {
                        let (s1, o1, fresh) = s.accept_hello(peer, heard, o);
                        if fresh {
                            finish_makes_at_most_one(
                                s,
                                now,
                                link,
                                h.attrs,
                                peer,
                                payload,
                                heard,
                                made,
                                o,
                                o1,
                            );
                        }
                    },
                    _ => {},
                }
            }
        },
        _ => {},
    }
}

proof fn received_makes_at_most_one<W: Wire>(
    s: State<W>,
    now: u64,
    link: u64,
    msg: Seq<u8>,
    frame: Option<(FrameKind, Seq<u8>)>,
    greeted: Greeted,
    opener: Opener,
    turn: Turn,
    opened: Opened,
    out: Out,
    s2: State<W>,
    out2: Out,
)
    requires
        s.received(now, link, msg, frame, greeted, opener, turn, opened, out, s2, out2),
    ensures
        at_most_one(s, s2, link),
{
    match frame {
        None => {},
        Some((kind, body)) => {
            if s.links.dom().contains(link) {
                let less = s.without_link(link);
                match s.links[link] {
                    LinkV::Pending { attrs, deadline } => {
                        let (s1, o, news) = less.first_frame(
                            now,
                            link,
                            attrs,
                            deadline,
                            kind,
                            greeted,
                            opener,
                            out,
                        );
                        if kind == FrameKind::SessionHandshake {
                            opener_makes_at_most_one(less, now, link, attrs, body, opener, out);
                        }
                        ends_reach(s1, o, news, now, s2, out2);
                        kept_at_most_one(s, less, s1, s2, link);
                    },
                    LinkV::Handshaking(h) => {
                        let (s1, o, news) = less.handshake_frame(now, link, h, kind, turn, out);
                        turn_makes_at_most_one(less, now, link, h, kind, body, turn, out);
                        ends_reach(s1, o, news, now, s2, out2);
                        kept_at_most_one(s, less, s1, s2, link);
                    },
                    LinkV::Up(u) => {
                        transport_makes_none(s, now, link, u, kind, opened, out, s2, out2);
                    },
                }
            }
        },
    }
}

/// What plugins then do does not change how many sessions are new.
proof fn kept_at_most_one<W: Wire>(
    s: State<W>,
    less: State<W>,
    mid: State<W>,
    s2: State<W>,
    link: u64,
)
    requires
        less == s.without_link(link),
        at_most_one(less, mid, link),
        within_reach(mid, s2),
    ensures
        at_most_one(s, s2, link),
{
    reach_has_no_new_session(mid, s2);
    if !no_new_session(less, mid) {
        assert(mid.links.dom().contains(link));
        let peer = mid.links[link]->Up_0.peer;
        assert(s2.links.dom().contains(link));
        let h = choose|h: HelloView|
            #[trigger] freshness(
                less.wire,
                h,
                less.wall_ms,
                less.peers[peer].record.greatest_seen,
                Ok(mid.peers[peer].record.greatest_seen),
            );
        assert(freshness(
            s.wire,
            h,
            s.wall_ms,
            s.peers[peer].record.greatest_seen,
            Ok(s2.peers[peer].record.greatest_seen),
        ));
        assert forall|l: u64| #[trigger]
            s2.links.dom().contains(l) && s2.links[l] is Up implies s.with_link(
            link,
            s2.links[link],
        ).links.dom().contains(l) && s.with_link(link, s2.links[link]).links[l] is Up
            && s.with_link(link, s2.links[link]).links[l]->Up_0.peer
            == s2.links[l]->Up_0.peer by {
            assert(mid.links.dom().contains(l));
        }
    } else {
        assert forall|l: u64| #[trigger]
            s2.links.dom().contains(l) && s2.links[l] is Up implies s.links.dom().contains(l)
            && s.links[l] is Up && s.links[l]->Up_0.peer == s2.links[l]->Up_0.peer by {
            assert(mid.links.dom().contains(l));
            assert(less.links.dom().contains(l));
        }
    }
}

proof fn transport_makes_none<W: Wire>(
    s: State<W>,
    now: u64,
    link: u64,
    u: UpV,
    kind: FrameKind,
    opened: Opened,
    out: Out,
    s2: State<W>,
    out2: Out,
)
    requires
        s.links.dom().contains(link),
        s.links[link] == LinkV::Up(u),
        s.without_link(link).transport_frame(now, link, u, kind, opened, out, s2, out2),
    ensures
        no_new_session(s, s2),
{
    let less = s.without_link(link);
    let heard = less.heard_from(now, link, u);
    if kind == FrameKind::Transport && !(opened is Sealed) {
        match opened {
            Opened::Message(env) => {
                message_step(heard, now, u, env, out, s2, out2);
                reach_has_no_new_session(heard, s2);
            },
            _ => {},
        }
        assert(no_new_session(s, heard));
    } else {
        let detail = if kind != FrameKind::Transport {
            "handshake frame on an established link"@
        } else {
            opened->Sealed_0
        };
        let (s1, o, news) = less.fail_up_link(now, link, u, detail, out);
        ends_reach(s1, o, news, now, s2, out2);
        assert(no_new_session(s, s1));
    }
}

/// A session comes up only where a frame arrives on its link, only with a device
/// that is paired already, and only on a hello that was fresh; whatever went wrong
/// before in reaching that device is then forgotten.
pub proof fn a_session_needs_a_fresh_hello<W: Wire>(
    s: State<W>,
    now: u64,
    ev: Event,
    s2: State<W>,
    out2: Out,
    l: u64,
)
    requires
        s.sound(),
        s.handled(now, ev, s2, out2),
        s2.links.dom().contains(l),
        s2.links[l] is Up,
        !(s.links.dom().contains(l) && s.links[l] is Up && s.links[l]->Up_0.peer
            == s2.links[l]->Up_0.peer),
    ensures
        ev matches Event::LinkRecv { link, .. } && link.0 == l,
        rests_on_a_fresh_hello(s, s2, s2.links[l]->Up_0.peer),
        !s2.dial_trouble.dom().contains(s2.links[l]->Up_0.peer),
{
    let out: Out = Seq::empty();
    match ev {
        Event::LinkUp { link, attrs, dial } => {
            let token = token_of(dial);
            let said = choose|said: Said|
                (s2, out2) == #[trigger] s.link_up(now, link.0, attrs, token, said, out)
                    && s.said_fits(token, said);
            assert(no_new_session(s, s2));
        },
        Event::LinkRecv { link, msg } => {
            let (frame, greeted, opener, turn, opened) = choose|
                frame: Option<(FrameKind, Seq<u8>)>,
                greeted: Greeted,
                opener: Opener,
                turn: Turn,
                opened: Opened,
            | #[trigger]
                s.received(now, link.0, msg@, frame, greeted, opener, turn, opened, out, s2, out2);
            received_makes_at_most_one(
                s,
                now,
                link.0,
                msg@,
                frame,
                greeted,
                opener,
                turn,
                opened,
                out,
                s2,
                out2,
            );
        },
        Event::LinkDown { link, reason } => {
            let (s1, o, gone) = s.link_down(now, link.0, out);
            ends_reach(s1, o, left(gone), now, s2, out2);
            assert(no_new_session(s, s1));
        },
        Event::DialFailed { dial, reason } => {
            assert(no_new_session(s, s2));
        },
        Event::Discovered { transport, peer } => {
            let seen = match peer.fingerprint {
                Some(fp) => s.sight(fp@, transport.0, peer.name@, peer.addr@, peer.pairing),
                None => s,
            };
            match peer.fingerprint {
                Some(fp) => match seen.peer_with(fp@) {
                    Some(id) => {
                        let noted = seen.note_addr(id, transport.0, peer.addr@);
                        connect_makes_none(noted, now, id, false, out);
                    },
                    None => {},
                },
                None => {},
            }
            assert(no_new_session(s, s2));
        },
        Event::Undiscovered { transport, addr } => {
            assert(no_new_session(s, s2));
        },
        Event::Tick => {
            ticked_makes_none(s, now, out, s2, out2);
        },
        Event::BulkListening { transfer, endpoint } => {
            let told = Told::Listening { transfer: transfer.0, endpoint: endpoint@ };
            owner_told_step(s, now, transfer.0, told, out, s2, out2);
            reach_has_no_new_session(s, s2);
        },
        Event::BulkStarted { transfer } => {
            assert(no_new_session(s, s2));
        },
        Event::BulkFinished { transfer, ok, detail } => {
            let n = transfer.0;
            let told = Told::Finished { transfer: n, ok, detail: detail@ };
            let mid = choose|mid: State<W>|
                #![trigger s.owner_told(now, n, told, out, mid, out2)]
                s.owner_told(now, n, told, out, mid, out2) && s2 == (State {
                    bulk_owner: mid.bulk_owner.remove(n),
                    bulk_wait: mid.bulk_wait.remove(n),
                    ..mid
                });
            owner_told_step(s, now, n, told, out, mid, out2);
            reach_has_no_new_session(s, mid);
        },
        Event::Local(cmd) => {
            commanded_makes_none(s, now, cmd, out, s2, out2);
        },
        Event::EffectDone { token, result } => {
            if s.effect_owner.dom().contains(token.0) {
                let t = State { effect_owner: s.effect_owner.remove(token.0), ..s };
                let idx = s.effect_owner[token.0];
                let told = Told::Answer { token: token.0, result: result@ };
                one_told_ran(t, now, idx, told, None, Ok(()), out, s2, out2);
                plugins_reach_no_further(t, now, Some(idx), out, s2, out2);
                reach_has_no_new_session(t, s2);
            }
        },
    }
}

/// A session handshake of ours that the far end answers with a fresh hello becomes a
/// session with the peer it was for, wherever the link keeps order and loses nothing.
pub proof fn an_answered_handshake_is_a_session<W: Wire>(
    s: State<W>,
    now: u64,
    link: u64,
    msg: Seq<u8>,
    body: Seq<u8>,
    h: ShakingV,
    peer: Seq<char>,
    greeted: Greeted,
    opener: Opener,
    turn: Turn,
    opened: Opened,
    out: Out,
    s2: State<W>,
    out2: Out,
)
    requires
        s.sound(),
        s.links.dom().contains(link),
        s.links[link] == LinkV::Handshaking(h),
        !h.pairing_flow,
        h.expect == Some(peer),
        h.attrs.reliable && h.attrs.ordered,
        s.received(
            now,
            link,
            msg,
            Some((FrameKind::SessionHandshake, body)),
            greeted,
            opener,
            turn,
            opened,
            out,
            s2,
            out2,
        ),
        turn matches Turn::Went(_, hs, End::Session(heard, _)) && hs@.complete() && s.takes_hello(
            peer,
            heard,
        ),
    ensures
        s2.links.dom().contains(link),
        s2.links[link] is Up,
        s2.links[link]->Up_0.peer == peer,
{
    let less = s.without_link(link);
    let (said, hs, end) = (turn->Went_0, turn->Went_1, turn->Went_2);
    let (heard, made) = (end->Session_0, end->Session_1);
    let (payload, mid) = choose|payload: Seq<u8>, mid: Handshake|
        #[trigger] h.hs.has_read(body, payload, mid) && less.went_fits(
            h,
            payload,
            mid,
            said,
            hs,
            end,
        );
    a_whole_handshake_reads_on(h.hs, body, payload, mid);
    let (s1, o, news) = less.handshake_frame(
        now,
        link,
        h,
        FrameKind::SessionHandshake,
        turn,
        out,
    );
    assert(less.takes_hello(peer, heard));
    assert(made_fits(hs, h.attrs, made));
    assert(made is Ready);
    assert(s1.links.dom().contains(link));
    ends_reach(s1, o, news, now, s2, out2);
    assert(s2.links.dom().contains(link));
}

/// A peer that opens a session with a fresh hello gets one as soon as it could be
/// answered, wherever the link keeps order and loses nothing.
pub proof fn an_opened_session_is_answered<W: Wire>(
    s: State<W>,
    now: u64,
    link: u64,
    msg: Seq<u8>,
    body: Seq<u8>,
    attrs: LinkAttrs,
    deadline: u64,
    greeted: Greeted,
    opener: Opener,
    turn: Turn,
    opened: Opened,
    out: Out,
    s2: State<W>,
    out2: Out,
)
    requires
        s.links.dom().contains(link),
        s.links[link] == (LinkV::Pending { attrs, deadline }),
        attrs.reliable && attrs.ordered,
        s.received(
            now,
            link,
            msg,
            Some((FrameKind::SessionHandshake, body)),
            greeted,
            opener,
            turn,
            opened,
            out,
            s2,
            out2,
        ),
        opener matches Opener::Read(id, heard, Reply::Message(_, _)) && s.why_no_session(id) is None
            && s.takes_hello(id, heard),
    ensures
        s2.links.dom().contains(link),
        s2.links[link] is Up,
        s2.links[link]->Up_0.peer == opener->Read_0,
{
    let less = s.without_link(link);
    let (id, heard, reply) = (opener->Read_0, opener->Read_1, opener->Read_2);
    let (answer, made) = (reply->Message_0, reply->Message_1);
    let (start, payload, mid) = choose|start: Handshake, payload: Seq<u8>, mid: Handshake|
        less.answers_session(start, id) && #[trigger] start.has_read(body, payload, mid)
            && less.heard_fits(id, payload, heard) && less.reply_fits(mid, attrs, reply);
    a_whole_handshake_reads_on(start, body, payload, mid);
    let after = choose|after: Handshake|
        #[trigger] less.says_hello(mid, FrameKind::SessionHandshake, answer, after) && made_fits(
            after,
            attrs,
            made,
        );
    says_hello_whole(less, mid, FrameKind::SessionHandshake, answer, after);
    assert(after@.complete());
    assert(made is Ready);
    let (s1, o, news) = less.first_frame(
        now,
        link,
        attrs,
        deadline,
        FrameKind::SessionHandshake,
        greeted,
        opener,
        out,
    );
    assert(less.takes_hello(id, heard));
    assert(s1.links.dom().contains(link));
    ends_reach(s1, o, news, now, s2, out2);
    assert(s2.links.dom().contains(link));
}

/// Whether every link but one is as it was.
spec fn others_stay<W: Wire>(s: State<W>, s2: State<W>, link: u64) -> bool {
    s2.links.remove(link) == s.links.remove(link)
}

proof fn first_frame_is_local<W: Wire>(
    s: State<W>,
    now: u64,
    link: u64,
    attrs: LinkAttrs,
    deadline: u64,
    kind: FrameKind,
    greeted: Greeted,
    opener: Opener,
    out: Out,
)
    ensures
        others_stay(
            s,
            s.first_frame(now, link, attrs, deadline, kind, greeted, opener, out).0,
            link,
        ),
{
    let s2 = s.first_frame(now, link, attrs, deadline, kind, greeted, opener, out).0;
    assert(s2.links.remove(link) =~= s.links.remove(link));
}

proof fn handshake_frame_is_local<W: Wire>(
    s: State<W>,
    now: u64,
    link: u64,
    h: ShakingV,
    kind: FrameKind,
    turn: Turn,
    out: Out,
)
    ensures
        others_stay(s, s.handshake_frame(now, link, h, kind, turn, out).0, link),
{
    let s2 = s.handshake_frame(now, link, h, kind, turn, out).0;
    assert(s2.links.remove(link) =~= s.links.remove(link));
}

proof fn transport_frame_is_local<W: Wire>(
    s: State<W>,
    now: u64,
    link: u64,
    u: UpV,
    kind: FrameKind,
    opened: Opened,
    out: Out,
    s2: State<W>,
    out2: Out,
)
    requires
        s.transport_frame(now, link, u, kind, opened, out, s2, out2),
    ensures
        exists|mid: State<W>| #[trigger] others_stay(s, mid, link) && within_reach(mid, s2),
{
    let heard = s.heard_from(now, link, u);
    assert(heard.links.remove(link) =~= s.links.remove(link));
    if kind == FrameKind::Transport && !(opened is Sealed) {
        assert(others_stay(s, heard, link));
        match opened {
            Opened::Message(env) => {
                message_step(heard, now, u, env, out, s2, out2);
            },
            _ => {},
        }
    } else {
        let detail = if kind != FrameKind::Transport {
            "handshake frame on an established link"@
        } else {
            opened->Sealed_0
        };
        let (mid, o, news) = s.fail_up_link(now, link, u, detail, out);
        ends_reach(mid, o, news, now, s2, out2);
        assert(mid.links.remove(link) =~= s.links.remove(link));
        assert(others_stay(s, mid, link));
    }
}

/// A frame on one link leaves every other link as it was, but for how far its
/// session has got: a route that has fallen out of favour is never torn down for
/// that.
pub proof fn a_frame_disturbs_no_other_link<W: Wire>(
    s: State<W>,
    now: u64,
    link: LinkId,
    msg: Vec<u8>,
    s2: State<W>,
    out2: Out,
    other: u64,
)
    requires
        s.handled(now, Event::LinkRecv { link, msg }, s2, out2),
        other != link.0,
    ensures
        s2.links.dom().contains(other) == s.links.dom().contains(other),
        s.links.dom().contains(other) ==> same_link(s.links[other], s2.links[other]),
{
    let out: Out = Seq::empty();
    let (frame, greeted, opener, turn, opened) = choose|
        frame: Option<(FrameKind, Seq<u8>)>,
        greeted: Greeted,
        opener: Opener,
        turn: Turn,
        opened: Opened,
    | #[trigger]
        s.received(now, link.0, msg@, frame, greeted, opener, turn, opened, out, s2, out2);
    let less = s.without_link(link.0);
    assert(less.links.remove(link.0) =~= s.links.remove(link.0));
    let mid = match frame {
        Some((kind, body)) => if s.links.dom().contains(link.0) {
            match s.links[link.0] {
                LinkV::Pending { attrs, deadline } => {
                    first_frame_is_local(
                        less,
                        now,
                        link.0,
                        attrs,
                        deadline,
                        kind,
                        greeted,
                        opener,
                        out,
                    );
                    let (s1, o, news) = less.first_frame(
                        now,
                        link.0,
                        attrs,
                        deadline,
                        kind,
                        greeted,
                        opener,
                        out,
                    );
                    ends_reach(s1, o, news, now, s2, out2);
                    s1
                },
                LinkV::Handshaking(h) => {
                    handshake_frame_is_local(less, now, link.0, h, kind, turn, out);
                    let (s1, o, news) = less.handshake_frame(now, link.0, h, kind, turn, out);
                    ends_reach(s1, o, news, now, s2, out2);
                    s1
                },
                LinkV::Up(u) => {
                    transport_frame_is_local(less, now, link.0, u, kind, opened, out, s2, out2);
                    choose|mid: State<W>| #[trigger]
                        others_stay(less, mid, link.0) && within_reach(mid, s2)
                },
            }
        } else {
            s2
        },
        None => s2,
    };
    assert(mid.links.remove(link.0) =~= s.links.remove(link.0));
    assert(mid.links.remove(link.0).dom().contains(other) == mid.links.dom().contains(other));
    assert(s.links.remove(link.0).dom().contains(other) == s.links.dom().contains(other));
    if s.links.dom().contains(other) {
        assert(mid.links.remove(link.0)[other] == mid.links[other]);
    }
}

} // verus!
