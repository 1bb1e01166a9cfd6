//! What a tick clears away.
use crate::engine::events::give_up_trace;
use crate::engine::laws::{
    all_told_ran, give_up_trace_step, grows, one_told_ran, plugins_reach_no_further, within_reach,
};
use crate::engine::model::{link_deadline, AwaitV, DialV, LinkV, Out, State};
use crate::link::LinkAttrs;
use crate::plugin::Told;
use crate::table::{ascending, ascending_lists_the_set, numbers_are_finite};
use crate::vocab::{ActionView, Event, UiView};
use crate::wire::Wire;
use vstd::prelude::*;

verus! {

/// Whether no link that is not up has had its time.
pub open spec fn no_link_is_overdue<W: Wire>(s: State<W>, now: u64) -> bool {
    forall|l: u64| #[trigger]
        s.links.dom().contains(l) ==> (link_deadline(s.links[l]) matches Some(d) ==> now < d)
}

/// Whether no dial has had its time.
pub open spec fn no_dial_is_overdue<W: Wire>(s: State<W>, now: u64) -> bool {
    forall|d: u64| #[trigger] s.peer_dials.dom().contains(d) ==> now < s.peer_dials[d].0
}

/// The way a tick goes: from the pairing lapsed, over the transfers given up on,
/// to the plugins woken.
proof fn stages<W: Wire>(s: State<W>, now: u64, s2: State<W>, out2: Out) -> (r: (
    Seq<(State<W>, Out)>,
    State<W>,
    Out,
))
    requires
        s.handled(now, Event::Tick, s2, out2),
    ensures
        ({
            let (s1, o1) = s.lapse_pairing(now, Seq::empty());
            let list = s1.overdue(now);
            &&& give_up_trace(now, list, r.0)
            &&& r.0[0] == (s1, o1)
            &&& r.0[list.len() as int] == (r.1, r.2)
            &&& within_reach(s1, r.1)
            &&& r.1.tidy(now, r.2).0.woke(now, r.1.tidy(now, r.2).1, s2, out2)
        }),
{
    let (s1, o1) = s.lapse_pairing(now, Seq::empty());
    let list = s1.overdue(now);
    let (mid, om) = choose|mid: State<W>, o2: Out|
        #![trigger s1.gave_up_all(now, list, o1, mid, o2)]
        s1.gave_up_all(now, list, o1, mid, o2) && {
            let (t, o3) = mid.tidy(now, o2);
            t.woke(now, o3, s2, out2)
        };
    let trace = choose|trace: Seq<(State<W>, Out)>|
        #[trigger] give_up_trace(now, list, trace) && trace[0] == (s1, o1)
            && trace[list.len() as int] == (mid, om);
    give_up_trace_step(now, list, trace, list.len() as int);
    (trace, mid, om)
}

proof fn waking_reaches<W: Wire>(s: State<W>, now: u64, out: Out, s2: State<W>, out2: Out)
    requires
        s.woke(now, out, s2, out2),
    ensures
        within_reach(State { plugin_wake: s2.plugin_wake, ..s }, s2),
        grows(out, out2),
{
    if s.plugin_wake is Some && now >= s.plugin_wake->Some_0 {
        let w = State { plugin_wake: None, ..s };
        all_told_ran(w, now, Told::Tick, out, s2, out2);
        plugins_reach_no_further(w, now, None, out, s2, out2);
    }
}

// ------------------------------------------------------------------- pairings

/// What tidying leaves alone, and that it takes back nothing it has said.
pub open spec fn tidied<W: Wire>(s: State<W>, out: Out, s2: State<W>, out2: Out) -> bool {
    &&& s2.peers == s.peers
    &&& s2.pairing == s.pairing
    &&& s2.pair_quiet_until == s.pair_quiet_until
    &&& s2.config == s.config
    &&& s2.bulk_owner == s.bulk_owner
    &&& s2.bulk_wait == s.bulk_wait
    &&& grows(out, out2)
}

proof fn next_route_tidies<W: Wire>(s: State<W>, now: u64, p: DialV, why: Seq<char>, out: Out)
    ensures
        tidied(s, out, s.try_next_route(now, p, why, out).0, s.try_next_route(now, p, why, out).1),
        s.try_next_route(now, p, why, out).0.links == s.links,
{
}

proof fn connecting_tidies<W: Wire>(s: State<W>, now: u64, peer: Seq<char>, out: Out)
    ensures
        tidied(
            s,
            out,
            s.connect_peer(now, peer, false, out).0,
            s.connect_peer(now, peer, false, out).1,
        ),
        s.connect_peer(now, peer, false, out).0.links == s.links,
        s.clock_fits(now) && s.config.dial_timeout_ms > 0 && no_dial_is_overdue(s, now)
            ==> no_dial_is_overdue(s.connect_peer(now, peer, false, out).0, now),
{
}

proof fn connecting_all_tidies<W: Wire>(
    s: State<W>,
    now: u64,
    peers: Seq<Seq<char>>,
    n: int,
    out: Out,
)
    ensures
        tidied(
            s,
            out,
            s.connect_all(now, peers, n, out).0,
            s.connect_all(now, peers, n, out).1,
        ),
        s.connect_all(now, peers, n, out).0.links == s.links,
        s.clock_fits(now) && s.config.dial_timeout_ms > 0 && no_dial_is_overdue(s, now)
            ==> no_dial_is_overdue(s.connect_all(now, peers, n, out).0, now),
    decreases n,
{
    if n > 0 {
        connecting_all_tidies(s, now, peers, n - 1, out);
        let (mid, o) = s.connect_all(now, peers, n - 1, out);
        connecting_tidies(mid, now, peers[n - 1], o);
    }
}

proof fn reconnecting_tidies<W: Wire>(s: State<W>, now: u64, out: Out)
    ensures
        tidied(s, out, s.reconnect(now, out).0, s.reconnect(now, out).1),
        s.reconnect(now, out).0.links == s.links,
        s.clock_fits(now) && s.config.dial_timeout_ms > 0 && no_dial_is_overdue(s, now)
            ==> no_dial_is_overdue(s.reconnect(now, out).0, now),
{
    if s.reconnect_at is None || now >= s.reconnect_at->Some_0 {
        let t = State {
            reconnect_at: Some((now + s.config.reconnect_every_ms) as u64),
            ..s
        };
        let list = t.waiting();
        connecting_all_tidies(t, now, list, list.len() as int, out);
    }
}

/// Dropping some links leaves of the others each as it was.
proof fn dropping_tidies<W: Wire>(s: State<W>, now: u64, links: Seq<u64>, n: int, out: Out)
    requires
        0 <= n <= links.len(),
    ensures
        tidied(
            s,
            out,
            s.drop_all_stale(now, links, n, out).0,
            s.drop_all_stale(now, links, n, out).1,
        ),
        forall|l: u64| #[trigger]
            s.drop_all_stale(now, links, n, out).0.links.dom().contains(l)
                ==> s.links.dom().contains(l) && s.drop_all_stale(now, links, n, out).0.links[l]
                == s.links[l],
        forall|i: int|
            0 <= i < n ==> !s.drop_all_stale(now, links, n, out).0.links.dom().contains(
                #[trigger] links[i],
            ),
        s.peer_dials.dom().finite() ==> s.drop_all_stale(
            now,
            links,
            n,
            out,
        ).0.peer_dials.dom().finite(),
    decreases n,
{
    if n > 0 {
        dropping_tidies(s, now, links, n - 1, out);
        let (mid, o) = s.drop_all_stale(now, links, n - 1, out);
        let link = links[n - 1];
        let t = State { links: mid.links.remove(link), ..mid };
        let o1 = o.push(ActionView::Close { link, reason: crate::link::ReasonView::Closed });
        if mid.links.dom().contains(link) {
            match mid.links[link] {
                LinkV::Handshaking(h) => match h.fallback {
                    Some(p) => {
                        next_route_tidies(t, now, p, "got answer that cut off half way"@, o1);
                    },
                    None => {},
                },
                _ => {},
            }
        }
        let s2 = s.drop_all_stale(now, links, n, out).0;
        assert(s2.links == mid.links.remove(link));
    }
}

/// Of the dials given up on none is left, and what is dialled instead has its time
/// before it.
proof fn expiring_tidies<W: Wire>(s: State<W>, now: u64, dials: Seq<u64>, n: int, out: Out)
    requires
        0 <= n <= dials.len(),
    ensures
        tidied(s, out, s.expire_all(now, dials, n, out).0, s.expire_all(now, dials, n, out).1),
        s.expire_all(now, dials, n, out).0.links == s.links,
        s.clock_fits(now) && s.config.dial_timeout_ms > 0 ==> forall|d: u64| #[trigger]
            s.expire_all(now, dials, n, out).0.peer_dials.dom().contains(d) ==> {
                let v = s.expire_all(now, dials, n, out).0.peer_dials[d];
                now < v.0 || (s.peer_dials.dom().contains(d) && v == s.peer_dials[d]
                    && !dials.take(n).contains(d))
            },
    decreases n,
{
    if n > 0 {
        expiring_tidies(s, now, dials, n - 1, out);
        let (mid, o) = s.expire_all(now, dials, n - 1, out);
        let d = dials[n - 1];
        if mid.peer_dials.dom().contains(d) {
            let t = State { peer_dials: mid.peer_dials.remove(d), ..mid };
            next_route_tidies(t, now, mid.peer_dials[d].1, "peer didn't answer"@, o);
        }
        assert(dials.take(n) =~= dials.take(n - 1).push(d));
        assert forall|x: u64| dials.take(n).contains(x) implies x == d || dials.take(
            n - 1,
        ).contains(x) by {
            let i = choose|i: int| 0 <= i < n && dials.take(n)[i] == x;
            if i < n - 1 {
                assert(dials.take(n - 1)[i] == x);
            }
        }
    }
}

proof fn tidying_tidies<W: Wire>(s: State<W>, now: u64, out: Out)
    requires
        s.clock_fits(now),
    ensures
        tidied(s, out, s.tidy(now, out).0, s.tidy(now, out).1),
        no_link_is_overdue(s.tidy(now, out).0, now),
        s.config.dial_timeout_ms > 0 ==> no_dial_is_overdue(s.tidy(now, out).0, now),
{
    numbers_are_finite(s.peer_dials.dom());
    numbers_are_finite(s.links.dom());
    let stale = s.stale_links(now);
    let (s1, o1) = s.drop_all_stale(now, stale, stale.len() as int, out);
    dropping_tidies(s, now, stale, stale.len() as int, out);
    assert forall|l: u64| #[trigger] s1.links.dom().contains(l) implies (link_deadline(
        s1.links[l],
    ) matches Some(d) ==> now < d) by {
        if link_deadline(s1.links[l]) matches Some(d) && now >= d {
            let all = ascending::<u64>(s.links.dom());
            ascending_lists_the_set::<u64>(s.links.dom());
            assert(all.to_set().contains(l));
            all.lemma_filter_contains(
                |l: u64| (link_deadline(s.links[l]) matches Some(d) && now >= d),
                all.index_of(l),
            );
            let i = choose|i: int| 0 <= i < stale.len() && stale[i] == l;
            assert(!s1.links.dom().contains(stale[i]));
        }
    }
    let expired = s1.expired_dials(now);
    let (s2, o2) = s1.expire_all(now, expired, expired.len() as int, o1);
    expiring_tidies(s1, now, expired, expired.len() as int, o1);
    if s.config.dial_timeout_ms > 0 {
        assert forall|d: u64| #[trigger] s2.peer_dials.dom().contains(d) implies now
            < s2.peer_dials[d].0 by {
            if now >= s2.peer_dials[d].0 {
                let all = ascending::<u64>(s1.peer_dials.dom());
                ascending_lists_the_set::<u64>(s1.peer_dials.dom());
                assert(all.to_set().contains(d));
                all.lemma_filter_contains(|d: u64| now >= s1.peer_dials[d].0, all.index_of(d));
                assert(expired.take(expired.len() as int) =~= expired);
            }
        }
    }
    reconnecting_tidies(s2, now, o2);
}

/// A pairing that nobody confirms in time pairs nobody, is said to have failed, and
/// buys quiet: until the cooldown is over no pairing handshake is answered. Agreeing
/// to it afterwards does nothing. All of it goes by the host's monotonic clock,
/// whatever the wall clock says.
pub proof fn a_pairing_lapses_and_buys_quiet<W: Wire>(
    s: State<W>,
    now: u64,
    s2: State<W>,
    out2: Out,
    later: u64,
)
    requires
        s.sound(),
        s.clock_fits(now),
        s.pairing is Some,
        now >= s.pairing->Some_0.deadline,
        s.handled(now, Event::Tick, s2, out2),
    ensures
        s2.peers == s.peers,
        s2.pairing is None,
        later < now + s.config.pair_cooldown_ms ==> s2.why_not_pair(later) is Some,
        forall|accept: bool, out: Out| #[trigger]
            s2.confirm_pairing(later, accept, out) == (s2, out),
        out2.contains(
            ActionView::Ui(
                UiView::PairingFailed { reason: "nobody confirmed the pairing in time"@ },
            ),
        ),
{
    numbers_are_finite(s.peer_dials.dom());
    let (trace, mid, om) = stages(s, now, s2, out2);
    let (s1, o1) = s.lapse_pairing(now, Seq::empty());
    tidying_tidies(mid, now, om);
    let (t, o3) = mid.tidy(now, om);
    waking_reaches(t, now, o3, s2, out2);
    giving_up_grows(now, s1.overdue(now), trace, 0, s1.overdue(now).len() as int);
    let line = ActionView::Ui(
        UiView::PairingFailed { reason: "nobody confirmed the pairing in time"@ },
    );
    assert(o1.last() == line);
    assert(out2[o1.len() - 1] == line);
}

/// A pairing has its whole window from the moment it begins, and again from the
/// moment its digits are shown.
pub proof fn a_pairing_has_its_window<W: Wire>(
    s: State<W>,
    now: u64,
    link: u64,
    attrs: LinkAttrs,
    deadline: u64,
    found: AwaitV,
    out: Out,
)
    requires
        s.clock_fits(now),
    ensures
        s.begin_pairing(now).pairing matches Some(w) && w.deadline == now
            + s.config.pairing_window_ms,
        (s.pairing matches Some(w) && w.awaiting is None) ==> (s.pairing_completed(
            now,
            link,
            attrs,
            deadline,
            found,
            out,
        ).0.pairing matches Some(w) && w.awaiting == Some(found) && w.deadline == now
            + s.config.pairing_window_ms),
{
}

/// A pairing within its time outlives a tick, and is still the same one.
pub proof fn a_pairing_within_its_time_stays<W: Wire>(
    s: State<W>,
    now: u64,
    s2: State<W>,
    out2: Out,
)
    requires
        s.sound(),
        s.clock_fits(now),
        s.pairing is Some,
        now < s.pairing->Some_0.deadline,
        s.handled(now, Event::Tick, s2, out2),
    ensures
        s2.pairing == s.pairing,
        s2.peers == s.peers,
{
    numbers_are_finite(s.peer_dials.dom());
    let (trace, mid, om) = stages(s, now, s2, out2);
    tidying_tidies(mid, now, om);
    let (t, o3) = mid.tidy(now, om);
    waking_reaches(t, now, o3, s2, out2);
}

// ------------------------------------------------------------ links and dials

/// After a tick no handshake that was cut off half way holds a link.
pub proof fn a_tick_leaves_no_stale_link<W: Wire>(s: State<W>, now: u64, s2: State<W>, out2: Out)
    requires
        s.sound(),
        s.clock_fits(now),
        s.handled(now, Event::Tick, s2, out2),
    ensures
        no_link_is_overdue(s2, now),
{
    numbers_are_finite(s.peer_dials.dom());
    let (trace, mid, om) = stages(s, now, s2, out2);
    tidying_tidies(mid, now, om);
    let (t, o3) = mid.tidy(now, om);
    waking_reaches(t, now, o3, s2, out2);
    assert forall|l: u64| #[trigger] s2.links.dom().contains(l) implies (link_deadline(
        s2.links[l],
    ) matches Some(d) ==> now < d) by {
        assert(t.links.dom().contains(l));
    }
}

/// After a tick no dial that nobody answered is waited for, wherever dials are
/// given any time at all.
pub proof fn a_tick_leaves_no_stale_dial<W: Wire>(s: State<W>, now: u64, s2: State<W>, out2: Out)
    requires
        s.sound(),
        s.clock_fits(now),
        s.config.dial_timeout_ms > 0,
        s.handled(now, Event::Tick, s2, out2),
    ensures
        no_dial_is_overdue(s2, now),
{
    numbers_are_finite(s.peer_dials.dom());
    let (trace, mid, om) = stages(s, now, s2, out2);
    tidying_tidies(mid, now, om);
    let (t, o3) = mid.tidy(now, om);
    waking_reaches(t, now, o3, s2, out2);
}

// ------------------------------------------------------------------ transfers

proof fn giving_up_grows<W: Wire>(
    now: u64,
    list: Seq<u64>,
    trace: Seq<(State<W>, Out)>,
    from: int,
    to: int,
)
    requires
        give_up_trace(now, list, trace),
        0 <= from <= to <= list.len(),
    ensures
        grows(trace[from].1, trace[to].1),
    decreases to,
{
    if from < to {
        giving_up_grows(now, list, trace, from, to - 1);
        let (s, out) = trace[to - 1];
        assert(s.gave_up(now, list[to - 1], out, trace[to].0, trace[to].1));
        giving_up_says_so(s, now, list[to - 1], out, trace[to].0, trace[to].1);
    }
}

proof fn giving_up_says_so<W: Wire>(
    s: State<W>,
    now: u64,
    transfer: u64,
    out: Out,
    s2: State<W>,
    out2: Out,
)
    requires
        s.gave_up(now, transfer, out, s2, out2),
    ensures
        grows(out, out2),
        out.len() < out2.len(),
        out2[out.len() as int] == (ActionView::BulkCancel { transfer }),
{
    let t = State { bulk_wait: s.bulk_wait.remove(transfer), ..s };
    let o = out.push(ActionView::BulkCancel { transfer });
    let told = Told::Finished { transfer, ok: false, detail: "the sender never connected"@ };
    let mid = choose|mid: State<W>|
        #![trigger t.owner_told(now, transfer, told, o, mid, out2)]
        t.owner_told(now, transfer, told, o, mid, out2) && s2 == (State {
            bulk_owner: mid.bulk_owner.remove(transfer),
            ..mid
        });
    if t.bulk_owner.dom().contains(transfer) {
        let idx = t.bulk_owner[transfer];
        one_told_ran(t, now, idx, told, None, Ok(()), o, mid, out2);
        plugins_reach_no_further(t, now, Some(idx), o, mid, out2);
    }
    assert(grows(o, out2));
}

/// A transfer whose sender has not connected in time is called off at the next
/// tick.
pub proof fn an_unclaimed_transfer_is_called_off<W: Wire>(
    s: State<W>,
    now: u64,
    s2: State<W>,
    out2: Out,
    transfer: u64,
)
    requires
        s.sound(),
        s.clock_fits(now),
        s.bulk_wait.dom().contains(transfer),
        now >= s.bulk_wait[transfer],
        s.handled(now, Event::Tick, s2, out2),
    ensures
        out2.contains(ActionView::BulkCancel { transfer }),
{
    numbers_are_finite(s.peer_dials.dom());
    numbers_are_finite(s.bulk_wait.dom());
    let (trace, mid, om) = stages(s, now, s2, out2);
    let (s1, o1) = s.lapse_pairing(now, Seq::empty());
    let list = s1.overdue(now);
    let all = ascending::<u64>(s1.bulk_wait.dom());
    ascending_lists_the_set::<u64>(s1.bulk_wait.dom());
    assert(all.to_set().contains(transfer));
    all.lemma_filter_contains(|t: u64| now >= s1.bulk_wait[t], all.index_of(transfer));
    let i = choose|i: int| 0 <= i < list.len() && list[i] == transfer;
    let (before, o) = trace[i];
    assert(before.gave_up(now, list[i], o, trace[i + 1].0, trace[i + 1].1));
    giving_up_says_so(before, now, transfer, o, trace[i + 1].0, trace[i + 1].1);
    giving_up_grows(now, list, trace, i + 1, list.len() as int);
    tidying_tidies(mid, now, om);
    let (t, o3) = mid.tidy(now, om);
    waking_reaches(t, now, o3, s2, out2);
    assert(out2[o.len() as int] == (ActionView::BulkCancel { transfer }));
}

} // verus!
