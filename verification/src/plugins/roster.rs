//! The peers a plugin has to tell about something that happened here.
use crate::ids::DeviceId;
use crate::plugin::{Cx, CxView, SendView};
use vstd::prelude::*;

verus! {

/// Who asked for something, and the id of the request to answer.
pub struct Asker {
    pub peer: DeviceId,
    pub request: u32,
}

/// The model of an [`Asker`].
pub struct AskerView {
    pub peer: Seq<char>,
    pub request: u32,
}

impl View for Asker {
    type V = AskerView;

    open spec fn view(&self) -> AskerView {
        AskerView { peer: self.peer@, request: self.request }
    }
}

/// What a request was, so its answer can be routed back.
pub struct Pending {
    pub peer: DeviceId,
    pub request: u32,
    /// The type of the answer, or `broadcast` for something nobody asked for.
    pub reply: &'static str,
}

/// The model of a [`Pending`].
pub struct PendingView {
    pub peer: Seq<char>,
    pub request: u32,
    pub reply: Seq<char>,
}

impl View for Pending {
    type V = PendingView;

    open spec fn view(&self) -> PendingView {
        PendingView { peer: self.peer@, request: self.request, reply: self.reply@ }
    }
}

/// The peers that are connected, in the order they came.
pub struct Roster {
    peers: Vec<DeviceId>,
}

impl View for Roster {
    type V = Seq<Seq<char>>;

    closed spec fn view(&self) -> Seq<Seq<char>> {
        self.peers@.map_values(|p: DeviceId| p@)
    }
}

/// A list with one more peer, unless it was there.
pub open spec fn joined(list: Seq<Seq<char>>, peer: Seq<char>) -> Seq<Seq<char>> {
    if list.contains(peer) {
        list
    } else {
        list.push(peer)
    }
}

/// A list without a peer.
pub open spec fn departed(list: Seq<Seq<char>>, peer: Seq<char>) -> Seq<Seq<char>> {
    list.filter(other_than(peer))
}

/// The test that only `peer` fails.
pub open spec fn other_than(peer: Seq<char>) -> spec_fn(Seq<char>) -> bool {
    |p: Seq<char>| p != peer
}

/// A message to every peer on a list but one.
pub open spec fn sent_round(
    cx: CxView,
    list: Seq<Seq<char>>,
    except: Option<Seq<char>>,
    cap: Seq<char>,
    ty: Seq<char>,
    body: Seq<u8>,
) -> CxView
    decreases list.len(),
{
    if list.len() == 0 {
        cx
    } else {
        let before = sent_round(cx, list.drop_last(), except, cap, ty, body);
        if Some(list.last()) == except {
            before
        } else {
            before.sent(list.last(), cap, ty, body, None)
        }
    }
}

impl Roster {
    /// Nobody.
    pub fn new() -> (r: Roster)
        ensures
            r@ == Seq::<Seq<char>>::empty(),
    {
        let r = Roster { peers: Vec::new() };
        assert(r@ =~= Seq::<Seq<char>>::empty());
        r
    }

    /// Adds a peer.
    pub fn add(&mut self, peer: &DeviceId)
        ensures
            final(self)@ == joined(old(self)@, peer@),
    {
        for i in 0..self.peers.len()
            invariant
                *self == *old(self),
                forall|k: int| 0 <= k < i ==> self@[k] != peer@,
        {
            if self.peers[i].is(peer) {
                assert(self@[i as int] == peer@);
                return;
            }
        }
        self.peers.push(peer.clone());
        assert(self@ =~= old(self)@.push(peer@));
    }

    /// Takes a peer off.
    pub fn drop(&mut self, peer: &DeviceId)
        ensures
            final(self)@ == departed(old(self)@, peer@),
    {
        let mut kept: Vec<DeviceId> = Vec::new();
        let ghost all = self@;
        let ghost keep = other_than(peer@);
        proof {
            reveal(Seq::filter);
            assert(all.take(0) =~= Seq::<Seq<char>>::empty());
            assert(kept@.map_values(|p: DeviceId| p@) =~= all.take(0).filter(keep));
        }
        for i in 0..self.peers.len()
            invariant
                *self == *old(self),
                all == self@,
                keep == other_than(peer@),
                kept@.map_values(|p: DeviceId| p@) == all.take(i as int).filter(keep),
        {
            proof {
                reveal(Seq::filter);
                assert(all.take(i + 1).drop_last() =~= all.take(i as int));
                assert(all.take(i + 1).last() == self.peers[i as int]@);
            }
            if !self.peers[i].is(peer) {
                let ghost so_far = kept@.map_values(|p: DeviceId| p@);
                kept.push(self.peers[i].clone());
                assert(kept@.map_values(|p: DeviceId| p@) =~= so_far.push(self.peers[i as int]@));
            }
        }
        assert(all.take(all.len() as int) =~= all);
        self.peers = kept;
    }

    /// Sends a message to every peer but one.
    pub fn tell_all(
        &self,
        cx: &mut Cx,
        except: Option<&DeviceId>,
        cap: &str,
        ty: &str,
        body: &Vec<u8>,
    )
        ensures
            final(cx)@ == sent_round(
                old(cx)@,
                self@,
                match except {
                    Some(p) => Some(p@),
                    None => None,
                },
                cap@,
                ty@,
                body@,
            ),
    {
        let ghost all = self@;
        let ghost but = match except {
            Some(p) => Some(p@),
            None => None,
        };
        let ghost start = cx@;
        assert(all.take(0) =~= Seq::<Seq<char>>::empty());
        for i in 0..self.peers.len()
            invariant
                all == self@,
                but == (match except {
                    Some(p) => Some(p@),
                    None => None,
                }),
                cx@ == sent_round(start, all.take(i as int), but, cap@, ty@, body@),
        {
            proof {
                assert(all.take(i + 1).drop_last() =~= all.take(i as int));
                assert(all.take(i + 1).last() == self.peers[i as int]@);
            }
            let skip = match except {
                Some(p) => self.peers[i].is(p),
                None => false,
            };
            if !skip {
                cx.send(&self.peers[i], cap, ty, crate::text::copy_bytes(body));
            }
        }
        assert(all.take(all.len() as int) =~= all);
    }
}

/// A peer that has left is on the list no more, and everyone else stays.
pub proof fn departed_is_gone(list: Seq<Seq<char>>, peer: Seq<char>, other: Seq<char>)
    ensures
        departed(list, peer).contains(other) <==> list.contains(other) && other != peer,
{
    let keep = other_than(peer);
    let kept = list.filter(keep);
    if kept.contains(other) {
        list.lemma_filter_contains_rev(keep, other);
        let i = choose|i: int| 0 <= i < kept.len() && kept[i] == other;
        list.lemma_filter_pred(keep, i);
    }
    if list.contains(other) && other != peer {
        let i = choose|i: int| 0 <= i < list.len() && list[i] == other;
        list.lemma_filter_contains(keep, i);
    }
}

/// Whether one of the messages that came after the first `from` is this one.
pub open spec fn sends_it(cx: CxView, from: int, m: SendView) -> bool {
    exists|k: int| from <= k < cx.sends.len() && cx.sends[k] == m
}

/// A round goes to everybody on the list but the one that is left out, once for each
/// time they are on it, in their order, and says the same to all; what was to be sent
/// before still is, and nothing else is asked for.
pub proof fn a_round_reaches_everyone_else(
    cx: CxView,
    list: Seq<Seq<char>>,
    except: Option<Seq<char>>,
    cap: Seq<char>,
    ty: Seq<char>,
    body: Seq<u8>,
)
    ensures
        ({
            let end = sent_round(cx, list, except, cap, ty, body);
            let n = cx.sends.len() as int;
            &&& end == (CxView { sends: end.sends, ..cx })
            &&& n <= end.sends.len() <= n + list.len()
            &&& forall|k: int| 0 <= k < n ==> end.sends[k] == cx.sends[k]
            &&& forall|k: int|
                n <= k < end.sends.len() ==> {
                    let m = #[trigger] end.sends[k];
                    &&& m.cap == cap && m.ty == ty && m.body == body && m.re is None
                    &&& list.contains(m.peer) && except != Some(m.peer)
                }
            &&& forall|i: int|
                0 <= i < list.len() && except != Some(#[trigger] list[i]) ==> sends_it(
                    end,
                    n,
                    SendView { peer: list[i], cap, ty, body, re: None },
                )
            &&& (forall|i: int| 0 <= i < list.len() ==> except != Some(#[trigger] list[i])) ==> {
                &&& end.sends.len() == n + list.len()
                &&& forall|i: int| 0 <= i < list.len() ==> #[trigger] end.sends[n + i].peer == list[i]
            }
        }),
    decreases list.len(),
{
    let end = sent_round(cx, list, except, cap, ty, body);
    let n = cx.sends.len() as int;
    if list.len() > 0 {
        let rest = list.drop_last();
        a_round_reaches_everyone_else(cx, rest, except, cap, ty, body);
        let before = sent_round(cx, rest, except, cap, ty, body);
        assert forall|k: int| n <= k < end.sends.len() implies {
            let m = #[trigger] end.sends[k];
            &&& m.cap == cap && m.ty == ty && m.body == body && m.re is None
            &&& list.contains(m.peer) && except != Some(m.peer)
        } by {
            if k < before.sends.len() {
                let m = before.sends[k];
                let i = choose|i: int| 0 <= i < rest.len() && rest[i] == m.peer;
                assert(list[i] == m.peer);
            } else {
                assert(list[list.len() - 1] == list.last());
            }
        }
        assert forall|i: int|
            0 <= i < list.len() && except != Some(#[trigger] list[i]) implies sends_it(
            end,
            n,
            SendView { peer: list[i], cap, ty, body, re: None },
        ) by {
            let m = SendView { peer: list[i], cap, ty, body, re: None };
            if i < rest.len() {
                assert(rest[i] == list[i]);
                let k = choose|k: int| n <= k < before.sends.len() && before.sends[k] == m;
                assert(end.sends[k] == m);
            } else {
                assert(end.sends[end.sends.len() - 1] == m);
            }
        }
        if forall|i: int| 0 <= i < list.len() ==> except != Some(#[trigger] list[i]) {
            assert forall|i: int| 0 <= i < rest.len() implies except != Some(#[trigger] rest[i]) by {
                assert(rest[i] == list[i]);
            }
            assert(except != Some(list[list.len() - 1]));
            assert forall|i: int| 0 <= i < list.len() implies #[trigger] end.sends[n + i].peer
                == list[i] by {
                if i < rest.len() {
                    assert(before.sends[n + i].peer == rest[i]);
                }
            }
        }
    }
}

/// A peer that has come is on the list, and so is everybody who was, in their order and
/// nobody twice.
pub proof fn joined_is_there(list: Seq<Seq<char>>, peer: Seq<char>, other: Seq<char>)
    ensures
        joined(list, peer).contains(other) <==> list.contains(other) || other == peer,
        list.no_duplicates() ==> joined(list, peer).no_duplicates(),
        list.is_prefix_of(joined(list, peer)),
{
    let more = joined(list, peer);
    if list.contains(other) {
        let i = choose|i: int| 0 <= i < list.len() && list[i] == other;
        assert(more[i] == other);
    }
    if !list.contains(peer) {
        assert(more[list.len() as int] == peer);
        assert(more.subrange(0, list.len() as int) =~= list);
    }
    if more.contains(other) && other != peer {
        let i = choose|i: int| 0 <= i < more.len() && more[i] == other;
        assert(list[i] == other);
    }
}

} // verus!
