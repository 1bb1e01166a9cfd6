//! Which compositor sockets to ask whether the screen is actually locked.
//!
//! logind's `LockedHint` can be wrong (Hyprland/Noctalia reports `no` while
//! locked); a `no` on an active Wayland session is escalated to the
//! compositor, but no answer means no opinion, never "unlocked".
use crate::text::{chars_of, join2, join3, same, texts};
use crate::words::{between, find_next, next_of, text_of};
use vstd::prelude::*;

verus! {

/// The name of the socket in an instance's directory.
pub const SOCKET: &'static str = ".socket.sock";

/// Whether a piece of a path counts: an empty one does not, and a dot only at
/// the start.
pub open spec fn counts(piece: Seq<char>, at: int) -> bool {
    piece.len() > 0 && (piece != seq!['.'] || at == 0)
}

/// The pieces of a path from `i` on.
pub open spec fn pieces(p: Seq<char>, i: int) -> Seq<Seq<char>>
    decreases p.len() - i,
{
    if !(0 <= i <= p.len()) {
        Seq::empty()
    } else {
        let end = next_of(p, '/', i);
        let piece = p.subrange(i, end);
        let rest = if i <= end < p.len() {
            pieces(p, end + 1)
        } else {
            Seq::empty()
        };
        if counts(piece, i) {
            seq![piece] + rest
        } else {
            rest
        }
    }
}

/// The components of a path: the root, if it starts there, and the pieces that
/// slashes separate.
pub open spec fn components(p: Seq<char>) -> Seq<Seq<char>> {
    if p.len() > 0 && p[0] == '/' {
        seq![seq!['/']] + pieces(p, 0)
    } else {
        pieces(p, 0)
    }
}

/// A path below another; an absolute one replaces it.
pub open spec fn joined(a: Seq<char>, b: Seq<char>) -> Seq<char> {
    if b.len() > 0 && b[0] == '/' {
        b
    } else if a.len() == 0 || a.last() == '/' {
        a + b
    } else {
        a + seq!['/'] + b
    }
}

/// The socket in a directory.
pub open spec fn socket_in(dir: Seq<char>) -> Seq<char> {
    joined(dir, SOCKET@)
}

/// A list of paths without those that are the same as the one before.
pub open spec fn deduped(list: Seq<Seq<char>>) -> Seq<Seq<char>>
    decreases list.len(),
{
    if list.len() == 0 {
        Seq::empty()
    } else {
        let before = deduped(list.drop_last());
        if before.len() > 0 && components(before.last()) == components(list.last()) {
            before
        } else {
            before.push(list.last())
        }
    }
}

/// Whether a signature is a bare name: one that is not empty and holds no
/// separator.
pub open spec fn is_bare(signature: Seq<char>) -> bool {
    signature.len() > 0 && !signature.contains('/')
}

/// The sockets to try before duplicates are dropped: the signature's own, where
/// it is a bare name, then the newest directory first.
pub open spec fn in_order(
    hypr: Seq<char>,
    signature: Option<Seq<char>>,
    dirs: Seq<Seq<char>>,
) -> Seq<
    Seq<char>,
> {
    let rest = dirs.map_values(|d: Seq<char>| socket_in(d));
    match signature {
        Some(s) => if is_bare(s) {
            seq![socket_in(joined(hypr, s))] + rest
        } else {
            rest
        },
        None => rest,
    }
}

fn is_dot(t: &Vec<char>) -> (r: bool)
    ensures
        r == (t@ == seq!['.']),
{
    let r = t.len() == 1 && t[0] == '.';
    proof {
        if r {
            assert(t@ =~= seq!['.']);
        }
    }
    r
}

fn components_of(p: &str) -> (r: Vec<String>)
    ensures
        texts(r@) == components(p@),
{
    let all = chars_of(p);
    let mut out: Vec<String> = Vec::new();
    let ghost start = if p@.len() > 0 && p@[0] == '/' {
        seq![seq!['/']]
    } else {
        Seq::<Seq<char>>::empty()
    };
    if all.len() > 0 && all[0] == '/' {
        out.push("/".to_owned());
        proof {
            reveal_strlit("/");
            assert(out@[0]@ =~= seq!['/']);
        }
    }
    assert(texts(out@) =~= start);
    let mut i: usize = 0;
    assert(texts(out@) + pieces(all@, 0) =~= components(p@));
    loop
        invariant
            all@ == p@,
            i <= all@.len(),
            texts(out@) + pieces(all@, i as int) == components(p@),
        decreases all@.len() - i,
    {
        let end: usize = find_next(&all, '/', i);
        let piece = between(&all, i, end);
        let ghost so_far = texts(out@);
        if piece.len() > 0 && (i == 0 || !is_dot(&piece)) {
            out.push(text_of(&piece));
            assert(texts(out@) =~= so_far.push(piece@));
        } else {
            assert(!counts(piece@, i as int));
        }
        if end >= all.len() {
            assert(texts(out@) =~= components(p@));
            return out;
        }
        proof {
            assert(texts(out@) + pieces(all@, end + 1) =~= components(p@));
        }
        i = end + 1;
    }
}

fn same_path(a: &str, b: &str) -> (r: bool)
    ensures
        r == (components(a@) == components(b@)),
{
    let x = components_of(a);
    let y = components_of(b);
    if x.len() != y.len() {
        assert(texts(x@).len() != texts(y@).len());
        return false;
    }
    for i in 0..x.len()
        invariant
            x@.len() == y@.len(),
            texts(x@) == components(a@),
            texts(y@) == components(b@),
            forall|k: int| 0 <= k < i ==> x@[k]@ == y@[k]@,
    {
        if !same(x[i].as_str(), y[i].as_str()) {
            assert(texts(x@)[i as int] != texts(y@)[i as int]);
            return false;
        }
    }
    assert(texts(x@) =~= texts(y@));
    true
}

fn join_path(a: &str, b: &str) -> (r: String)
    ensures
        r@ == joined(a@, b@),
{
    let x = chars_of(a);
    let y = chars_of(b);
    if y.len() > 0 && y[0] == '/' {
        b.to_owned()
    } else if x.len() == 0 || x[x.len() - 1] == '/' {
        join2(a, b)
    } else {
        proof {
            reveal_strlit("/");
            assert("/"@ =~= seq!['/']);
        }
        join3(a, "/", b)
    }
}

fn bare(signature: &str) -> (r: bool)
    ensures
        r == is_bare(signature@),
{
    let all = chars_of(signature);
    for i in 0..all.len()
        invariant
            all@ == signature@,
            forall|k: int| 0 <= k < i ==> all@[k] != '/',
    {
        if all[i] == '/' {
            assert(signature@.contains('/'));
            return false;
        }
    }
    all.len() > 0
}

/// Adds a path unless it is the same as the last.
fn push_new(out: &mut Vec<String>, p: String, Ghost(list): Ghost<Seq<Seq<char>>>)
    requires
        texts(old(out)@) == deduped(list),
    ensures
        texts(final(out)@) == deduped(list.push(p@)),
{
    let ghost so_far = texts(out@);
    assert(list.push(p@).drop_last() =~= list);
    let repeat = if out.len() > 0 {
        same_path(out[out.len() - 1].as_str(), p.as_str())
    } else {
        false
    };
    if !repeat {
        out.push(p);
        assert(texts(out@) =~= so_far.push(p@));
    }
}

/// Which sockets to try, best first.
///
/// The signature may be stale after a restart, since systemd caches the
/// environment it started with, so the directories follow, newest first. A
/// signature with a separator is not a bare name and is ignored; joining it would
/// lead out of the directory.
pub fn order(hypr: &str, signature: Option<&str>, newest_first: &Vec<String>) -> (r: Vec<String>)
    ensures
        texts(r@) == deduped(
            in_order(
                hypr@,
                match signature {
                    Some(s) => Some(s@),
                    None => None,
                },
                texts(newest_first@),
            ),
        ),
{
    let mut out: Vec<String> = Vec::new();
    let ghost mut list = Seq::<Seq<char>>::empty();
    let ghost dirs = texts(newest_first@);
    assert(texts(out@) =~= deduped(list));
    match signature {
        Some(sig) => {
            if bare(sig) {
                let dir = join_path(hypr, sig);
                let p = join_path(dir.as_str(), SOCKET);
                let ghost pv = p@;
                push_new(&mut out, p, Ghost(list));
                proof {
                    list = list.push(pv);
                }
            }
        },
        None => {},
    }
    let ghost start = list;
    let ghost rest = dirs.map_values(|d: Seq<char>| socket_in(d));
    proof {
        assert(list =~= start + rest.take(0));
    }
    for i in 0..newest_first.len()
        invariant
            dirs == texts(newest_first@),
            rest == dirs.map_values(|d: Seq<char>| socket_in(d)),
            list == start + rest.take(i as int),
            texts(out@) == deduped(list),
    {
        let p = join_path(newest_first[i].as_str(), SOCKET);
        let ghost pv = p@;
        push_new(&mut out, p, Ghost(list));
        proof {
            assert(dirs[i as int] == newest_first@[i as int]@);
            assert(rest.take(i + 1) =~= rest.take(i as int).push(pv));
            list = list.push(pv);
            assert(list =~= start + rest.take(i + 1));
        }
    }
    proof {
        assert(rest.take(rest.len() as int) =~= rest);
        let sig = match signature {
            Some(s) => Some(s@),
            None => None,
        };
        assert(list =~= in_order(hypr@, sig, dirs));
    }
    out
}

/// What was found: when each directory was last modified, and its path.
pub open spec fn dated(found: Seq<(i128, String)>) -> Seq<(i128, Seq<char>)> {
    found.map_values(|e: (i128, String)| (e.0, e.1@))
}

/// How many at the start of a list are no older than `time`.
pub open spec fn no_older(list: Seq<(i128, Seq<char>)>, time: i128) -> int
    decreases list.len(),
{
    if list.len() == 0 || list[0].0 < time {
        0
    } else {
        1 + no_older(list.skip(1), time)
    }
}

/// A list with the newest first; of two that are equally old, the one that came
/// first stays first.
pub open spec fn by_age(list: Seq<(i128, Seq<char>)>) -> Seq<(i128, Seq<char>)>
    decreases list.len(),
{
    if list.len() == 0 {
        list
    } else {
        let before = by_age(list.drop_last());
        before.insert(no_older(before, list.last().0), list.last())
    }
}

proof fn no_older_is(list: Seq<(i128, Seq<char>)>, time: i128, k: int)
    requires
        0 <= k <= list.len(),
        forall|i: int| 0 <= i < k ==> (#[trigger] list[i]).0 >= time,
        k < list.len() ==> list[k].0 < time,
    ensures
        no_older(list, time) == k,
    decreases k,
{
    if k > 0 {
        assert forall|i: int| 0 <= i < k - 1 implies (#[trigger] list.skip(1)[i]).0 >= time by {
            assert(list[i + 1].0 >= time);
        }
        no_older_is(list.skip(1), time, k - 1);
    }
}

proof fn no_older_splits(list: Seq<(i128, Seq<char>)>, time: i128)
    ensures
        0 <= no_older(list, time) <= list.len(),
        forall|i: int| 0 <= i < no_older(list, time) ==> (#[trigger] list[i]).0 >= time,
        no_older(list, time) < list.len() ==> list[no_older(list, time)].0 < time,
    decreases list.len(),
{
    if list.len() > 0 && list[0].0 >= time {
        no_older_splits(list.skip(1), time);
        assert forall|i: int| 0 <= i < no_older(list, time) implies (#[trigger] list[i]).0
            >= time by {
            if i > 0 {
                assert(list.skip(1)[i - 1].0 >= time);
            }
        }
    }
}

/// The freshest directory comes first, and none is lost or made up.
pub proof fn the_freshest_is_first(list: Seq<(i128, Seq<char>)>)
    ensures
        forall|i: int, j: int|
            0 <= i <= j < by_age(list).len() ==> (#[trigger] by_age(list)[i]).0 >= (
            #[trigger] by_age(list)[j]).0,
        by_age(list).to_multiset() == list.to_multiset(),
        by_age(list).len() == list.len(),
    decreases list.len(),
{
    if list.len() > 0 {
        let before = by_age(list.drop_last());
        let last = list.last();
        let at = no_older(before, last.0);
        the_freshest_is_first(list.drop_last());
        no_older_splits(before, last.0);
        broadcast use vstd::seq_lib::group_to_multiset_ensures;

        assert(list =~= list.drop_last().push(last));
        let after = before.insert(at, last);
        assert forall|i: int, j: int| 0 <= i <= j < after.len() implies (#[trigger] after[i]).0 >= (
        #[trigger] after[j]).0 by {
            let x: int = if i < at {
                i
            } else {
                i - 1
            };
            let y: int = if j < at {
                j
            } else {
                j - 1
            };
            if i == at && j > at {
                assert(before[at].0 >= before[y].0);
            } else if j == at && i < at {
                assert(before[i].0 >= last.0);
            } else if i != at && j != at {
                assert(before[x].0 >= before[y].0);
            }
        }
    }
}

/// The directories found, newest first: the freshest is the live one after a
/// restart. Each comes with the time it was last modified.
pub fn newest_first(found: Vec<(i128, String)>) -> (r: Vec<String>)
    ensures
        texts(r@) == by_age(dated(found@)).map_values(|e: (i128, Seq<char>)| e.1),
{
    let ghost all = dated(found@);
    let mut times: Vec<i128> = Vec::new();
    let mut names: Vec<String> = Vec::new();
    let ghost mut sorted: Seq<(i128, Seq<char>)> = Seq::empty();
    assert(sorted =~= by_age(all.take(0)));
    for i in 0..found.len()
        invariant
            all == dated(found@),
            sorted == by_age(all.take(i as int)),
            sorted.len() == i,
            times@.len() == i,
            names@.len() == i,
            forall|k: int|
                0 <= k < i ==> (#[trigger] sorted[k]) == (times@[k], names@[k]@),
    {
        let time: i128 = found[i].0;
        let mut at: usize = 0;
        while at < times.len() && times[at] >= time
            invariant
                at <= times@.len(),
                times@.len() == sorted.len(),
                names@.len() == sorted.len(),
                forall|k: int|
                    0 <= k < sorted.len() ==> (#[trigger] sorted[k]) == (times@[k], names@[k]@),
                forall|k: int| 0 <= k < at ==> (#[trigger] sorted[k]).0 >= time,
            decreases times@.len() - at,
        {
            assert(sorted[at as int].0 >= time);
            at = at + 1;
        }
        proof {
            if at < sorted.len() {
                assert(sorted[at as int].0 == times@[at as int]);
            }
            no_older_is(sorted, time, at as int);
            assert(all.take(i + 1).drop_last() =~= all.take(i as int));
            assert(all.take(i + 1).last() == (time, found@[i as int].1@));
        }
        let ghost (t0, n0) = (times@, names@);
        times.insert(at, time);
        names.insert(at, found[i].1.clone());
        proof {
            let before = sorted;
            sorted = before.insert(at as int, (time, found@[i as int].1@));
            assert forall|k: int| 0 <= k < i + 1 implies (#[trigger] sorted[k]) == (
                times@[k],
                names@[k]@,
            ) by {
                if k < at {
                    assert(before[k] == (t0[k], n0[k]@));
                } else if k > at {
                    assert(before[k - 1] == (t0[k - 1], n0[k - 1]@));
                }
            }
        }
    }
    assert(all.take(found@.len() as int) =~= all);
    assert(texts(names@) =~= sorted.map_values(|e: (i128, Seq<char>)| e.1));
    names
}

/// The boolean field of a name in the object that a JSON text is; `None` where it
/// is no such text, or has no such field.
pub uninterp spec fn bool_field(json: Seq<char>, name: Seq<char>) -> Option<bool>;

/// `serde_json::from_str` into a `Value`, then `Value::get` and `Value::as_bool`,
/// under the name [`bool_field`].
#[verifier::external_body]
fn json_bool(json: &str, name: &str) -> (r: Option<bool>)
    ensures
        r == bool_field(json@, name@),
{
    let value: serde_json::Value = serde_json::from_str(json).ok()?;
    value.get(name)?.as_bool()
}

/// What a compositor's reply says of the screen: whether it is locked, or `None`
/// where it does not say.
pub fn says_locked(reply: &str) -> (r: Option<bool>)
    ensures
        r == bool_field(reply@, "locked"@),
{
    json_bool(reply, "locked")
}

/// A path below a directory is the two with one slash between, however the directory
/// ends; one that starts at the root stands alone.
pub proof fn a_path_goes_below_its_directory(a: Seq<char>, b: Seq<char>)
    ensures
        b.len() > 0 && b[0] == '/' ==> joined(a, b) == b,
        (a.len() > 0 && a.last() != '/' && (b.len() == 0 || b[0] != '/')) ==> joined(a, b) == a
            + seq!['/'] + b,
        (a.len() > 0 && a.last() == '/' && (b.len() == 0 || b[0] != '/')) ==> joined(a, b) == a + b,
{
}

/// The signature's own socket is tried first, where the signature is a bare name; the
/// directories' follow in the order they were found in. A signature that is none is
/// ignored.
pub proof fn the_signatures_socket_comes_first(
    hypr: Seq<char>,
    signature: Seq<char>,
    dirs: Seq<Seq<char>>,
    i: int,
)
    requires
        hypr.len() > 0,
        hypr.last() != '/',
    ensures
        (signature.len() > 0 && !signature.contains('/')) ==> ({
            let list = in_order(hypr, Some(signature), dirs);
            &&& list.len() == dirs.len() + 1
            &&& list[0] == hypr + seq!['/'] + signature + seq!['/'] + ".socket.sock"@
            &&& 0 <= i < dirs.len() ==> list[i + 1] == socket_in(dirs[i])
        }),
        (signature.len() == 0 || signature.contains('/')) ==> in_order(hypr, Some(signature), dirs)
            == in_order(hypr, None, dirs),
        in_order(hypr, None, dirs).len() == dirs.len(),
        0 <= i < dirs.len() ==> in_order(hypr, None, dirs)[i] == socket_in(dirs[i]),
{
    reveal_strlit(".socket.sock");
    if signature.len() > 0 && !signature.contains('/') {
        assert(signature[0] != '/') by {
            if signature[0] == '/' {
                assert(signature.contains('/'));
            }
        }
        let dir = joined(hypr, signature);
        assert(dir == hypr + seq!['/'] + signature);
        assert(dir.last() == signature.last());
        assert(signature.last() != '/') by {
            if signature.last() == '/' {
                assert(signature[signature.len() - 1] == '/');
                assert(signature.contains('/'));
            }
        }
        assert(socket_in(dir) == dir + seq!['/'] + ".socket.sock"@);
    }
}

/// Of paths that are the same one after the other the first is tried, and no other is
/// dropped: what is left are paths of the list, none of which is the same as the one
/// before it, and the first of the list among them.
pub proof fn only_repeats_are_dropped(list: Seq<Seq<char>>, i: int)
    ensures
        deduped(list).len() <= list.len(),
        list.len() > 0 ==> deduped(list).len() > 0 && deduped(list)[0] == list[0],
        0 < i < deduped(list).len() ==> components(deduped(list)[i]) != components(
            deduped(list)[i - 1],
        ),
        0 <= i < list.len() ==> exists|k: int|
            0 <= k < deduped(list).len() && components(#[trigger] deduped(list)[k]) == components(
                list[i],
            ),
    decreases list.len(),
{
    if list.len() > 0 {
        let less = list.drop_last();
        only_repeats_are_dropped(less, i);
        let before = deduped(less);
        let all = deduped(list);
        if 0 <= i < less.len() {
            let k = choose|k: int|
                0 <= k < before.len() && components(#[trigger] before[k]) == components(less[i]);
            assert(all[k] == before[k]);
            assert(components(all[k]) == components(list[i]));
        } else if i == less.len() {
            assert(components(all[all.len() - 1]) == components(list[i]));
        }
    }
}

/// What a path is made of does not change with a slash too many, or a dot in the middle.
pub proof fn what_counts_of_a_path(piece: Seq<char>, at: int)
    ensures
        piece.len() == 0 ==> !counts(piece, at),
        piece == seq!['.'] && at > 0 ==> !counts(piece, at),
        piece == seq!['.'] && at == 0 ==> counts(piece, at),
        piece.len() > 0 && piece != seq!['.'] ==> counts(piece, at),
{
}

/// A screen is locked where the reply says so of the field that it is asked for.
pub proof fn a_reply_is_asked_for_its_lock(reply: &str, r: Option<bool>)
    requires
        call_ensures(says_locked, (reply,), r),
    ensures
        r == bool_field(reply@, "locked"@),
{
}

} // verus!
