//! A message body is one CBOR item, and so is everything a body is made of.
//!
//! [`Body`] says how a value is written and how it is read. Lists of bodies and
//! the one law that holds of all of them, that what was written reads back, are
//! stated here once.
use crate::cbor::{
    close, close_at, every_end_is_later, get_text, head, more, more_at, need, next_at, open,
    open_at, past, put_array, put_text, stands, step, text_at, text_item, Cursor, Next, Place,
};
use vstd::prelude::*;

verus! {

/// A value that travels as one CBOR item.
pub trait Body: View + Sized {
    /// The bytes a value is written as.
    spec fn item(v: Self::V) -> Seq<u8>;

    /// The value that the item at `at` stands for, and where the item ends.
    spec fn item_at(b: Seq<u8>, at: int) -> Option<(Self::V, int)>;

    /// What was written reads back.
    proof fn item_reads(w: Seq<u8>, at: int, v: Self::V)
        requires
            w.len() <= u64::MAX,
            stands(w, at, Self::item(v)),
        ensures
            Self::item_at(w, at) == Some((v, at + Self::item(v).len())),
            next_at(w, at) == Some(Next::Item),
            Self::item(v).len() > 0,
    ;

    /// An item that was read ends after it starts.
    proof fn item_moves_on(b: Seq<u8>, at: int)
        ensures
            Self::item_at(b, at) matches Some((_, end)) ==> at < end <= b.len(),
    ;

    /// Writes the value after what is there.
    fn put(&self, out: &mut Vec<u8>)
        ensures
            final(out)@ == old(out)@ + Self::item(self@),
    ;

    /// Reads the value at `at`.
    fn get(b: &[u8], at: usize) -> (r: Option<(Self, usize)>)
        ensures
            r matches Some((v, end)) ==> Self::item_at(b@, at as int) == Some((v@, end as int)),
            r is None ==> Self::item_at(b@, at as int) is None,
    ;
}

/// What a run of bytes stands for: the value of its first item.
pub open spec fn value_of<T: Body>(b: Seq<u8>) -> Option<T::V> {
    match T::item_at(b, 0) {
        Some((v, _)) => Some(v),
        None => None,
    }
}

/// The bytes of a body.
pub fn to_bytes<T: Body>(v: &T) -> (b: Vec<u8>)
    ensures
        b@ == T::item(v@),
{
    let mut out: Vec<u8> = Vec::new();
    v.put(&mut out);
    assert(out@ =~= T::item(v@));
    out
}

/// The body that bytes start with.
pub fn from_bytes<T: Body>(b: &[u8]) -> (r: Option<T>)
    ensures
        r matches Some(v) ==> value_of::<T>(b@) == Some(v@),
        r is None ==> value_of::<T>(b@) is None,
{
    match T::get(b, 0) {
        Some((v, _)) => Some(v),
        None => None,
    }
}

/// A body reads back as it was written.
pub proof fn body_reads_back<T: Body>(v: T::V)
    requires
        T::item(v).len() <= u64::MAX,
    ensures
        value_of::<T>(T::item(v)) == Some(v),
{
    crate::cbor::stands_whole(T::item(v));
    T::item_reads(T::item(v), 0, v);
}

impl Body for String {
    open spec fn item(v: Seq<char>) -> Seq<u8> {
        text_item(v)
    }

    open spec fn item_at(b: Seq<u8>, at: int) -> Option<(Seq<char>, int)> {
        text_at(b, at)
    }

    proof fn item_reads(w: Seq<u8>, at: int, v: Seq<char>) {
        crate::cbor::text_reads(w, at, v);
    }

    proof fn item_moves_on(b: Seq<u8>, at: int) {
        crate::cbor::text_moves_on(b, at);
    }

    fn put(&self, out: &mut Vec<u8>) {
        put_text(out, self.as_str());
    }

    fn get(b: &[u8], at: usize) -> (r: Option<(String, usize)>) {
        get_text(b, at)
    }
}

// --------------------------------------------------------------------- lists

/// The models of a list of values.
pub open spec fn views<T: View>(list: Seq<T>) -> Seq<T::V> {
    list.map_values(|v: T| v@)
}

/// The items of a list, one after the other.
#[verifier::opaque]
pub open spec fn items<T: Body>(list: Seq<T::V>) -> Seq<u8>
    decreases list.len(),
{
    if list.len() == 0 {
        Seq::empty()
    } else {
        items::<T>(list.drop_last()) + T::item(list.last())
    }
}

/// The bytes of a list.
#[verifier::opaque]
pub open spec fn list_item<T: Body>(list: Seq<T::V>) -> Seq<u8> {
    head(4, list.len() as int) + items::<T>(list)
}

/// The values from `p` to the end of the list.
#[verifier::opaque]
pub open spec fn list_from<T: Body>(b: Seq<u8>, p: Place) -> Option<(Seq<T::V>, int)>
    decreases b.len() - p.at,
{
    match more_at(b, p) {
        None => None,
        Some(false) => match close_at(b, p) {
            Some(end) => Some((Seq::empty(), end)),
            None => None,
        },
        Some(true) => match T::item_at(b, p.at) {
            Some((v, end)) => if p.at < end <= b.len() {
                match list_from::<T>(b, past(p, end)) {
                    Some((more, end)) => Some((seq![v] + more, end)),
                    None => None,
                }
            } else {
                None
            },
            None => None,
        },
    }
}

/// A list, and where it ends.
#[verifier::opaque]
pub open spec fn list_at<T: Body>(b: Seq<u8>, at: int) -> Option<(Seq<T::V>, int)> {
    match open_at(b, at) {
        Some(p) => list_from::<T>(b, p),
        None => None,
    }
}

/// A list after `p`.
pub open spec fn list_field<T: Body>(b: Seq<u8>, p: Option<Place>) -> Option<(Seq<T::V>, Place)> {
    match p {
        Some(p) => need(b, p, list_at::<T>(b, p.at)),
        None => None,
    }
}

/// Writes a list.
pub(crate) fn put_list<T: Body>(out: &mut Vec<u8>, list: &Vec<T>)
    ensures
        final(out)@ == old(out)@ + list_item::<T>(views(list@)),
{
    reveal(list_item);
    reveal(items);
    put_array(out, list.len() as u64);
    let ghost start = out@;
    let ghost all = views(list@);
    assert(all.take(0) =~= Seq::<T::V>::empty());
    assert(start + items::<T>(all.take(0)) =~= start);
    for i in 0..list.len()
        invariant
            all == views(list@),
            out@ == start + items::<T>(all.take(i as int)),
    {
        list[i].put(out);
        proof {
            reveal(items);
            let next = all.take(i + 1);
            assert(next.drop_last() =~= all.take(i as int));
            assert(next.last() == list[i as int]@);
            assert(out@ =~= start + items::<T>(next));
        }
    }
    assert(all.take(all.len() as int) =~= all);
}

/// Reads a list.
pub(crate) fn get_list<T: Body>(b: &[u8], at: usize) -> (r: Option<(Vec<T>, usize)>)
    ensures
        r matches Some((v, end)) ==> list_at::<T>(b@, at as int) == Some((views(v@), end as int)),
        r is None ==> list_at::<T>(b@, at as int) is None,
{
    reveal(list_at);
    reveal(list_from);
    let mut c: Cursor = match open(b, at) {
        Some(c) => c,
        None => {
            return None;
        },
    };
    let mut out: Vec<T> = Vec::new();
    let ghost goal = list_from::<T>(b@, c@);
    assert(views(out@) =~= Seq::<T::V>::empty());
    proof {
        match goal {
            Some((all, _)) => {
                assert(views(out@) + all =~= all);
            },
            None => {},
        }
    }
    loop
        invariant
            goal == list_at::<T>(b@, at as int),
            match list_from::<T>(b@, c@) {
                Some((more, end)) => goal == Some((views(out@) + more, end)),
                None => goal is None,
            },
        decreases b@.len() - c.at,
    {
        reveal(list_from);
        match more(b, c) {
            None => {
                return None;
            },
            Some(false) => {
                return match close(b, c) {
                    Some(end) => {
                        assert(views(out@) + Seq::<T::V>::empty() =~= views(out@));
                        Some((out, end))
                    },
                    None => None,
                };
            },
            Some(true) => {
                match T::get(b, c.at) {
                    Some((v, end)) => {
                        proof {
                            T::item_moves_on(b@, c.at as int);
                            let so_far = views(out@);
                            match list_from::<T>(b@, past(c@, end as int)) {
                                Some((more, _)) => {
                                    assert(so_far + (seq![v@] + more) =~= so_far.push(v@) + more);
                                },
                                None => {},
                            }
                            assert(views(out@.push(v)) =~= so_far.push(v@));
                        }
                        out.push(v);
                        c = step(b, c, end);
                    },
                    None => {
                        return None;
                    },
                }
            },
        }
    }
}

/// A required list.
pub(crate) fn field_list<T: Body>(b: &[u8], c: Cursor) -> (r: Option<(Vec<T>, Cursor)>)
    ensures
        r matches Some((v, d)) ==> list_field::<T>(b@, Some(c@)) == Some((views(v@), d@)),
        r is None ==> list_field::<T>(b@, Some(c@)) is None,
{
    proof {
        list_moves_on::<T>(b@, c.at as int);
    }
    match more(b, c) {
        Some(true) => match get_list::<T>(b, c.at) {
            Some((v, end)) => Some((v, step(b, c, end))),
            None => None,
        },
        _ => None,
    }
}

proof fn list_from_moves_on<T: Body>(b: Seq<u8>, p: Place)
    requires
        p.at <= b.len(),
    ensures
        list_from::<T>(b, p) matches Some((_, end)) ==> p.at <= end <= b.len(),
    decreases b.len() - p.at,
{
    reveal(list_from);
    every_end_is_later(b);
    if more_at(b, p) == Some(true) {
        match T::item_at(b, p.at) {
            Some((_, end)) => if p.at < end <= b.len() {
                list_from_moves_on::<T>(b, past(p, end));
            },
            None => {},
        }
    }
}

/// A list that was read ends after it starts.
pub proof fn list_moves_on<T: Body>(b: Seq<u8>, at: int)
    ensures
        list_at::<T>(b, at) matches Some((_, end)) ==> at < end <= b.len(),
{
    reveal(list_at);
    crate::cbor::open_moves_on(b, at);
    match open_at(b, at) {
        Some(p) => {
            list_from_moves_on::<T>(b, p);
        },
        None => {},
    }
}

proof fn items_contain<T: Body>(list: Seq<T::V>, k: int)
    requires
        0 <= k < list.len(),
    ensures
        items::<T>(list.take(k)).len() + T::item(list[k]).len() <= items::<T>(list).len(),
        items::<T>(list).subrange(
            items::<T>(list.take(k)).len() as int,
            (items::<T>(list.take(k)).len() + T::item(list[k]).len()) as int,
        ) == T::item(list[k]),
    decreases list.len(),
{
    reveal(items);
    let before = items::<T>(list.take(k));
    let t = T::item(list[k]);
    let end = (before.len() + t.len()) as int;
    if k == list.len() - 1 {
        assert(list.take(k) =~= list.drop_last());
        assert(items::<T>(list).subrange(before.len() as int, end) =~= t);
    } else {
        let shorter = list.drop_last();
        items_contain::<T>(shorter, k);
        assert(shorter.take(k) =~= list.take(k));
        assert(items::<T>(list).subrange(before.len() as int, end) =~= items::<T>(shorter).subrange(
            before.len() as int,
            end,
        ));
    }
}

proof fn list_reads_from<T: Body>(w: Seq<u8>, at: int, list: Seq<T::V>, k: int)
    requires
        w.len() <= u64::MAX,
        0 <= k <= list.len() <= u64::MAX,
        stands(w, at, items::<T>(list)),
    ensures
        list_from::<T>(
            w,
            Place { at: at + items::<T>(list.take(k)).len(), left: Some((list.len() - k) as u64) },
        ) == Some((list.skip(k), at + items::<T>(list).len())),
    decreases list.len() - k,
{
    let here = at + items::<T>(list.take(k)).len();
    reveal(list_from);
    if k == list.len() {
        assert(list.take(k) =~= list);
        assert(list.skip(k) =~= Seq::empty());
    } else {
        assert(items::<T>(list.take(k + 1)) == items::<T>(list.take(k)) + T::item(list[k])) by {
            reveal(items);
            assert(list.take(k + 1).drop_last() =~= list.take(k));
            assert(list.take(k + 1).last() == list[k]);
        }
        items_contain::<T>(list, k);
        let before = items::<T>(list.take(k));
        let t = T::item(list[k]);
        assert(stands(w, here, t)) by {
            reveal(stands);
            let run = w.subrange(at, at + items::<T>(list).len());
            assert(w.subrange(here, here + t.len()) =~= run.subrange(
                before.len() as int,
                (before.len() + t.len()) as int,
            ));
        }
        T::item_reads(w, here, list[k]);
        T::item_moves_on(w, here);
        list_reads_from::<T>(w, at, list, k + 1);
        assert(list.skip(k) =~= seq![list[k]] + list.skip(k + 1));
    }
}

/// What stands somewhere has at least a byte for each of its items.
proof fn every_item_takes_room<T: Body>(w: Seq<u8>, at: int, list: Seq<T::V>)
    requires
        w.len() <= u64::MAX,
        stands(w, at, items::<T>(list)),
    ensures
        list.len() <= items::<T>(list).len(),
    decreases list.len(),
{
    reveal(items);
    if list.len() > 0 {
        crate::cbor::stands_split(w, at, items::<T>(list.drop_last()), T::item(list.last()));
        every_item_takes_room::<T>(w, at, list.drop_last());
        T::item_reads(w, at + items::<T>(list.drop_last()).len(), list.last());
    }
}

/// A list that was written reads back.
pub proof fn list_reads<T: Body>(w: Seq<u8>, at: int, list: Seq<T::V>)
    requires
        w.len() <= u64::MAX,
        stands(w, at, list_item::<T>(list)),
    ensures
        list_at::<T>(w, at) == Some((list, at + list_item::<T>(list).len())),
        next_at(w, at) == Some(Next::Item),
        at < at + list_item::<T>(list).len() <= w.len(),
{
    reveal(list_at);
    reveal(list_item);
    let h = head(4, list.len() as int);
    crate::cbor::stands_split(w, at, h, items::<T>(list));
    every_item_takes_room::<T>(w, at + h.len(), list);
    assert(items::<T>(list).len() <= w.len() && at + h.len() + items::<T>(list).len() <= w.len()) by {
        reveal(stands);
    }
    crate::cbor::array_reads(w, at, list.len() as int);
    list_reads_from::<T>(w, at + h.len(), list, 0);
    assert(items::<T>(list.take(0)).len() == 0) by {
        reveal(items);
    }
    assert(list.skip(0) =~= list);
    crate::cbor::head_reads(w, at, 4, list.len() as int);
}

} // verus!
