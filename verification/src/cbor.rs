//! Message bodies are CBOR arrays, one item per field.
//!
//! The items themselves are written and read by `minicbor`; what each call gives
//! is stated here over bytes, after RFC 8949. An item starts with a head: a major
//! type in the top three bits of the first byte and an argument in the rest of
//! it, or in the one, two, four or eight bytes that follow.
use vstd::prelude::*;
use vstd::utf8::{decode_utf8, encode_utf8, valid_utf8};

verus! {

/// A head in its shortest form.
#[verifier::opaque]
pub open spec fn head(major: int, n: int) -> Seq<u8> {
    if n < 24 {
        seq![(major * 32 + n) as u8]
    } else if n < 0x100 {
        seq![(major * 32 + 24) as u8, n as u8]
    } else if n < 0x1_0000 {
        seq![(major * 32 + 25) as u8, (n / 0x100) as u8, (n % 0x100) as u8]
    } else if n < 0x1_0000_0000 {
        seq![(major * 32 + 26) as u8] + be4(n)
    } else {
        seq![(major * 32 + 27) as u8] + be4(n / 0x1_0000_0000) + be4(n % 0x1_0000_0000)
    }
}

/// Four bytes, most significant first.
#[verifier::opaque]
pub open spec fn be4(n: int) -> Seq<u8> {
    seq![
        (n / 0x100_0000) as u8,
        (n / 0x1_0000 % 0x100) as u8,
        (n / 0x100 % 0x100) as u8,
        (n % 0x100) as u8,
    ]
}

/// The number in the four bytes from `at`.
#[verifier::opaque]
pub open spec fn num4(b: Seq<u8>, at: int) -> int {
    b[at] * 0x100_0000 + b[at + 1] * 0x1_0000 + b[at + 2] * 0x100 + b[at + 3]
}

/// The argument of the head at `at`, and where the head ends.
#[verifier::opaque]
pub open spec fn arg_at(b: Seq<u8>, at: int) -> Option<(int, int)> {
    if !(0 <= at < b.len()) {
        None
    } else {
        let info = b[at] as int % 32;
        if info < 24 {
            Some((info, at + 1))
        } else if info == 24 && at + 1 < b.len() {
            Some((b[at + 1] as int, at + 2))
        } else if info == 25 && at + 2 < b.len() {
            Some((b[at + 1] * 0x100 + b[at + 2], at + 3))
        } else if info == 26 && at + 4 < b.len() {
            Some((num4(b, at + 1), at + 5))
        } else if info == 27 && at + 8 < b.len() {
            Some((num4(b, at + 1) * 0x1_0000_0000 + num4(b, at + 5), at + 9))
        } else {
            None
        }
    }
}

/// The argument at `at` when the head has the given major type.
#[verifier::opaque]
pub open spec fn major_at(b: Seq<u8>, at: int, major: int) -> Option<(int, int)> {
    if 0 <= at < b.len() && b[at] as int / 32 == major {
        arg_at(b, at)
    } else {
        None
    }
}

/// An unsigned number no greater than `max`.
#[verifier::opaque]
pub open spec fn uint_at(b: Seq<u8>, at: int, max: int) -> Option<(int, int)> {
    match major_at(b, at, 0) {
        Some((n, end)) => if n <= max {
            Some((n, end))
        } else {
            None
        },
        None => None,
    }
}

/// A number between `-1 - max` and `max`.
#[verifier::opaque]
pub open spec fn int_at(b: Seq<u8>, at: int, max: int) -> Option<(int, int)> {
    match major_at(b, at, 1) {
        Some((n, end)) => if n <= max {
            Some((-1 - n, end))
        } else {
            None
        },
        None => uint_at(b, at, max),
    }
}

/// A byte string of known length.
#[verifier::opaque]
pub open spec fn bytes_at(b: Seq<u8>, at: int) -> Option<(Seq<u8>, int)> {
    run_at(b, at, 2)
}

/// The bytes that follow a head with their count.
#[verifier::opaque]
pub open spec fn run_at(b: Seq<u8>, at: int, major: int) -> Option<(Seq<u8>, int)> {
    match major_at(b, at, major) {
        Some((n, end)) => if end + n <= b.len() {
            Some((b.subrange(end, end + n), end + n))
        } else {
            None
        },
        None => None,
    }
}

/// A text of known length, in valid UTF-8.
#[verifier::opaque]
pub open spec fn text_at(b: Seq<u8>, at: int) -> Option<(Seq<char>, int)> {
    match run_at(b, at, 3) {
        Some((raw, end)) => if valid_utf8(raw) {
            Some((decode_utf8(raw), end))
        } else {
            None
        },
        None => None,
    }
}

/// A yes or no.
#[verifier::opaque]
pub open spec fn bool_at(b: Seq<u8>, at: int) -> Option<(bool, int)> {
    if 0 <= at < b.len() && b[at] == 0xf4 {
        Some((false, at + 1))
    } else if 0 <= at < b.len() && b[at] == 0xf5 {
        Some((true, at + 1))
    } else {
        None
    }
}

/// The start of an array: its length, or `None` where it goes on until a break.
#[verifier::opaque]
pub open spec fn array_at(b: Seq<u8>, at: int) -> Option<(Option<u64>, int)> {
    if 0 <= at < b.len() && b[at] == 0x9f {
        Some((None, at + 1))
    } else {
        match major_at(b, at, 4) {
            Some((n, end)) => Some((Some(n as u64), end)),
            None => None,
        }
    }
}

/// What comes next, as far as it matters to where a list or a field ends.
#[derive(Clone, Copy, PartialEq, Eq, Debug, Structural)]
pub enum Next {
    Null,
    Break,
    Item,
}

/// What comes next at `at`. A negative number is only recognised when the byte
/// after its first is there.
pub open spec fn next_at(b: Seq<u8>, at: int) -> Option<Next> {
    if !(0 <= at < b.len()) || (0x38 <= b[at] <= 0x3b && at + 1 >= b.len()) {
        None
    } else if b[at] == 0xf6 {
        Some(Next::Null)
    } else if b[at] == 0xff {
        Some(Next::Break)
    } else {
        Some(Next::Item)
    }
}

/// Where the item at `at` ends, whatever it is: what `minicbor`'s
/// `Decoder::skip` gives.
pub uninterp spec fn skip_at(b: Seq<u8>, at: int) -> Option<int>;

// ------------------------------------------------------------------- writing

/// `minicbor::Encoder::u64`: a head of major type 0 in its shortest form.
#[verifier::external_body]
pub(crate) fn put_uint(out: &mut Vec<u8>, n: u64)
    ensures
        final(out)@ == old(out)@ + head(0, n as int),
{
    let _ = minicbor::Encoder::new(out).u64(n);
}

/// `minicbor::Encoder::i64`: major type 0, or major type 1 with `-1 - n` for a
/// negative number, in the shortest form.
#[verifier::external_body]
pub(crate) fn put_int(out: &mut Vec<u8>, n: i64)
    ensures
        final(out)@ == old(out)@ + int_item(n as int),
{
    let _ = minicbor::Encoder::new(out).i64(n);
}

/// `minicbor::Encoder::str`: a head of major type 3 with the number of bytes,
/// then the text in UTF-8.
#[verifier::external_body]
pub(crate) fn put_text(out: &mut Vec<u8>, t: &str)
    ensures
        final(out)@ == old(out)@ + text_item(t@),
{
    let _ = minicbor::Encoder::new(out).str(t);
}

/// `minicbor::Encoder::bytes`: a head of major type 2 with the number of bytes,
/// then the bytes.
#[verifier::external_body]
pub(crate) fn put_bytes(out: &mut Vec<u8>, b: &[u8])
    ensures
        final(out)@ == old(out)@ + bytes_item(b@),
{
    let _ = minicbor::Encoder::new(out).bytes(b);
}

/// `minicbor::Encoder::array`: a head of major type 4 with the number of items.
#[verifier::external_body]
pub(crate) fn put_array(out: &mut Vec<u8>, n: u64)
    ensures
        final(out)@ == old(out)@ + head(4, n as int),
{
    let _ = minicbor::Encoder::new(out).array(n);
}

/// `minicbor::Encoder::bool`: one byte.
#[verifier::external_body]
pub(crate) fn put_bool(out: &mut Vec<u8>, v: bool)
    ensures
        final(out)@ == old(out)@ + bool_item(v),
{
    let _ = minicbor::Encoder::new(out).bool(v);
}

/// `minicbor::Encoder::null`: one byte.
#[verifier::external_body]
pub(crate) fn put_null(out: &mut Vec<u8>)
    ensures
        final(out)@ == old(out)@ + null_item(),
{
    let _ = minicbor::Encoder::new(out).null();
}

/// The bytes of a number that may be negative.
#[verifier::opaque]
pub open spec fn int_item(n: int) -> Seq<u8> {
    if n >= 0 {
        head(0, n)
    } else {
        head(1, -1 - n)
    }
}

/// The bytes of a text.
#[verifier::opaque]
pub open spec fn text_item(t: Seq<char>) -> Seq<u8> {
    head(3, encode_utf8(t).len() as int) + encode_utf8(t)
}

/// The bytes of a byte string.
#[verifier::opaque]
pub open spec fn bytes_item(b: Seq<u8>) -> Seq<u8> {
    head(2, b.len() as int) + b
}

/// The byte of a yes or no.
#[verifier::opaque]
pub open spec fn bool_item(v: bool) -> Seq<u8> {
    seq![if v { 0xf5u8 } else { 0xf4u8 }]
}

/// The byte that stands for nothing.
#[verifier::opaque]
pub open spec fn null_item() -> Seq<u8> {
    seq![0xf6u8]
}

/// The bytes of a small number that may be missing, with more to follow.
pub open spec fn maybe_item(n: Option<u8>) -> Seq<u8> {
    match n {
        Some(n) => head(0, n as int),
        None => null_item(),
    }
}

/// Writes a small number that may be missing.
pub(crate) fn put_maybe(out: &mut Vec<u8>, n: Option<u8>)
    ensures
        final(out)@ == old(out)@ + maybe_item(n),
{
    match n {
        Some(n) => put_uint(out, n as u64),
        None => put_null(out),
    }
}

// ------------------------------------------------------------------- reading

/// `minicbor::Decoder::u64` from `at`: see [`uint_at`].
#[verifier::external_body]
pub(crate) fn get_u64(b: &[u8], at: usize) -> (r: Option<(u64, usize)>)
    ensures
        r matches Some((n, end)) ==> uint_at(b@, at as int, u64::MAX as int) == Some(
            (n as int, end as int),
        ),
        r is None ==> uint_at(b@, at as int, u64::MAX as int) is None,
{
    let mut d = minicbor::Decoder::new(b);
    d.set_position(at);
    let n = d.u64().ok()?;
    Some((n, d.position()))
}

/// `minicbor::Decoder::u32` from `at`: see [`uint_at`].
#[verifier::external_body]
pub(crate) fn get_u32(b: &[u8], at: usize) -> (r: Option<(u32, usize)>)
    ensures
        r matches Some((n, end)) ==> uint_at(b@, at as int, u32::MAX as int) == Some(
            (n as int, end as int),
        ),
        r is None ==> uint_at(b@, at as int, u32::MAX as int) is None,
{
    let mut d = minicbor::Decoder::new(b);
    d.set_position(at);
    let n = d.u32().ok()?;
    Some((n, d.position()))
}

/// `minicbor::Decoder::u16` from `at`: see [`uint_at`].
#[verifier::external_body]
pub(crate) fn get_u16(b: &[u8], at: usize) -> (r: Option<(u16, usize)>)
    ensures
        r matches Some((n, end)) ==> uint_at(b@, at as int, u16::MAX as int) == Some(
            (n as int, end as int),
        ),
        r is None ==> uint_at(b@, at as int, u16::MAX as int) is None,
{
    let mut d = minicbor::Decoder::new(b);
    d.set_position(at);
    let n = d.u16().ok()?;
    Some((n, d.position()))
}

/// `minicbor::Decoder::u8` from `at`: see [`uint_at`].
#[verifier::external_body]
pub(crate) fn get_u8(b: &[u8], at: usize) -> (r: Option<(u8, usize)>)
    ensures
        r matches Some((n, end)) ==> uint_at(b@, at as int, u8::MAX as int) == Some(
            (n as int, end as int),
        ),
        r is None ==> uint_at(b@, at as int, u8::MAX as int) is None,
{
    let mut d = minicbor::Decoder::new(b);
    d.set_position(at);
    let n = d.u8().ok()?;
    Some((n, d.position()))
}

/// `minicbor::Decoder::i64` from `at`: see [`int_at`].
#[verifier::external_body]
pub(crate) fn get_i64(b: &[u8], at: usize) -> (r: Option<(i64, usize)>)
    ensures
        r matches Some((n, end)) ==> int_at(b@, at as int, i64::MAX as int) == Some(
            (n as int, end as int),
        ),
        r is None ==> int_at(b@, at as int, i64::MAX as int) is None,
{
    let mut d = minicbor::Decoder::new(b);
    d.set_position(at);
    let n = d.i64().ok()?;
    Some((n, d.position()))
}

/// `minicbor::Decoder::i32` from `at`: see [`int_at`].
#[verifier::external_body]
pub(crate) fn get_i32(b: &[u8], at: usize) -> (r: Option<(i32, usize)>)
    ensures
        r matches Some((n, end)) ==> int_at(b@, at as int, i32::MAX as int) == Some(
            (n as int, end as int),
        ),
        r is None ==> int_at(b@, at as int, i32::MAX as int) is None,
{
    let mut d = minicbor::Decoder::new(b);
    d.set_position(at);
    let n = d.i32().ok()?;
    Some((n, d.position()))
}

/// `minicbor::Decoder::bool` from `at`: see [`bool_at`].
#[verifier::external_body]
pub(crate) fn get_bool(b: &[u8], at: usize) -> (r: Option<(bool, usize)>)
    ensures
        r matches Some((v, end)) ==> bool_at(b@, at as int) == Some((v, end as int)),
        r is None ==> bool_at(b@, at as int) is None,
{
    let mut d = minicbor::Decoder::new(b);
    d.set_position(at);
    let v = d.bool().ok()?;
    Some((v, d.position()))
}

/// `minicbor::Decoder::str` from `at`: see [`text_at`].
#[verifier::external_body]
pub(crate) fn get_text(b: &[u8], at: usize) -> (r: Option<(String, usize)>)
    ensures
        r matches Some((t, end)) ==> text_at(b@, at as int) == Some((t@, end as int)),
        r is None ==> text_at(b@, at as int) is None,
{
    let mut d = minicbor::Decoder::new(b);
    d.set_position(at);
    let t = d.str().ok()?;
    Some((t.to_string(), d.position()))
}

/// `minicbor::Decoder::bytes` from `at`: see [`bytes_at`].
#[verifier::external_body]
pub(crate) fn get_bytes(b: &[u8], at: usize) -> (r: Option<(Vec<u8>, usize)>)
    ensures
        r matches Some((v, end)) ==> bytes_at(b@, at as int) == Some((v@, end as int)),
        r is None ==> bytes_at(b@, at as int) is None,
{
    let mut d = minicbor::Decoder::new(b);
    d.set_position(at);
    let v = d.bytes().ok()?;
    Some((v.to_vec(), d.position()))
}

/// `minicbor::Decoder::array` from `at`: see [`array_at`].
#[verifier::external_body]
pub(crate) fn get_array(b: &[u8], at: usize) -> (r: Option<(Option<u64>, usize)>)
    ensures
        r matches Some((n, end)) ==> array_at(b@, at as int) == Some((n, end as int)),
        r is None ==> array_at(b@, at as int) is None,
{
    let mut d = minicbor::Decoder::new(b);
    d.set_position(at);
    let n = d.array().ok()?;
    Some((n, d.position()))
}

/// `minicbor::Decoder::datatype` at `at`: see [`next_at`].
#[verifier::external_body]
pub(crate) fn get_next(b: &[u8], at: usize) -> (r: Option<Next>)
    ensures
        r == next_at(b@, at as int),
{
    let mut d = minicbor::Decoder::new(b);
    d.set_position(at);
    match d.datatype() {
        Ok(minicbor::data::Type::Null) => Some(Next::Null),
        Ok(minicbor::data::Type::Break) => Some(Next::Break),
        Ok(_) => Some(Next::Item),
        Err(_) => None,
    }
}

/// `minicbor::Decoder::skip` from `at`: the name [`skip_at`], that an item has at
/// least one byte and ends within the input, and that a null is one byte.
#[verifier::external_body]
pub(crate) fn get_skip(b: &[u8], at: usize) -> (r: Option<usize>)
    ensures
        r matches Some(end) ==> skip_at(b@, at as int) == Some(end as int) && at < end <= b@.len(),
        r is None ==> skip_at(b@, at as int) is None,
        next_at(b@, at as int) == Some(Next::Null) ==> r == Some((at + 1) as usize),
{
    let mut d = minicbor::Decoder::new(b);
    d.set_position(at);
    d.skip().ok()?;
    Some(d.position())
}

// ----------------------------------------------------------- arrays of fields

/// Where reading an array has got to: the place of the next item, and how many
/// items are left where that is known.
#[derive(Clone, Copy)]
pub struct Cursor {
    pub at: usize,
    pub left: Option<u64>,
}

/// The model of a [`Cursor`].
pub struct Place {
    pub at: int,
    pub left: Option<u64>,
}

impl View for Cursor {
    type V = Place;

    open spec fn view(&self) -> Place {
        Place { at: self.at as int, left: self.left }
    }
}

/// The first item of the array at `at`.
pub open spec fn open_at(b: Seq<u8>, at: int) -> Option<Place> {
    match array_at(b, at) {
        Some((left, end)) => Some(Place { at: end, left }),
        None => None,
    }
}

/// Whether there is another item; `None` where the input has run out.
pub open spec fn more_at(b: Seq<u8>, p: Place) -> Option<bool> {
    match p.left {
        Some(n) => Some(n > 0),
        None => match next_at(b, p.at) {
            Some(k) => Some(k != Next::Break),
            None => None,
        },
    }
}

/// The place after an item that ends at `end`.
pub open spec fn past(p: Place, end: int) -> Place {
    Place {
        at: end,
        left: match p.left {
            Some(n) => Some((n - 1) as u64),
            None => None,
        },
    }
}

/// A field that has to be there, read by a function that gives its value and
/// end.
pub open spec fn need<T>(b: Seq<u8>, p: Place, item: Option<(T, int)>) -> Option<(T, Place)> {
    if more_at(b, p) == Some(true) {
        match item {
            Some((v, end)) => if p.at < end <= b.len() {
                Some((v, past(p, end)))
            } else {
                None
            },
            None => None,
        }
    } else {
        None
    }
}

/// Leaves the array: skips the items that were not asked for, and the break.
pub open spec fn close_at(b: Seq<u8>, p: Place) -> Option<int>
    decreases b.len() - p.at,
{
    match more_at(b, p) {
        None => None,
        Some(false) => match p.left {
            Some(_) => Some(p.at),
            None => match skip_at(b, p.at) {
                Some(end) => if p.at < end <= b.len() {
                    Some(end)
                } else {
                    None
                },
                None => None,
            },
        },
        Some(true) => match skip_at(b, p.at) {
            Some(end) => if p.at < end <= b.len() {
                close_at(b, past(p, end))
            } else {
                None
            },
            None => None,
        },
    }
}

/// Starts reading the array at `at`.
pub(crate) fn open(b: &[u8], at: usize) -> (r: Option<Cursor>)
    ensures
        r matches Some(c) ==> open_at(b@, at as int) == Some(c@),
        r is None ==> open_at(b@, at as int) is None,
{
    match get_array(b, at) {
        Some((left, at)) => Some(Cursor { at, left }),
        None => None,
    }
}

/// Whether there is another item.
pub(crate) fn more(b: &[u8], c: Cursor) -> (r: Option<bool>)
    ensures
        r == more_at(b@, c@),
{
    match c.left {
        Some(n) => Some(n > 0),
        None => match get_next(b, c.at) {
            Some(Next::Break) => Some(false),
            Some(_) => Some(true),
            None => None,
        },
    }
}

/// Moves past an item that ends at `end`.
pub(crate) fn step(b: &[u8], c: Cursor, end: usize) -> (r: Cursor)
    requires
        more_at(b@, c@) == Some(true),
    ensures
        r@ == past(c@, end as int),
{
    Cursor {
        at: end,
        left: match c.left {
            Some(n) => Some(n - 1),
            None => None,
        },
    }
}

/// Leaves the array.
pub(crate) fn close(b: &[u8], from: Cursor) -> (r: Option<usize>)
    ensures
        r matches Some(end) ==> close_at(b@, from@) == Some(end as int),
        r is None ==> close_at(b@, from@) is None,
{
    let mut c: Cursor = from;
    loop
        invariant
            close_at(b@, c@) == close_at(b@, from@),
        decreases b@.len() - c.at,
    {
        match more(b, c) {
            None => {
                return None;
            },
            Some(false) => {
                return match c.left {
                    Some(_) => Some(c.at),
                    None => get_skip(b, c.at),
                };
            },
            Some(true) => {
                match get_skip(b, c.at) {
                    Some(end) => {
                        c = step(b, c, end);
                    },
                    None => {
                        return None;
                    },
                }
            },
        }
    }
}

/// A required text field.
pub(crate) fn field_text(b: &[u8], c: Cursor) -> (r: Option<(String, Cursor)>)
    ensures
        r matches Some((t, d)) ==> need(b@, c@, text_at(b@, c.at as int)) == Some((t@, d@)),
        r is None ==> need(b@, c@, text_at(b@, c.at as int)) is None,
{
    proof {
        text_moves_on(b@, c.at as int);
    }
    match more(b, c) {
        Some(true) => match get_text(b, c.at) {
            Some((t, end)) => Some((t, step(b, c, end))),
            None => None,
        },
        _ => None,
    }
}

/// A required field of bytes.
pub(crate) fn field_bytes(b: &[u8], c: Cursor) -> (r: Option<(Vec<u8>, Cursor)>)
    ensures
        r matches Some((t, d)) ==> need(b@, c@, bytes_at(b@, c.at as int)) == Some((t@, d@)),
        r is None ==> need(b@, c@, bytes_at(b@, c.at as int)) is None,
{
    proof {
        bytes_move_on(b@, c.at as int);
    }
    match more(b, c) {
        Some(true) => match get_bytes(b, c.at) {
            Some((t, end)) => Some((t, step(b, c, end))),
            None => None,
        },
        _ => None,
    }
}

/// A required yes or no.
pub(crate) fn field_bool(b: &[u8], c: Cursor) -> (r: Option<(bool, Cursor)>)
    ensures
        r matches Some((t, d)) ==> need(b@, c@, bool_at(b@, c.at as int)) == Some((t, d@)),
        r is None ==> need(b@, c@, bool_at(b@, c.at as int)) is None,
{
    proof {
        bool_moves_on(b@, c.at as int);
    }
    match more(b, c) {
        Some(true) => match get_bool(b, c.at) {
            Some((t, end)) => Some((t, step(b, c, end))),
            None => None,
        },
        _ => None,
    }
}

/// A required 64-bit number.
pub(crate) fn field_u64(b: &[u8], c: Cursor) -> (r: Option<(u64, Cursor)>)
    ensures
        r matches Some((t, d)) ==> need(b@, c@, uint_at(b@, c.at as int, u64::MAX as int)) == Some(
            (t as int, d@),
        ),
        r is None ==> need(b@, c@, uint_at(b@, c.at as int, u64::MAX as int)) is None,
{
    proof {
        uint_moves_on(b@, c.at as int, u64::MAX as int);
    }
    match more(b, c) {
        Some(true) => match get_u64(b, c.at) {
            Some((t, end)) => Some((t, step(b, c, end))),
            None => None,
        },
        _ => None,
    }
}

/// A required 32-bit number.
pub(crate) fn field_u32(b: &[u8], c: Cursor) -> (r: Option<(u32, Cursor)>)
    ensures
        r matches Some((t, d)) ==> need(b@, c@, uint_at(b@, c.at as int, u32::MAX as int)) == Some(
            (t as int, d@),
        ),
        r is None ==> need(b@, c@, uint_at(b@, c.at as int, u32::MAX as int)) is None,
{
    proof {
        uint_moves_on(b@, c.at as int, u32::MAX as int);
    }
    match more(b, c) {
        Some(true) => match get_u32(b, c.at) {
            Some((t, end)) => Some((t, step(b, c, end))),
            None => None,
        },
        _ => None,
    }
}

/// A required 16-bit number.
pub(crate) fn field_u16(b: &[u8], c: Cursor) -> (r: Option<(u16, Cursor)>)
    ensures
        r matches Some((t, d)) ==> need(b@, c@, uint_at(b@, c.at as int, u16::MAX as int)) == Some(
            (t as int, d@),
        ),
        r is None ==> need(b@, c@, uint_at(b@, c.at as int, u16::MAX as int)) is None,
{
    proof {
        uint_moves_on(b@, c.at as int, u16::MAX as int);
    }
    match more(b, c) {
        Some(true) => match get_u16(b, c.at) {
            Some((t, end)) => Some((t, step(b, c, end))),
            None => None,
        },
        _ => None,
    }
}

/// A required byte-sized number.
pub(crate) fn field_u8(b: &[u8], c: Cursor) -> (r: Option<(u8, Cursor)>)
    ensures
        r matches Some((t, d)) ==> need(b@, c@, uint_at(b@, c.at as int, u8::MAX as int)) == Some(
            (t as int, d@),
        ),
        r is None ==> need(b@, c@, uint_at(b@, c.at as int, u8::MAX as int)) is None,
{
    proof {
        uint_moves_on(b@, c.at as int, u8::MAX as int);
    }
    match more(b, c) {
        Some(true) => match get_u8(b, c.at) {
            Some((t, end)) => Some((t, step(b, c, end))),
            None => None,
        },
        _ => None,
    }
}

/// A required signed 64-bit number.
pub(crate) fn field_i64(b: &[u8], c: Cursor) -> (r: Option<(i64, Cursor)>)
    ensures
        r matches Some((t, d)) ==> need(b@, c@, int_at(b@, c.at as int, i64::MAX as int)) == Some(
            (t as int, d@),
        ),
        r is None ==> need(b@, c@, int_at(b@, c.at as int, i64::MAX as int)) is None,
{
    proof {
        int_moves_on(b@, c.at as int, i64::MAX as int);
    }
    match more(b, c) {
        Some(true) => match get_i64(b, c.at) {
            Some((t, end)) => Some((t, step(b, c, end))),
            None => None,
        },
        _ => None,
    }
}

/// A required signed 32-bit number.
pub(crate) fn field_i32(b: &[u8], c: Cursor) -> (r: Option<(i32, Cursor)>)
    ensures
        r matches Some((t, d)) ==> need(b@, c@, int_at(b@, c.at as int, i32::MAX as int)) == Some(
            (t as int, d@),
        ),
        r is None ==> need(b@, c@, int_at(b@, c.at as int, i32::MAX as int)) is None,
{
    proof {
        int_moves_on(b@, c.at as int, i32::MAX as int);
    }
    match more(b, c) {
        Some(true) => match get_i32(b, c.at) {
            Some((t, end)) => Some((t, step(b, c, end))),
            None => None,
        },
        _ => None,
    }
}

/// A field that may be missing or empty: a small number.
pub open spec fn maybe_u8(b: Seq<u8>, p: Place) -> Option<(Option<u8>, Place)> {
    match more_at(b, p) {
        None => None,
        Some(false) => Some((None, p)),
        Some(true) => match next_at(b, p.at) {
            None => None,
            Some(Next::Null) => Some((None, past(p, p.at + 1))),
            Some(_) => match need(b, p, uint_at(b, p.at, u8::MAX as int)) {
                Some((n, next)) => Some((Some(n as u8), next)),
                None => None,
            },
        },
    }
}

/// A field that may be missing or empty.
pub(crate) fn field_maybe_u8(b: &[u8], c: Cursor) -> (r: Option<(Option<u8>, Cursor)>)
    ensures
        r matches Some((t, d)) ==> maybe_u8(b@, c@) == Some((t, d@)),
        r is None ==> maybe_u8(b@, c@) is None,
{
    proof {
        uint_moves_on(b@, c.at as int, u8::MAX as int);
    }
    match more(b, c) {
        None => None,
        Some(false) => Some((None, c)),
        Some(true) => match get_next(b, c.at) {
            None => None,
            Some(Next::Null) => match get_skip(b, c.at) {
                Some(end) => Some((None, step(b, c, end))),
                None => None,
            },
            Some(_) => match get_u8(b, c.at) {
                Some((n, end)) => Some((Some(n), step(b, c, end))),
                None => None,
            },
        },
    }
}

/// A text field after `p`.
pub open spec fn text_field(b: Seq<u8>, p: Option<Place>) -> Option<(Seq<char>, Place)> {
    match p {
        Some(p) => need(b, p, text_at(b, p.at)),
        None => None,
    }
}

/// A field of bytes after `p`.
pub open spec fn bytes_field(b: Seq<u8>, p: Option<Place>) -> Option<(Seq<u8>, Place)> {
    match p {
        Some(p) => need(b, p, bytes_at(b, p.at)),
        None => None,
    }
}

/// A yes or no after `p`.
pub open spec fn bool_field(b: Seq<u8>, p: Option<Place>) -> Option<(bool, Place)> {
    match p {
        Some(p) => need(b, p, bool_at(b, p.at)),
        None => None,
    }
}

/// A number no greater than `max` after `p`.
pub open spec fn uint_field(b: Seq<u8>, p: Option<Place>, max: int) -> Option<(int, Place)> {
    match p {
        Some(p) => need(b, p, uint_at(b, p.at, max)),
        None => None,
    }
}

/// A number between `-1 - max` and `max` after `p`.
pub open spec fn int_field(b: Seq<u8>, p: Option<Place>, max: int) -> Option<(int, Place)> {
    match p {
        Some(p) => need(b, p, int_at(b, p.at, max)),
        None => None,
    }
}

/// A small number after `p` that may be missing.
pub open spec fn maybe_field(b: Seq<u8>, p: Option<Place>) -> Option<(Option<u8>, Place)> {
    match p {
        Some(p) => maybe_u8(b, p),
        None => None,
    }
}

/// The place after a field that was read.
pub open spec fn rest<T>(f: Option<(T, Place)>) -> Option<Place> {
    match f {
        Some((_, p)) => Some(p),
        None => None,
    }
}

/// The value of a field that was read.
pub open spec fn got<T>(f: Option<(T, Place)>) -> T {
    f->Some_0.0
}

/// Where an array ends after the last field asked for.
pub open spec fn end_of(b: Seq<u8>, p: Option<Place>) -> Option<int> {
    match p {
        Some(p) => close_at(b, p),
        None => None,
    }
}

// ------------------------------------------------- what was written reads back

/// The bytes `piece` stand in `w` from `at`.
#[verifier::opaque]
pub open spec fn stands(w: Seq<u8>, at: int, piece: Seq<u8>) -> bool {
    &&& 0 <= at
    &&& at + piece.len() <= w.len()
    &&& w.subrange(at, at + piece.len()) == piece
}

/// Two pieces in a row stand one after the other.
pub proof fn stands_split(w: Seq<u8>, at: int, a: Seq<u8>, b: Seq<u8>)
    requires
        stands(w, at, a + b),
    ensures
        stands(w, at, a),
        stands(w, at + a.len(), b),
{
    reveal(stands);
    let run = w.subrange(at, at + (a + b).len());
    assert(w.subrange(at, at + a.len()) =~= run.subrange(0, a.len() as int));
    assert(a =~= (a + b).subrange(0, a.len() as int));
    assert(w.subrange(at + a.len(), at + a.len() + b.len()) =~= run.subrange(
        a.len() as int,
        (a + b).len() as int,
    ));
    assert(b =~= (a + b).subrange(a.len() as int, (a + b).len() as int));
}

/// Two pieces can be written one after the other or as one.
pub proof fn written_on(start: Seq<u8>, a: Seq<u8>, b: Seq<u8>)
    ensures
        (start + a) + b == start + (a + b),
{
    assert((start + a) + b =~= start + (a + b));
}

/// All of a run of bytes stands in it from the start.
pub proof fn stands_whole(w: Seq<u8>)
    ensures
        stands(w, 0, w),
{
    reveal(stands);
    assert(w.subrange(0, w.len() as int) =~= w);
}

proof fn major_moves_on(b: Seq<u8>, at: int, major: int)
    ensures
        major_at(b, at, major) matches Some((n, end)) ==> 0 <= n && at < end <= b.len(),
{
    reveal(major_at);
    reveal(arg_at);
    reveal(num4);
}

/// A number that was read ends after it starts.
pub proof fn uint_moves_on(b: Seq<u8>, at: int, max: int)
    ensures
        uint_at(b, at, max) matches Some((_, end)) ==> at < end <= b.len(),
{
    reveal(uint_at);
    major_moves_on(b, at, 0);
}

/// A number that was read ends after it starts, whatever its sign.
pub proof fn int_moves_on(b: Seq<u8>, at: int, max: int)
    ensures
        int_at(b, at, max) matches Some((_, end)) ==> at < end <= b.len(),
{
    reveal(int_at);
    major_moves_on(b, at, 1);
    uint_moves_on(b, at, max);
}

/// A byte string that was read ends after it starts.
pub proof fn bytes_move_on(b: Seq<u8>, at: int)
    ensures
        bytes_at(b, at) matches Some((_, end)) ==> at < end <= b.len(),
{
    reveal(bytes_at);
    reveal(run_at);
    major_moves_on(b, at, 2);
}

/// A text that was read ends after it starts.
pub proof fn text_moves_on(b: Seq<u8>, at: int)
    ensures
        text_at(b, at) matches Some((_, end)) ==> at < end <= b.len(),
{
    reveal(text_at);
    reveal(run_at);
    major_moves_on(b, at, 3);
}

/// A yes or no that was read ends after it starts.
pub proof fn bool_moves_on(b: Seq<u8>, at: int)
    ensures
        bool_at(b, at) matches Some((_, end)) ==> at < end <= b.len(),
{
    reveal(bool_at);
}

/// The first item of an array comes after its start.
pub proof fn open_moves_on(b: Seq<u8>, at: int)
    ensures
        open_at(b, at) matches Some(p) ==> at < p.at <= b.len(),
{
    reveal(array_at);
    major_moves_on(b, at, 4);
}

/// An array ends no earlier than any place in it.
pub proof fn close_moves_on(b: Seq<u8>, p: Place)
    requires
        p.at <= b.len(),
    ensures
        close_at(b, p) matches Some(end) ==> p.at <= end <= b.len(),
    decreases b.len() - p.at,
{
    if more_at(b, p) == Some(true) {
        match skip_at(b, p.at) {
            Some(end) => if p.at < end <= b.len() {
                close_moves_on(b, past(p, end));
            },
            None => {},
        }
    }
}

/// Wherever an array is left, it ends no earlier than that.
pub proof fn every_end_is_later(b: Seq<u8>)
    ensures
        forall|p: Place|
            p.at <= b.len() ==> (#[trigger] close_at(b, p) matches Some(end) ==> p.at <= end
                <= b.len()),
{
    assert forall|p: Place| p.at <= b.len() implies (#[trigger] close_at(b, p) matches Some(end)
        ==> p.at <= end <= b.len()) by {
        close_moves_on(b, p);
    }
}

pub proof fn num4_of_be4(n: int)
    requires
        0 <= n < 0x1_0000_0000,
    ensures
        num4(be4(n), 0) == n,
{
    reveal(num4);
    reveal(be4);
    let q1 = n / 0x100;
    let q2 = n / 0x1_0000;
    let q3 = n / 0x100_0000;
    vstd::arithmetic::div_mod::lemma_div_denominator(n, 0x100, 0x100);
    vstd::arithmetic::div_mod::lemma_div_denominator(n, 0x1_0000, 0x100);
    assert(q2 == q1 / 0x100 && q3 == q2 / 0x100);
    assert(n == q1 * 0x100 + n % 0x100);
    assert(q1 == q2 * 0x100 + q1 % 0x100);
    assert(q2 == q3 * 0x100 + q2 % 0x100);
    assert(0 <= q3 < 0x100);
    let b = be4(n);
    assert(b[0] == q3 && b[1] == q2 % 0x100 && b[2] == q1 % 0x100 && b[3] == n % 0x100);
}

proof fn num4_stands(w: Seq<u8>, at: int, n: int)
    requires
        0 <= n < 0x1_0000_0000,
        stands(w, at, be4(n)),
    ensures
        num4(w, at) == n,
{
    reveal(num4);
    reveal(be4);
    reveal(stands);
    num4_of_be4(n);
    let run = w.subrange(at, at + 4);
    assert(run[0] == w[at] && run[1] == w[at + 1] && run[2] == w[at + 2] && run[3] == w[at + 3]);
}

/// A head that was written reads back.
pub proof fn head_reads(w: Seq<u8>, at: int, major: int, n: int)
    requires
        0 <= major < 8,
        0 <= n <= u64::MAX,
        stands(w, at, head(major, n)),
    ensures
        major_at(w, at, major) == Some((n, at + head(major, n).len())),
        0 <= at < w.len(),
        w[at] as int / 32 == major,
        w[at] as int % 32 <= 27,
        head(major, n).len() >= 1,
        w[at] as int % 32 >= 24 ==> head(major, n).len() >= 2,
        at + head(major, n).len() <= w.len(),
{
    reveal(head);
    reveal(arg_at);
    reveal(major_at);
    reveal(be4);
    let h = head(major, n);
    let run = w.subrange(at, at + h.len());
    assert(0 <= at && at + h.len() <= w.len() && run == h) by {
        reveal(stands);
    }
    assert(run[0] == w[at]);
    if n < 24 {
    } else if n < 0x100 {
        assert(run[1] == w[at + 1]);
    } else if n < 0x1_0000 {
        assert(run[1] == w[at + 1]);
        assert(run[2] == w[at + 2]);
    } else if n < 0x1_0000_0000 {
        let lead = seq![(major * 32 + 26) as u8];
        stands_split(w, at, lead, be4(n));
        num4_stands(w, at + 1, n);
    } else {
        let lead = seq![(major * 32 + 27) as u8];
        let hi = n / 0x1_0000_0000;
        let lo = n % 0x1_0000_0000;
        stands_split(w, at, lead + be4(hi), be4(lo));
        stands_split(w, at, lead, be4(hi));
        num4_stands(w, at + 1, hi);
        num4_stands(w, at + 5, lo);
    }
}

/// A number that was written reads back.
pub proof fn uint_reads(w: Seq<u8>, at: int, n: int, max: int)
    requires
        0 <= n <= max <= u64::MAX,
        stands(w, at, head(0, n)),
    ensures
        uint_at(w, at, max) == Some((n, at + head(0, n).len())),
        next_at(w, at) == Some(Next::Item),
        at < at + head(0, n).len() <= w.len(),
{
    reveal(uint_at);
    head_reads(w, at, 0, n);
}

/// A number that was written reads back, whatever its sign.
pub proof fn int_reads(w: Seq<u8>, at: int, n: int, max: int)
    requires
        -1 - max <= n <= max <= u64::MAX,
        stands(w, at, int_item(n)),
    ensures
        int_at(w, at, max) == Some((n, at + int_item(n).len())),
        next_at(w, at) == Some(Next::Item),
        at < at + int_item(n).len() <= w.len(),
{
    reveal(int_at);
    reveal(int_item);
    reveal(uint_at);
    if n >= 0 {
        head_reads(w, at, 0, n);
        assert(major_at(w, at, 1) is None) by {
            reveal(major_at);
        }
    } else {
        head_reads(w, at, 1, -1 - n);
    }
}

/// A byte string that was written reads back.
pub proof fn bytes_read(w: Seq<u8>, at: int, v: Seq<u8>)
    requires
        w.len() <= u64::MAX,
        stands(w, at, bytes_item(v)),
    ensures
        bytes_at(w, at) == Some((v, at + bytes_item(v).len())),
        next_at(w, at) == Some(Next::Item),
        at < at + bytes_item(v).len() <= w.len(),
{
    reveal(bytes_at);
    reveal(run_at);
    reveal(bytes_item);
    stands_split(w, at, head(2, v.len() as int), v);
    assert(v.len() <= w.len() && at + head(2, v.len() as int).len() + v.len() <= w.len()
        && w.subrange(
        at + head(2, v.len() as int).len(),
        at + head(2, v.len() as int).len() + v.len(),
    ) == v) by {
        reveal(stands);
    }
    head_reads(w, at, 2, v.len() as int);
}

/// A text that was written reads back.
pub proof fn text_reads(w: Seq<u8>, at: int, t: Seq<char>)
    requires
        w.len() <= u64::MAX,
        stands(w, at, text_item(t)),
    ensures
        text_at(w, at) == Some((t, at + text_item(t).len())),
        next_at(w, at) == Some(Next::Item),
        at < at + text_item(t).len() <= w.len(),
{
    reveal(text_at);
    reveal(run_at);
    reveal(text_item);
    let raw = encode_utf8(t);
    let h = head(3, raw.len() as int);
    stands_split(w, at, h, raw);
    assert(raw.len() <= w.len() && at + h.len() + raw.len() <= w.len() && w.subrange(
        at + h.len(),
        at + h.len() + raw.len(),
    ) == raw) by {
        reveal(stands);
    }
    head_reads(w, at, 3, raw.len() as int);
    vstd::utf8::encode_utf8_valid_utf8(t);
    vstd::utf8::encode_utf8_decode_utf8(t);
}

/// A small number that may be missing reads back.
pub proof fn maybe_reads(w: Seq<u8>, at: int, n: Option<u8>)
    requires
        stands(w, at, maybe_item(n)),
    ensures
        at < at + maybe_item(n).len() <= w.len(),
        n matches Some(v) ==> {
            &&& uint_at(w, at, u8::MAX as int) == Some((v as int, at + maybe_item(n).len()))
            &&& next_at(w, at) == Some(Next::Item)
        },
        n is None ==> next_at(w, at) == Some(Next::Null) && maybe_item(n).len() == 1,
{
    match n {
        Some(v) => {
            uint_reads(w, at, v as int, u8::MAX as int);
        },
        None => {
            reveal(stands);
            reveal(null_item);
            assert(w.subrange(at, at + 1)[0] == w[at]);
        },
    }
}

/// A yes or no that was written reads back.
pub proof fn bool_reads(w: Seq<u8>, at: int, v: bool)
    requires
        stands(w, at, bool_item(v)),
    ensures
        bool_at(w, at) == Some((v, at + bool_item(v).len())),
        next_at(w, at) == Some(Next::Item),
        at < at + bool_item(v).len() <= w.len(),
{
    reveal(bool_at);
    reveal(bool_item);
    reveal(stands);
    assert(w.subrange(at, at + 1)[0] == w[at]);
}

/// An array that was written is entered with all its items left.
pub proof fn array_reads(w: Seq<u8>, at: int, n: int)
    requires
        0 <= n <= u64::MAX,
        stands(w, at, head(4, n)),
    ensures
        open_at(w, at) == Some(Place { at: at + head(4, n).len(), left: Some(n as u64) }),
        next_at(w, at) == Some(Next::Item),
        at < at + head(4, n).len() <= w.len(),
{
    reveal(array_at);
    head_reads(w, at, 4, n);
}

} // verus!
