//! Text as the contracts see it: a sequence of characters.
//!
//! Everything a device calls itself, every capability and every message type is
//! text, so comparing, copying and ordering text is gathered here.
use vstd::prelude::*;
use vstd::string::StringExecFns;

verus! {

/// `str`'s `==`: two slices are equal when they hold the same characters.
pub assume_specification[ <str as PartialEq>::eq ](a: &str, b: &str) -> (r: bool)
    ensures
        r == (a@ == b@),
;

/// `String::push`: appends one character at the end.
pub assume_specification[ String::push ](s: &mut String, c: char)
    ensures
        final(s)@ == old(s)@.push(c),
;

/// Whether two texts hold the same characters.
pub fn same(a: &str, b: &str) -> (r: bool)
    ensures
        r == (a@ == b@),
{
    *a == *b
}

/// Whether a text has no characters.
pub fn is_empty(t: &str) -> (r: bool)
    ensures
        r == (t@.len() == 0),
{
    proof {
        reveal_strlit("");
        if t@.len() == 0 {
            assert(t@ =~= ""@);
        }
    }
    same(t, "")
}

/// The characters of each text in a list.
pub open spec fn texts(list: Seq<String>) -> Seq<Seq<char>> {
    list.map_values(|s: String| s@)
}

/// The characters of an optional text.
pub open spec fn opt_text(t: Option<String>) -> Option<Seq<char>> {
    match t {
        Some(s) => Some(s@),
        None => None,
    }
}

/// `a` and `b`, one after the other.
pub fn join2(a: &str, b: &str) -> (r: String)
    ensures
        r@ == a@ + b@,
{
    let mut s = a.to_owned();
    s.append(b);
    s
}

/// `a`, `b` and `c`, one after the other.
pub fn join3(a: &str, b: &str, c: &str) -> (r: String)
    ensures
        r@ == a@ + b@ + c@,
{
    let mut s = a.to_owned();
    s.append(b);
    s.append(c);
    s
}

/// A copy of a list of texts.
pub fn copy_texts(list: &Vec<String>) -> (r: Vec<String>)
    ensures
        texts(r@) == texts(list@),
{
    let mut out: Vec<String> = Vec::new();
    for i in 0..list.len()
        invariant
            out.len() == i,
            forall|k: int| 0 <= k < i ==> out[k]@ == list[k]@,
    {
        out.push(list[i].clone());
    }
    assert(texts(out@) =~= texts(list@));
    out
}

/// Whether a list of texts holds `t`.
pub fn holds(list: &Vec<String>, t: &str) -> (r: bool)
    ensures
        r == texts(list@).contains(t@),
{
    for i in 0..list.len()
        invariant
            forall|k: int| 0 <= k < i ==> list[k]@ != t@,
    {
        if same(list[i].as_str(), t) {
            assert(texts(list@)[i as int] == t@);
            return true;
        }
    }
    assert forall|k: int| 0 <= k < texts(list@).len() implies texts(list@)[k] != t@ by {
        assert(list[k]@ != t@);
    }
    false
}

/// A copy of a run of bytes.
pub fn copy_bytes(b: &[u8]) -> (r: Vec<u8>)
    ensures
        r@ == b@,
{
    vstd::slice::slice_to_vec(b)
}

/// Whether two runs of bytes are the same.
pub fn same_bytes(a: &[u8], b: &[u8]) -> (r: bool)
    ensures
        r == (a@ == b@),
{
    if a.len() != b.len() {
        return false;
    }
    for i in 0..a.len()
        invariant
            a.len() == b.len(),
            forall|k: int| 0 <= k < i ==> a[k] == b[k],
    {
        if a[i] != b[i] {
            return false;
        }
    }
    assert(a@ =~= b@);
    true
}

/// The dictionary order: at the first place where two texts differ, the smaller
/// character comes first; a text comes before every longer one that starts with
/// it.
pub open spec fn before(a: Seq<char>, b: Seq<char>) -> bool
    decreases a.len(),
{
    if b.len() == 0 {
        false
    } else if a.len() == 0 {
        true
    } else if a[0] != b[0] {
        (a[0] as int) < (b[0] as int)
    } else {
        before(a.skip(1), b.skip(1))
    }
}

/// No text comes before itself.
pub proof fn before_irreflexive(a: Seq<char>)
    ensures
        !before(a, a),
    decreases a.len(),
{
    if a.len() > 0 {
        before_irreflexive(a.skip(1));
    }
}

/// The order can be followed through a third text.
pub proof fn before_transitive(a: Seq<char>, b: Seq<char>, c: Seq<char>)
    requires
        before(a, b),
        before(b, c),
    ensures
        before(a, c),
    decreases a.len(),
{
    if a.len() > 0 && a[0] == b[0] && b[0] == c[0] {
        before_transitive(a.skip(1), b.skip(1), c.skip(1));
    }
}

/// Of two different texts one comes before the other.
pub proof fn before_total(a: Seq<char>, b: Seq<char>)
    ensures
        before(a, b) || a == b || before(b, a),
    decreases a.len(),
{
    if a.len() > 0 && b.len() > 0 && a[0] == b[0] {
        before_total(a.skip(1), b.skip(1));
        if a.skip(1) == b.skip(1) {
            assert(a =~= seq![a[0]] + a.skip(1));
            assert(b =~= seq![b[0]] + b.skip(1));
        }
    } else if a.len() == 0 && b.len() == 0 {
        assert(a =~= b);
    }
}

/// A common start does not matter to the order.
proof fn before_skips_common_start(a: Seq<char>, b: Seq<char>, n: int)
    requires
        0 <= n <= a.len(),
        n <= b.len(),
        forall|k: int| 0 <= k < n ==> a[k] == b[k],
    ensures
        before(a, b) == before(a.skip(n), b.skip(n)),
    decreases n,
{
    if n == 0 {
        assert(a.skip(0) =~= a);
        assert(b.skip(0) =~= b);
    } else {
        before_skips_common_start(a.skip(1), b.skip(1), n - 1);
        assert(a.skip(1).skip(n - 1) =~= a.skip(n));
        assert(b.skip(1).skip(n - 1) =~= b.skip(n));
    }
}

/// The number of a character.
pub fn code_point(c: char) -> (n: u32)
    ensures
        n as int == c as int,
{
    c as u32
}

/// Whether `a` comes before `b` in dictionary order.
pub fn comes_before(a: &str, b: &str) -> (r: bool)
    ensures
        r == before(a@, b@),
{
    let x = chars_of(a);
    let y = chars_of(b);
    let mut i: usize = 0;
    while i < x.len() && i < y.len()
        invariant
            x@ == a@,
            y@ == b@,
            i <= x.len(),
            i <= y.len(),
            forall|k: int| 0 <= k < i ==> x[k] == y[k],
        decreases x.len() - i,
    {
        let p: char = x[i];
        let q: char = y[i];
        if p != q {
            proof {
                before_skips_common_start(a@, b@, i as int);
                assert(a@.skip(i as int)[0] == p);
                assert(b@.skip(i as int)[0] == q);
            }
            return code_point(p) < code_point(q);
        }
        i = i + 1;
    }
    proof {
        before_skips_common_start(a@, b@, i as int);
    }
    i < y.len()
}

/// The characters of a text, one by one.
pub fn chars_of(t: &str) -> (r: Vec<char>)
    ensures
        r@ == t@,
{
    let mut out: Vec<char> = Vec::new();
    for c in it: t.chars()
        invariant
            it.seq() == t@,
            out@ == t@.take(it.index() as int),
    {
        proof {
            assert(t@.take(it.index() as int).push(c) =~= t@.take(it.index() + 1));
        }
        out.push(c);
    }
    assert(t@.take(t@.len() as int) =~= t@);
    out
}

/// Whether a text starts with another.
pub fn starts_with(t: &str, start: &str) -> (r: bool)
    ensures
        r == start@.is_prefix_of(t@),
{
    let x = chars_of(t);
    let y = chars_of(start);
    if y.len() > x.len() {
        return false;
    }
    for i in 0..y.len()
        invariant
            x@ == t@,
            y@ == start@,
            y.len() <= x.len(),
            forall|k: int| 0 <= k < i ==> x[k] == y[k],
    {
        if x[i] != y[i] {
            proof {
                assert(start@[i as int] != t@[i as int]);
                assert(t@.take(start@.len() as int)[i as int] == t@[i as int]);
            }
            return false;
        }
    }
    assert(start@ =~= t@.take(start@.len() as int));
    true
}

/// The digits of a number, most significant first.
pub open spec fn decimal(n: nat) -> Seq<char>
    decreases n,
{
    if n < 10 {
        seq![digit(n)]
    } else {
        decimal(n / 10).push(digit(n % 10))
    }
}

/// One decimal digit.
pub open spec fn digit(n: nat) -> char {
    (48 + n) as char
}

/// Writes a number in decimal.
pub fn number(n: u64) -> (r: String)
    ensures
        r@ == decimal(n as nat),
    decreases n,
{
    let c: u8 = (48 + n % 10) as u8;
    let mut s = if n < 10 {
        String::new()
    } else {
        number(n / 10)
    };
    s.push(c as char);
    proof {
        assert(c as char == digit((n % 10) as nat));
        if n < 10 {
            assert(s@ =~= seq![digit(n as nat)]);
        }
    }
    s
}

/// A number is written in tens: its last digit stands last, and what is before that is
/// the number without it; one below ten is its digit alone.
pub proof fn a_number_is_written_in_tens(n: nat, d: nat)
    requires
        d < 10,
    ensures
        decimal(d) == seq![digit(d)],
        n > 0 ==> decimal(10 * n + d) == decimal(n).push(digit(d)),
        digit(d) as int == '0' as int + d,
{
    if n > 0 {
        assert((10 * n + d) / 10 == n);
        assert((10 * n + d) % 10 == d);
    }
}

/// Two different numbers are written differently.
pub proof fn numbers_are_written_apart(n: nat, m: nat)
    requires
        decimal(n) == decimal(m),
    ensures
        n == m,
    decreases n,
{
    let (a, b) = (decimal(n), decimal(m));
    assert(a.last() == b.last());
    assert(digit(n % 10) as int == 48 + n % 10);
    assert(digit(m % 10) as int == 48 + m % 10);
    if n >= 10 && m >= 10 {
        assert(a.drop_last() =~= decimal(n / 10));
        assert(b.drop_last() =~= decimal(m / 10));
        numbers_are_written_apart(n / 10, m / 10);
    } else if n >= 10 {
        assert(decimal(n / 10).len() > 0) by {
            decimal_is_never_empty(n / 10);
        }
    } else if m >= 10 {
        assert(decimal(m / 10).len() > 0) by {
            decimal_is_never_empty(m / 10);
        }
    }
}

proof fn decimal_is_never_empty(n: nat)
    ensures
        decimal(n).len() > 0,
{
}

} // verus!
