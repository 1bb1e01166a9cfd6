//! Taking text apart: words, lines, pieces and the numbers in them.
use crate::text::{chars_of, code_point};
use vstd::prelude::*;

verus! {

/// White space, as Unicode has it.
pub open spec fn is_space(c: char) -> bool {
    let n = c as int;
    9 <= n <= 13 || n == 0x20 || n == 0x85 || n == 0xa0 || n == 0x1680 || 0x2000 <= n <= 0x200a || n
        == 0x2028 || n == 0x2029 || n == 0x202f || n == 0x205f || n == 0x3000
}

/// Whether a character is white space.
pub fn spaces(c: char) -> (r: bool)
    ensures
        r == is_space(c),
{
    let n: u32 = code_point(c);
    9 <= n && n <= 13 || n == 0x20 || n == 0x85 || n == 0xa0 || n == 0x1680 || 0x2000 <= n && n <= 0x200a
        || n == 0x2028 || n == 0x2029 || n == 0x202f || n == 0x205f || n == 0x3000
}

/// The first place from `i` on that is not white space.
pub open spec fn past_space(t: Seq<char>, i: int) -> int
    decreases t.len() - i,
{
    if i < t.len() && is_space(t[i]) {
        past_space(t, i + 1)
    } else {
        i
    }
}

/// The first place from `i` on that is white space.
pub open spec fn past_word(t: Seq<char>, i: int) -> int
    decreases t.len() - i,
{
    if i < t.len() && !is_space(t[i]) {
        past_word(t, i + 1)
    } else {
        i
    }
}

/// The `n`th word after `i`: words are what white space separates.
pub open spec fn word(t: Seq<char>, i: int, n: nat) -> Option<Seq<char>>
    decreases n,
{
    let start = past_space(t, i);
    if start >= t.len() {
        None
    } else if n == 0 {
        Some(t.subrange(start, past_word(t, start)))
    } else {
        word(t, past_word(t, start), (n - 1) as nat)
    }
}

/// The characters between two places.
pub fn between(all: &Vec<char>, from: usize, to: usize) -> (r: Vec<char>)
    requires
        from <= to <= all@.len(),
    ensures
        r@ == all@.subrange(from as int, to as int),
{
    let mut out: Vec<char> = Vec::new();
    for i in from..to
        invariant
            to <= all@.len(),
            out@.len() == i - from,
            forall|k: int| 0 <= k < out@.len() ==> out@[k] == all@[from + k],
    {
        out.push(all[i]);
    }
    assert(out@ =~= all@.subrange(from as int, to as int));
    out
}

/// Characters as a text.
pub fn text_of(all: &Vec<char>) -> (r: String)
    ensures
        r@ == all@,
{
    let mut out = String::new();
    for i in 0..all.len()
        invariant
            out@ == all@.take(i as int),
    {
        out.push(all[i]);
        assert(all@.take(i + 1) =~= all@.take(i as int).push(all@[i as int]));
    }
    assert(all@.take(all@.len() as int) =~= all@);
    out
}

fn skip_space(all: &Vec<char>, i: usize) -> (r: usize)
    requires
        i <= all@.len(),
    ensures
        r == past_space(all@, i as int),
        i <= r <= all@.len(),
{
    let mut k: usize = i;
    while k < all.len() && spaces(all[k])
        invariant
            i <= k <= all@.len(),
            past_space(all@, k as int) == past_space(all@, i as int),
        decreases all@.len() - k,
    {
        k = k + 1;
    }
    k
}

fn skip_word(all: &Vec<char>, i: usize) -> (r: usize)
    requires
        i <= all@.len(),
    ensures
        r == past_word(all@, i as int),
        i <= r <= all@.len(),
{
    let mut k: usize = i;
    while k < all.len() && !spaces(all[k])
        invariant
            i <= k <= all@.len(),
            past_word(all@, k as int) == past_word(all@, i as int),
        decreases all@.len() - k,
    {
        k = k + 1;
    }
    k
}

/// The `n`th word of a text.
pub fn nth_word(all: &Vec<char>, n: usize) -> (r: Option<Vec<char>>)
    ensures
        match r {
            Some(w) => word(all@, 0, n as nat) == Some(w@),
            None => word(all@, 0, n as nat) is None,
        },
{
    let mut at: usize = 0;
    let mut left: usize = n;
    loop
        invariant
            at <= all@.len(),
            word(all@, at as int, left as nat) == word(all@, 0, n as nat),
        decreases left,
    {
        let start: usize = skip_space(all, at);
        if start >= all.len() {
            return None;
        }
        let end: usize = skip_word(all, start);
        if left == 0 {
            return Some(between(all, start, end));
        }
        left = left - 1;
        at = end;
    }
}

/// The first place from `i` on with a character.
pub open spec fn next_of(t: Seq<char>, c: char, i: int) -> int
    decreases t.len() - i,
{
    if i < t.len() && t[i] != c {
        next_of(t, c, i + 1)
    } else {
        i
    }
}

/// The first place from `i` on with a character.
pub fn find_next(all: &Vec<char>, c: char, i: usize) -> (r: usize)
    requires
        i <= all@.len(),
    ensures
        r == next_of(all@, c, i as int),
        i <= r <= all@.len(),
{
    let mut k: usize = i;
    while k < all.len() && all[k] != c
        invariant
            i <= k <= all@.len(),
            next_of(all@, c, k as int) == next_of(all@, c, i as int),
        decreases all@.len() - k,
    {
        k = k + 1;
    }
    k
}

/// What follows a start on the first line, from `i` on, that has it.
pub open spec fn line_after(t: Seq<char>, start: Seq<char>, i: int) -> Option<Seq<char>>
    decreases t.len() - i,
{
    if i > t.len() {
        None
    } else {
        let end = next_of(t, '\n', i);
        if i <= end <= t.len() && start.is_prefix_of(t.subrange(i, end)) {
            Some(t.subrange(i + start.len(), end))
        } else if end >= t.len() || end < i {
            None
        } else {
            line_after(t, start, end + 1)
        }
    }
}

fn starts_at(all: &Vec<char>, start: &Vec<char>, from: usize, to: usize) -> (r: bool)
    requires
        from <= to <= all@.len(),
    ensures
        r == start@.is_prefix_of(all@.subrange(from as int, to as int)),
{
    let ghost line = all@.subrange(from as int, to as int);
    if start.len() > to - from {
        return false;
    }
    for i in 0..start.len()
        invariant
            from <= to <= all@.len(),
            start@.len() <= to - from,
            line == all@.subrange(from as int, to as int),
            forall|k: int| 0 <= k < i ==> start@[k] == line[k],
    {
        if start[i] != all[from + i] {
            assert(start@[i as int] != line[i as int]);
            assert(line.take(start@.len() as int)[i as int] == line[i as int]);
            return false;
        }
        assert(start@[i as int] == line[i as int]);
    }
    assert(start@ =~= line.take(start@.len() as int));
    true
}

/// What follows `start` on the first line that has it.
pub fn rest_of_line(all: &Vec<char>, start: &str) -> (r: Option<Vec<char>>)
    ensures
        match r {
            Some(w) => line_after(all@, start@, 0) == Some(w@),
            None => line_after(all@, start@, 0) is None,
        },
{
    let head = chars_of(start);
    let mut at: usize = 0;
    loop
        invariant
            head@ == start@,
            at <= all@.len(),
            line_after(all@, start@, at as int) == line_after(all@, start@, 0),
        decreases all@.len() - at,
    {
        let end: usize = find_next(all, '\n', at);
        if starts_at(all, &head, at, end) {
            proof {
                assert(start@.len() <= end - at);
            }
            return Some(between(all, at + head.len(), end));
        }
        if end >= all.len() {
            return None;
        }
        at = end + 1;
    }
}

/// Whether a character is a decimal digit.
pub open spec fn is_digit(c: char) -> bool {
    '0' <= c <= '9'
}

/// The number that digits write.
pub open spec fn digits_value(t: Seq<char>) -> int
    decreases t.len(),
{
    if t.len() == 0 {
        0
    } else {
        digits_value(t.drop_last()) * 10 + (t.last() as int - 48)
    }
}

/// A number no greater than `max`: digits, at least one, after an optional plus.
pub open spec fn parsed(t: Seq<char>, max: int) -> Option<int> {
    let digits = past_plus(t);
    if digits.len() > 0 && all_digits(digits) && digits_value(digits) <= max {
        Some(digits_value(digits))
    } else {
        None
    }
}

/// A text without the plus it may start with.
pub open spec fn past_plus(t: Seq<char>) -> Seq<char> {
    if t.len() > 0 && t[0] == '+' {
        t.skip(1)
    } else {
        t
    }
}

/// Whether a text is nothing but digits.
pub open spec fn all_digits(t: Seq<char>) -> bool {
    forall|k: int| 0 <= k < t.len() ==> is_digit(#[trigger] t[k])
}

proof fn more_digits_are_more(t: Seq<char>, n: int)
    requires
        0 <= n <= t.len(),
        all_digits(t),
    ensures
        0 <= digits_value(t.take(n)) <= digits_value(t),
    decreases t.len() - n,
{
    digits_are_not_negative(t.take(n));
    if n < t.len() {
        more_digits_are_more(t, n + 1);
        assert(t.take(n + 1).drop_last() =~= t.take(n));
        assert(t.take(n + 1).last() == t[n]);
        digits_are_not_negative(t.take(n));
    } else {
        assert(t.take(n) =~= t);
    }
}

/// Digits write no number below zero.
pub proof fn digits_are_not_negative(t: Seq<char>)
    requires
        all_digits(t),
    ensures
        digits_value(t) >= 0,
    decreases t.len(),
{
    if t.len() > 0 {
        assert forall|k: int| 0 <= k < t.drop_last().len() implies is_digit(
            #[trigger] t.drop_last()[k],
        ) by {
            assert(t.drop_last()[k] == t[k]);
        }
        digits_are_not_negative(t.drop_last());
        assert(is_digit(t[t.len() - 1]));
    }
}

/// Reads a number no greater than `max`.
pub fn parse(all: &Vec<char>, max: u32) -> (r: Option<u32>)
    ensures
        match r {
            Some(n) => parsed(all@, max as int) == Some(n as int),
            None => parsed(all@, max as int) is None,
        },
{
    let from: usize = if all.len() > 0 && all[0] == '+' {
        1
    } else {
        0
    };
    let ghost digits = past_plus(all@);
    assert(digits =~= all@.skip(from as int));
    if from >= all.len() {
        return None;
    }
    let mut n: u64 = 0;
    let mut i: usize = from;
    assert(digits.take(0) =~= Seq::<char>::empty());
    while i < all.len()
        invariant
            from <= i <= all@.len(),
            from < all@.len(),
            digits == past_plus(all@),
            digits == all@.skip(from as int),
            n == digits_value(digits.take(i - from)),
            n <= max,
            forall|k: int| 0 <= k < i - from ==> is_digit(#[trigger] digits[k]),
        decreases all@.len() - i,
    {
        let c: char = all[i];
        let d: u32 = code_point(c);
        assert(digits[i - from] == c);
        if d < 48 || d > 57 {
            assert(!is_digit(digits[i - from]));
            return None;
        }
        n = n * 10 + (d - 48) as u64;
        proof {
            assert(digits.take(i + 1 - from).drop_last() =~= digits.take(i - from));
            assert(digits.take(i + 1 - from).last() == c);
        }
        i = i + 1;
        if n > max as u64 {
            proof {
                if all_digits(digits) {
                    more_digits_are_more(digits, i - from);
                }
            }
            return None;
        }
    }
    assert(digits.take(digits.len() as int) =~= digits);
    Some(n as u32)
}

/// A word is what stands between white space: the first word of a text that begins with
/// one is all of it up to the first white space, and whatever white space is before it
/// does not matter.
pub proof fn a_word_ends_at_white_space(w: Seq<char>, c: char, rest: Seq<char>, before: char)
    requires
        w.len() > 0,
        forall|k: int| 0 <= k < w.len() ==> !is_space(#[trigger] w[k]),
        is_space(c),
        is_space(before),
    ensures
        word(w + seq![c] + rest, 0, 0) == Some(w),
        word(w, 0, 0) == Some(w),
        word(seq![before] + w + seq![c] + rest, 0, 0) == Some(w),
{
    let t = w + seq![c] + rest;
    assert forall|k: int| 0 <= k < w.len() implies !is_space(#[trigger] t[k]) by {
        assert(t[k] == w[k]);
    }
    assert(t[w.len() as int] == c);
    a_run_is_passed(t, 0, w.len() as int);
    assert(!is_space(t[0]));
    assert(t.subrange(0, w.len() as int) =~= w);
    a_run_is_passed(w, 0, w.len() as int);
    assert(!is_space(w[0]));
    assert(w.subrange(0, w.len() as int) =~= w);
    let u = seq![before] + w + seq![c] + rest;
    assert forall|k: int| 1 <= k < w.len() + 1 implies !is_space(#[trigger] u[k]) by {
        assert(u[k] == w[k - 1]);
    }
    assert(u[w.len() as int + 1] == c);
    a_run_is_passed(u, 1, w.len() as int + 1);
    assert(u[0] == before);
    assert(!is_space(u[1]));
    reveal_with_fuel(past_space, 2);
    assert(past_space(u, 0) == 1);
    assert(u.subrange(1, w.len() as int + 1) =~= w);
}

proof fn a_run_is_passed(t: Seq<char>, i: int, end: int)
    requires
        0 <= i <= end <= t.len(),
        forall|k: int| i <= k < end ==> !is_space(#[trigger] t[k]),
        end < t.len() ==> is_space(t[end]),
    ensures
        past_word(t, i) == end,
    decreases end - i,
{
    if i < end {
        a_run_is_passed(t, i + 1, end);
    }
}

/// Digits are read in tens, the last of them the ones: what is written after a number
/// multiplies it by ten and adds its own worth.
pub proof fn digits_are_read_in_tens(t: Seq<char>, c: char)
    requires
        is_digit(c),
    ensures
        digits_value(t.push(c)) == digits_value(t) * 10 + (c as int - '0' as int),
        digits_value(Seq::empty()) == 0,
        is_digit(c) <==> '0' <= c <= '9',
{
    assert(t.push(c).drop_last() =~= t);
}

/// A number that is written in decimal is read back, where it is not too great; a plus
/// before it does not matter, and what holds anything else is no number.
pub proof fn a_written_number_reads_back(n: nat, max: int, t: Seq<char>, i: int)
    ensures
        n <= max ==> parsed(crate::text::decimal(n), max) == Some(n as int),
        n > max ==> parsed(crate::text::decimal(n), max) is None,
        n <= max ==> parsed(seq!['+'] + crate::text::decimal(n), max) == Some(n as int),
        0 <= i < t.len() && !is_digit(t[i]) && (i > 0 || t[i] != '+') ==> parsed(t, max) is None,
        t.len() == 0 ==> parsed(t, max) is None,
{
    let d = crate::text::decimal(n);
    decimal_is_digits(n);
    assert(d[0] != '+') by {
        assert(is_digit(d[0]));
    }
    let plus = seq!['+'] + d;
    assert(plus.skip(1) =~= d);
    if 0 <= i < t.len() && !is_digit(t[i]) && (i > 0 || t[i] != '+') {
        let rest = past_plus(t);
        if t[0] == '+' {
            assert(rest[i - 1] == t[i]);
        } else {
            assert(rest[i] == t[i]);
        }
    }
}

proof fn decimal_is_digits(n: nat)
    ensures
        crate::text::decimal(n).len() > 0,
        all_digits(crate::text::decimal(n)),
        digits_value(crate::text::decimal(n)) == n,
    decreases n,
{
    let d = crate::text::decimal(n);
    if n >= 10 {
        decimal_is_digits(n / 10);
        assert(d.drop_last() =~= crate::text::decimal(n / 10));
        assert forall|k: int| 0 <= k < d.len() implies is_digit(#[trigger] d[k]) by {
            if k < d.len() - 1 {
                assert(d[k] == crate::text::decimal(n / 10)[k]);
            }
        }
    } else {
        assert(d.drop_last() =~= Seq::<char>::empty());
        reveal_with_fuel(digits_value, 2);
    }
}

} // verus!
