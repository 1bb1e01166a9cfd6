//! The machine's output volume, as its tools report it and take it.
//!
//! `wpctl` and `pactl` are asked rather than PipeWire or PulseAudio: both tools
//! ship with the servers themselves.
use crate::text::{chars_of, decimal, join2, join3, number};
use crate::words::{
    between, find_next, is_space, next_of, nth_word, parse, parsed, spaces, text_of, word,
};
use vstd::prelude::*;

verus! {

/// What `wpctl get-volume` says: "Volume: 0.20" or "Volume: 0.20 [MUTED]".
#[derive(PartialEq, Eq, Debug)]
pub enum Fraction {
    /// A muted sink reports zero.
    Muted,
    /// The fraction, still as text.
    Text(String),
    /// Nothing that can be read.
    Unreadable,
}

/// Whether `part` stands in `t` at `i`.
pub open spec fn stands_at(t: Seq<char>, part: Seq<char>, i: int) -> bool {
    0 <= i && i + part.len() <= t.len() && t.subrange(i, i + part.len()) == part
}

/// Whether `part` stands anywhere in `t`.
pub open spec fn contains_text(t: Seq<char>, part: Seq<char>) -> bool {
    exists|i: int| stands_at(t, part, i)
}

fn same_at(t: &Vec<char>, part: &Vec<char>, i: usize) -> (r: bool)
    requires
        i + part@.len() <= t@.len(),
    ensures
        r == stands_at(t@, part@, i as int),
{
    let n: usize = t.len();
    for k in 0..part.len()
        invariant
            n == t@.len(),
            i + part@.len() <= n,
            forall|j: int| 0 <= j < k ==> t@[i + j] == part@[j],
    {
        if t[i + k] != part[k] {
            assert(t@.subrange(i as int, i + part@.len())[k as int] != part@[k as int]);
            return false;
        }
    }
    assert(t@.subrange(i as int, i + part@.len()) =~= part@);
    true
}

fn has_text(t: &Vec<char>, part: &Vec<char>) -> (r: bool)
    ensures
        r == contains_text(t@, part@),
{
    let mut i: usize = 0;
    while i <= t.len() && part.len() <= t.len() - i
        invariant
            i <= t@.len() + 1,
            forall|k: int| 0 <= k < i ==> !stands_at(t@, part@, k),
        decreases t@.len() + 1 - i,
    {
        if same_at(t, part, i) {
            return true;
        }
        if i == t.len() {
            return false;
        }
        i = i + 1;
    }
    false
}

/// Reads what `wpctl get-volume` says.
pub fn wpctl_fraction(said: &str) -> (r: Fraction)
    ensures
        match r {
            Fraction::Muted => contains_text(said@, "[MUTED]"@),
            Fraction::Text(t) => !contains_text(said@, "[MUTED]"@) && word(said@, 0, 1) == Some(t@),
            Fraction::Unreadable => !contains_text(said@, "[MUTED]"@) && word(said@, 0, 1) is None,
        },
{
    let all = chars_of(said);
    if has_text(&all, &chars_of("[MUTED]")) {
        return Fraction::Muted;
    }
    match nth_word(&all, 1) {
        Some(w) => Fraction::Text(text_of(&w)),
        None => Fraction::Unreadable,
    }
}

/// Where a text starts once the white space before it is gone.
pub open spec fn first_solid(t: Seq<char>) -> int {
    crate::words::past_space(t, 0)
}

/// Where a text ends once the white space after it is gone.
pub open spec fn last_solid(t: Seq<char>) -> int
    decreases t.len(),
{
    if t.len() > 0 && is_space(t.last()) {
        last_solid(t.drop_last())
    } else {
        t.len() as int
    }
}

/// A text without the white space around it.
pub open spec fn trimmed(t: Seq<char>) -> Seq<char> {
    if first_solid(t) >= last_solid(t) {
        Seq::empty()
    } else {
        t.subrange(first_solid(t), last_solid(t))
    }
}

/// A text without the percent signs at its end.
pub open spec fn bare(t: Seq<char>) -> Seq<char>
    decreases t.len(),
{
    if t.len() > 0 && t.last() == '%' {
        bare(t.drop_last())
    } else {
        t
    }
}

/// What stands between the first slash of a text and the second, or its end.
pub open spec fn between_slashes(t: Seq<char>) -> Option<Seq<char>> {
    let first = next_of(t, '/', 0);
    if first >= t.len() {
        None
    } else {
        Some(t.subrange(first + 1, next_of(t, '/', first + 1)))
    }
}

/// The percentage `pactl get-sink-volume` says: the number before the percent
/// sign, no more than a hundred.
pub open spec fn sink_percent(said: Seq<char>) -> Option<u8> {
    match between_slashes(said) {
        None => None,
        Some(p) => match parsed(bare(trimmed(p)), u8::MAX as int) {
            None => None,
            Some(n) => Some(
                if n > 100 {
                    100
                } else {
                    n as u8
                },
            ),
        },
    }
}

fn trim(t: &Vec<char>) -> (r: Vec<char>)
    ensures
        r@ == trimmed(t@),
{
    let mut from: usize = 0;
    while from < t.len() && spaces(t[from])
        invariant
            from <= t@.len(),
            first_solid(t@) == crate::words::past_space(t@, from as int),
        decreases t@.len() - from,
    {
        from = from + 1;
    }
    let mut to: usize = t.len();
    assert(t@.take(to as int) =~= t@);
    while to > 0 && spaces(t[to - 1])
        invariant
            to <= t@.len(),
            last_solid(t@) == last_solid(t@.take(to as int)),
        decreases to,
    {
        assert(t@.take(to as int).drop_last() =~= t@.take(to - 1));
        to = to - 1;
    }
    if from >= to {
        Vec::new()
    } else {
        between(t, from, to)
    }
}

fn strip_percent(t: &Vec<char>) -> (r: Vec<char>)
    ensures
        r@ == bare(t@),
{
    let mut to: usize = t.len();
    assert(t@.take(to as int) =~= t@);
    while to > 0 && t[to - 1] == '%'
        invariant
            to <= t@.len(),
            bare(t@) == bare(t@.take(to as int)),
        decreases to,
    {
        assert(t@.take(to as int).drop_last() =~= t@.take(to - 1));
        to = to - 1;
    }
    assert(t@.subrange(0, to as int) =~= t@.take(to as int));
    between(t, 0, to)
}

/// Reads what `pactl get-sink-volume` says: "Volume: front-left: 32768 /  50% /
/// -18.06 dB, ...".
pub fn pactl_percent(said: &str) -> (r: Option<u8>)
    ensures
        r == sink_percent(said@),
{
    let all = chars_of(said);
    let first: usize = find_next(&all, '/', 0);
    if first >= all.len() {
        return None;
    }
    let second: usize = find_next(&all, '/', first + 1);
    let piece = between(&all, first + 1, second);
    match parse(&strip_percent(&trim(&piece)), 255) {
        Some(n) => Some(
            if n > 100 {
                100
            } else {
                n as u8
            },
        ),
        None => None,
    }
}

/// A percentage no greater than a hundred.
pub fn capped(percent: u8) -> (r: u8)
    ensures
        r == (if percent > 100 {
            100
        } else {
            percent
        }),
{
    if percent > 100 {
        100
    } else {
        percent
    }
}

/// A percentage as the tools take it.
pub fn volume_arg(percent: u8) -> (r: String)
    ensures
        r@ == decimal(percent as nat) + "%"@,
{
    join2(number(percent as u64).as_str(), "%")
}

/// How far apart two percentages are.
pub open spec fn apart(a: u8, b: u8) -> int {
    if a > b {
        a - b
    } else {
        b - a
    }
}

/// Whether a volume that was read back is as good as the one that was set.
/// Rounding and clamping is fine; only a value that did not move at all is a
/// failure.
pub fn took(landed: u8, percent: u8) -> (r: bool)
    ensures
        r == (apart(landed, percent) <= 5),
{
    if landed > percent {
        landed - percent <= 5
    } else {
        percent - landed <= 5
    }
}

/// What is done next while a volume is set.
#[derive(Clone, Copy, PartialEq, Eq, Debug, Structural)]
pub enum Step {
    SetWithWpctl,
    SetWithPactl,
    UnmuteWithWpctl,
    UnmuteWithPactl,
    ReadBack,
    GiveUp,
}

/// What follows a step that a tool did or did not take. `wpctl` is tried before
/// `pactl`, and a volume above zero is unmuted too.
pub open spec fn follows(step: Step, ran: bool, percent: u8) -> Step {
    match step {
        Step::SetWithWpctl | Step::SetWithPactl => if ran {
            if percent > 0 {
                Step::UnmuteWithWpctl
            } else {
                Step::ReadBack
            }
        } else if step == Step::SetWithWpctl {
            Step::SetWithPactl
        } else {
            Step::GiveUp
        },
        Step::UnmuteWithWpctl => if ran {
            Step::ReadBack
        } else {
            Step::UnmuteWithPactl
        },
        Step::UnmuteWithPactl => Step::ReadBack,
        Step::ReadBack => Step::ReadBack,
        Step::GiveUp => Step::GiveUp,
    }
}

/// The first thing to do to set a volume.
pub fn first_step() -> (s: Step)
    ensures
        s == Step::SetWithWpctl,
{
    Step::SetWithWpctl
}

/// What to do after a step: `ran` says whether the tool was there and took it.
/// Unmuting comes with setting, or dragging up from zero silently does nothing;
/// both tools are tried, since `wpctl` is missing where there is only PulseAudio.
pub fn next_step(step: Step, ran: bool, percent: u8) -> (s: Step)
    ensures
        s == follows(step, ran, percent),
{
    match step {
        Step::SetWithWpctl if !ran => Step::SetWithPactl,
        Step::SetWithPactl if !ran => Step::GiveUp,
        Step::SetWithWpctl | Step::SetWithPactl => if percent > 0 {
            Step::UnmuteWithWpctl
        } else {
            Step::ReadBack
        },
        Step::UnmuteWithWpctl if !ran => Step::UnmuteWithPactl,
        Step::UnmuteWithWpctl | Step::UnmuteWithPactl | Step::ReadBack => Step::ReadBack,
        Step::GiveUp => Step::GiveUp,
    }
}

/// What came of setting the volume, read back because that is the whole point:
/// `set` says whether any tool took the command, `landed` what was read.
pub fn outcome(set: bool, percent: u8, landed: Option<u8>) -> (r: Result<u8, String>)
    ensures
        match r {
            Ok(v) => set && landed == Some(v) && apart(v, percent) <= 5,
            Err(e) => if !set {
                e@ == "no sound server here to set a volume on"@
            } else {
                match landed {
                    None => e@ == "the volume could not be read back"@,
                    Some(v) => apart(v, percent) > 5 && e@
                        == "the volume did not move: it is still "@ + decimal(v as nat) + "%"@,
                }
            },
        },
{
    if !set {
        return Err("no sound server here to set a volume on".to_owned());
    }
    match landed {
        None => Err("the volume could not be read back".to_owned()),
        Some(v) => if took(v, percent) {
            Ok(v)
        } else {
            Err(join3("the volume did not move: it is still ", number(v as u64).as_str(), "%"))
        },
    }
}

/// A volume is never more than a hundred, and one that is not is left as it is.
pub proof fn a_volume_is_at_most_a_hundred(percent: u8, r: u8, said: &str, p: Option<u8>)
    requires
        call_ensures(capped, (percent,), r),
        call_ensures(pactl_percent, (said,), p),
    ensures
        r <= 100,
        percent <= 100 ==> r == percent,
        percent > 100 ==> r == 100,
        p matches Some(v) ==> v <= 100,
{
    if p is Some {
        let digits = crate::words::past_plus(bare(trimmed(between_slashes(said@)->Some_0)));
        crate::words::digits_are_not_negative(digits);
    }
}

/// A volume took where what is read back is within five of it, whichever is the greater.
pub proof fn a_volume_that_moved_took(landed: u8, percent: u8, r: bool, q: bool)
    requires
        call_ensures(took, (landed, percent), r),
        call_ensures(took, (percent, landed), q),
    ensures
        r == q,
        landed == percent ==> r,
        r <==> landed <= percent + 5 && percent <= landed + 5,
{
}

/// Setting a volume goes by one tool and, where that does not run, by the other; a volume
/// that can be heard is unmuted in the same way; and then it is read back. Where neither
/// tool sets it, it is given up.
pub proof fn a_volume_is_set_and_read_back(percent: u8, first: Step, ran: bool)
    requires
        call_ensures(first_step, (), first),
    ensures
        first == Step::SetWithWpctl,
        follows(first, false, percent) == Step::SetWithPactl,
        follows(Step::SetWithPactl, false, percent) == Step::GiveUp,
        percent == 0 ==> follows(first, true, percent) == Step::ReadBack && follows(
            Step::SetWithPactl,
            true,
            percent,
        ) == Step::ReadBack,
        percent > 0 ==> follows(first, true, percent) == Step::UnmuteWithWpctl && follows(
            Step::SetWithPactl,
            true,
            percent,
        ) == Step::UnmuteWithWpctl,
        follows(Step::UnmuteWithWpctl, true, percent) == Step::ReadBack,
        follows(Step::UnmuteWithWpctl, false, percent) == Step::UnmuteWithPactl,
        follows(Step::UnmuteWithPactl, ran, percent) == Step::ReadBack,
        follows(Step::ReadBack, ran, percent) == Step::ReadBack,
        follows(Step::GiveUp, ran, percent) == Step::GiveUp,
{
}

/// A volume that was set is reported as it was read back, where it moved; that nothing
/// could set it, that it could not be read and that it did not move are each said.
pub proof fn a_volume_is_reported_as_it_landed(
    set: bool,
    percent: u8,
    landed: Option<u8>,
    r: Result<u8, String>,
)
    requires
        call_ensures(outcome, (set, percent, landed), r),
    ensures
        r matches Ok(v) ==> set && landed == Some(v),
        set && landed == Some(percent) ==> r == Ok::<u8, String>(percent),
        !set ==> (r matches Err(e) && e@ == "no sound server here to set a volume on"@),
        set && landed is None ==> (r matches Err(e) && e@ == "the volume could not be read back"@),
        set && (landed matches Some(v) && (v > percent + 5 || percent > v + 5)) ==> r is Err,
{
}

/// A sink that says it is muted is silent whatever else it says; otherwise its volume is
/// the second word that it says.
pub proof fn a_muted_sink_is_silent(said: &str, r: Fraction)
    requires
        call_ensures(wpctl_fraction, (said,), r),
    ensures
        r is Muted <==> contains_text(said@, "[MUTED]"@),
        r matches Fraction::Text(t) ==> word(said@, 0, 1) == Some(t@),
        r is Unreadable ==> word(said@, 0, 1) is None,
{
}

/// White space around a text and percent signs after it are dropped, and nothing else is.
pub proof fn a_percentage_is_bared(t: Seq<char>)
    ensures
        t.len() == 0 || t.last() != '%' ==> bare(t) == t,
        bare(t.push('%')) == bare(t),
        t.len() > 0 && !is_space(t[0]) && !is_space(t.last()) ==> trimmed(t) == t,
{
    assert(t.push('%').drop_last() =~= t);
    if t.len() > 0 && !is_space(t[0]) && !is_space(t.last()) {
        assert(t.subrange(0, t.len() as int) =~= t);
    }
}

/// A volume that did not move is told by where it stands, and one is asked for in hundredths.
pub proof fn a_volume_is_told_in_hundredths(
    percent: u8,
    v: u8,
    r: Result<u8, String>,
    asked: u8,
    arg: String,
)
    requires
        call_ensures(outcome, (true, percent, Some(v)), r),
        call_ensures(volume_arg, (asked,), arg),
    ensures
        r is Ok <==> percent - 5 <= v <= percent + 5,
        r matches Ok(n) ==> n == v,
        r matches Err(e) ==> e@ == "the volume did not move: it is still "@ + decimal(v as nat)
            + "%"@,
        arg@ == decimal(asked as nat) + "%"@,
{
}

} // verus!
