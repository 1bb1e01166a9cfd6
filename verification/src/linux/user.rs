//! Whose process this is.
use crate::text::chars_of;
use crate::words::{line_after, nth_word, parse, parsed, rest_of_line, word};
use vstd::prelude::*;

verus! {

/// The real user id that `/proc/self/status` names: the first number on the
/// `Uid:` line.
pub open spec fn uid_of(status: Seq<char>) -> u32 {
    match line_after(status, "Uid:"@, 0) {
        None => u32::MAX,
        Some(line) => match word(line, 0, 0) {
            None => u32::MAX,
            Some(w) => match parsed(w, u32::MAX as int) {
                None => u32::MAX,
                Some(n) => n as u32,
            },
        },
    }
}

/// Reads the real user id from the text of `/proc/self/status`. One that cannot
/// be read is nobody's.
pub fn uid(status: &str) -> (r: u32)
    ensures
        r == uid_of(status@),
{
    let all = chars_of(status);
    match rest_of_line(&all, "Uid:") {
        None => u32::MAX,
        Some(line) => match nth_word(&line, 0) {
            None => u32::MAX,
            Some(w) => match parse(&w, u32::MAX) {
                None => u32::MAX,
                Some(n) => n,
            },
        },
    }
}

/// The user is the first number of the line that names it.
pub proof fn the_first_number_is_the_users(
    status: &str,
    r: u32,
    line: Seq<char>,
    w: Seq<char>,
)
    requires
        call_ensures(uid, (status,), r),
        line_after(status@, "Uid:"@, 0) == Some(line),
        word(line, 0, 0) == Some(w),
    ensures
        parsed(w, u32::MAX as int) matches Some(n) ==> (0 <= n ==> r == n),
        parsed(w, u32::MAX as int) is None ==> r == u32::MAX,
{
}

/// Where nobody is named it is nobody.
pub proof fn nobody_is_named_nobody(status: &str, r: u32)
    requires
        call_ensures(uid, (status,), r),
        line_after(status@, "Uid:"@, 0) is None,
    ensures
        r == u32::MAX,
{
}

} // verus!
