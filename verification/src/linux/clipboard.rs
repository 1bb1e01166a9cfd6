//! Noticing that the clipboard changed.
//!
//! There is nothing to be told by when it does, so it is read again and again
//! and each reading compared with the last.
use crate::text::{copy_bytes, same_bytes};
use vstd::prelude::*;

verus! {

/// How often to look.
pub const POLL_INTERVAL_MS: u64 = 700;

/// The last value that was seen.
pub struct Watch {
    last: Option<Vec<u8>>,
}

impl View for Watch {
    type V = Option<Seq<u8>>;

    closed spec fn view(&self) -> Option<Seq<u8>> {
        match self.last {
            Some(b) => Some(b@),
            None => None,
        }
    }
}

impl Watch {
    /// Nothing has been seen: the first value is reported too, or the first copy
    /// after a restart would go nowhere.
    pub fn new() -> (w: Watch)
        ensures
            w@ is None,
    {
        Watch { last: None }
    }

    /// Takes a reading, and returns the value to report if it is a new one.
    /// `None` is an empty clipboard; after it, the same value is new again.
    pub fn see(&mut self, reading: Option<Vec<u8>>) -> (r: Option<Vec<u8>>)
        ensures
            final(self)@ == (match reading {
                Some(b) => Some(b@),
                None => None,
            }),
            match reading {
                Some(b) => if old(self)@ == Some(b@) {
                    r is None
                } else {
                    r matches Some(v) && v@ == b@
                },
                None => r is None,
            },
    {
        match reading {
            Some(current) => {
                let known = match &self.last {
                    Some(l) => same_bytes(l, &current),
                    None => false,
                };
                let out = if known {
                    None
                } else {
                    Some(copy_bytes(&current))
                };
                self.last = Some(current);
                out
            },
            None => {
                self.last = None;
                None
            },
        }
    }
}

/// A value is reported when it is new and not again while it stays; after the clipboard
/// has been empty, or held something else, it is new again.
pub proof fn a_value_is_reported_once(
    w: &mut Watch,
    value: Vec<u8>,
    first: Option<Vec<u8>>,
    x: &mut Watch,
    again: Option<Vec<u8>>,
    y: &mut Watch,
    nothing: Option<Vec<u8>>,
    z: &mut Watch,
    back: Option<Vec<u8>>,
)
    requires
        call_ensures(Watch::see, (w, Some(value)), first),
        call_ensures(Watch::see, (x, Some(value)), again),
        old(x)@ == final(w)@,
        call_ensures(Watch::see, (y, None), nothing),
        call_ensures(Watch::see, (z, Some(value)), back),
        old(z)@ == final(y)@,
    ensures
        first matches Some(v) ==> v@ == value@,
        old(w)@ != Some(value@) ==> first is Some,
        old(w)@ == Some(value@) ==> first is None,
        again is None,
        nothing is None,
        back matches Some(v) && v@ == value@,
{
}

} // verus!
