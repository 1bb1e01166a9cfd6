//! What devices are called.
//!
//! A device is its static public key. The short id and the fingerprint are texts
//! derived from that key; the key is the identity, the texts are how it is
//! written down, looked up and shown.
use crate::text::same;
use vstd::prelude::*;

verus! {

/// A static public key.
pub type PublicKey = [u8; 32];

/// The short text a device is filed under.
#[derive(PartialEq, Eq, PartialOrd, Ord, Hash, Debug)]
pub struct DeviceId {
    text: String,
}

impl View for DeviceId {
    type V = Seq<char>;

    closed spec fn view(&self) -> Seq<char> {
        self.text@
    }
}

impl DeviceId {
    /// The id written as `text`.
    pub fn new(text: String) -> (id: DeviceId)
        ensures
            id@ == text@,
    {
        DeviceId { text }
    }

    /// The id as text.
    pub fn as_str(&self) -> (t: &str)
        ensures
            t@ == self@,
    {
        self.text.as_str()
    }

    /// The id as a text of its own.
    pub fn text(&self) -> (t: String)
        ensures
            t@ == self@,
    {
        self.text.clone()
    }

    /// Whether two ids are the same.
    pub fn is(&self, other: &DeviceId) -> (r: bool)
        ensures
            r == (self@ == other@),
    {
        same(self.text.as_str(), other.text.as_str())
    }
}

impl Clone for DeviceId {
    fn clone(&self) -> (r: DeviceId)
        ensures
            r@ == self@,
    {
        DeviceId { text: self.text.clone() }
    }
}

/// The long text a device is recognised by when it is advertised.
#[derive(PartialEq, Eq, PartialOrd, Ord, Hash, Debug)]
pub struct Fingerprint {
    text: String,
}

impl View for Fingerprint {
    type V = Seq<char>;

    closed spec fn view(&self) -> Seq<char> {
        self.text@
    }
}

impl Fingerprint {
    /// The fingerprint written as `text`.
    pub fn new(text: String) -> (fp: Fingerprint)
        ensures
            fp@ == text@,
    {
        Fingerprint { text }
    }

    /// The fingerprint as text.
    pub fn as_str(&self) -> (t: &str)
        ensures
            t@ == self@,
    {
        self.text.as_str()
    }

    /// The fingerprint as a text of its own.
    pub fn text(&self) -> (t: String)
        ensures
            t@ == self@,
    {
        self.text.clone()
    }

    /// Whether two fingerprints are the same.
    pub fn is(&self, other: &Fingerprint) -> (r: bool)
        ensures
            r == (self@ == other@),
    {
        same(self.text.as_str(), other.text.as_str())
    }
}

impl Clone for Fingerprint {
    fn clone(&self) -> (r: Fingerprint)
        ensures
            r@ == self@,
    {
        Fingerprint { text: self.text.clone() }
    }
}

/// The view of an optional id.
pub open spec fn opt_id(id: Option<DeviceId>) -> Option<Seq<char>> {
    match id {
        Some(d) => Some(d@),
        None => None,
    }
}

/// An id and a fingerprint are the texts they were made of, and the same exactly where those
/// are.
pub proof fn an_id_is_its_text(
    t: String,
    a: DeviceId,
    b: DeviceId,
    back: String,
    same_id: bool,
    u: String,
    f: Fingerprint,
    g: Fingerprint,
    again: String,
    same_fp: bool,
)
    requires
        call_ensures(DeviceId::new, (t,), a),
        call_ensures(DeviceId::text, (&a,), back),
        call_ensures(DeviceId::is, (&a, &b), same_id),
        call_ensures(Fingerprint::new, (u,), f),
        call_ensures(Fingerprint::text, (&f,), again),
        call_ensures(Fingerprint::is, (&f, &g), same_fp),
    ensures
        back@ == t@,
        same_id <==> t@ == b@,
        again@ == u@,
        same_fp <==> u@ == g@,
{
}

} // verus!
