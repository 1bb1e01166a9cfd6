//! Sending and receiving a file, for hosts with no async runtime: what is
//! decided between one read and the next.
//!
//! Framing and sealing belong to the wire format; sockets and files to the host.
use crate::ffi::types::{FfiError, FfiErrorView};
use crate::text::{decimal, join2, join3, number};
use vstd::prelude::*;

verus! {

/// What a listener still has to hand out.
pub struct ListenerView {
    /// Where the far end is told to connect.
    pub endpoint: Seq<char>,
    /// Nobody has waited on it yet.
    pub listening: bool,
    /// The far end has connected and nobody has read from it yet.
    pub connected: bool,
}

/// A socket waiting for one transfer. Split into bind/accept/receive so
/// waiting for a sender can be abandoned without cutting off a file already
/// arriving.
#[derive(Debug)]
pub struct BulkListener {
    endpoint: String,
    /// Taken by `accept`.
    listening: bool,
    /// Set once `accept` has let somebody in, consumed by `receive`.
    connected: bool,
}

impl View for BulkListener {
    type V = ListenerView;

    closed spec fn view(&self) -> ListenerView {
        ListenerView {
            endpoint: self.endpoint@,
            listening: self.listening,
            connected: self.connected,
        }
    }
}

impl BulkListener {
    /// A port bound for one transfer. `host` is the address the far end will be
    /// told to dial.
    pub fn bind(host: &str, port: u16) -> (l: BulkListener)
        ensures
            l@.endpoint == host@ + ":"@ + decimal(port as nat),
            l@.listening,
            !l@.connected,
    {
        let endpoint = join3(host, ":", number(port as u64).as_str());
        BulkListener { endpoint, listening: true, connected: false }
    }

    /// Where to tell the far end to connect. Valid before anything is listening.
    pub fn endpoint(&self) -> (t: String)
        ensures
            t@ == self@.endpoint,
    {
        self.endpoint.clone()
    }

    /// Takes the listening socket, which can be waited on once.
    pub fn accept(&mut self) -> (r: Result<(), FfiError>)
        ensures
            r is Ok <==> old(self)@.listening,
            r matches Err(e) ==> e@ == FfiErrorView::Effect(
                "this listener has already taken its transfer"@,
            ),
            final(self)@ == (ListenerView { listening: false, ..old(self)@ }),
    {
        let free = self.listening;
        self.listening = false;
        if free {
            Ok(())
        } else {
            Err(
                FfiError::Effect {
                    detail: "this listener has already taken its transfer".to_owned(),
                },
            )
        }
    }

    /// The far end has connected.
    pub fn let_in(&mut self)
        ensures
            final(self)@ == (ListenerView { connected: true, ..old(self)@ }),
    {
        self.connected = true;
    }

    /// Takes the connection, which can be read from once.
    pub fn receive(&mut self) -> (r: Result<(), FfiError>)
        ensures
            r is Ok <==> old(self)@.connected,
            r matches Err(e) ==> e@ == FfiErrorView::Effect(
                "nothing has connected to this listener"@,
            ),
            final(self)@ == (ListenerView { connected: false, ..old(self)@ }),
    {
        let here = self.connected;
        self.connected = false;
        if here {
            Ok(())
        } else {
            Err(FfiError::Effect { detail: "nothing has connected to this listener".to_owned() })
        }
    }
}

/// What is said of a connection that greets with another transfer's number.
pub open spec fn wrong_transfer(named: u64, transfer: u64) -> Seq<char> {
    "that connection is for transfer "@ + decimal(named as nat) + ", not "@ + decimal(
        transfer as nat,
    )
}

/// Whether a connection that greets with `named` is the one waited for.
pub fn greeted(named: u64, transfer: u64) -> (r: Result<(), String>)
    ensures
        r is Ok <==> named == transfer,
        r matches Err(e) ==> e@ == wrong_transfer(named, transfer),
{
    if named == transfer {
        return Ok(());
    }
    let start = join3("that connection is for transfer ", number(named).as_str(), ", not ");
    Err(join2(start.as_str(), number(transfer).as_str()))
}

/// What a file is called until all of it has arrived.
pub fn temp_name(file_name: &str) -> (t: String)
    ensures
        t@ == file_name@ + ".part"@,
{
    join2(file_name, ".part")
}

/// How far a transfer has got.
#[derive(Clone, Copy, PartialEq, Eq, Debug, Structural)]
pub struct Progress {
    /// Bytes of the file so far.
    pub bytes: u64,
    /// The number the next frame is sealed under.
    pub seq: u64,
}

impl Progress {
    /// Nothing yet.
    pub fn new() -> (p: Progress)
        ensures
            p == (Progress { bytes: 0, seq: 0 }),
    {
        Progress { bytes: 0, seq: 0 }
    }

    /// `n` bytes went out in one frame.
    pub fn sent(&mut self, n: usize)
        requires
            old(self).bytes + n <= u64::MAX,
        ensures
            final(self).bytes == old(self).bytes + n,
            final(self).seq == old(self).seq.wrapping_add(1),
    {
        self.bytes = self.bytes + n as u64;
        self.seq = self.seq.wrapping_add(1);
    }

    /// Whether a frame of `len` bytes may be read at all. Asked before anything
    /// is allocated: a length is the one field an attacker sets for free.
    pub fn frame(len: u32, max: u32) -> (r: Result<(), String>)
        ensures
            r is Ok <==> len <= max,
            r matches Err(e) ==> e@ == "frame of "@ + decimal(len as nat) + " bytes is too big"@,
    {
        if len > max {
            return Err(join3("frame of ", number(len as u64).as_str(), " bytes is too big"));
        }
        Ok(())
    }

    /// `n` more bytes came out of one frame, of `expect` in all.
    pub fn arrived(&mut self, n: usize, expect: u64) -> (r: Result<(), String>)
        ensures
            r is Ok <==> old(self).bytes + n <= expect,
            r is Ok ==> *final(self) == (Progress {
                bytes: (old(self).bytes + n) as u64,
                seq: old(self).seq.wrapping_add(1),
            }),
            r matches Err(e) ==> e@ == "more arrived than was offered"@ && *final(self) == *old(
                self,
            ),
    {
        if self.bytes > expect || n as u64 > expect - self.bytes {
            return Err("more arrived than was offered".to_owned());
        }
        self.bytes = self.bytes + n as u64;
        self.seq = self.seq.wrapping_add(1);
        Ok(())
    }

    /// The far end has nothing more to send. A file that is shorter than was
    /// offered is a failed transfer.
    pub fn finished(&self, expect: u64) -> (r: Result<u64, String>)
        ensures
            r is Ok <==> self.bytes == expect,
            r matches Ok(n) ==> n == expect,
            r matches Err(e) ==> e@ == decimal(self.bytes as nat) + " bytes of "@ + decimal(
                expect as nat,
            ) + " arrived"@,
    {
        if self.bytes == expect {
            return Ok(expect);
        }
        let start = join3(number(self.bytes).as_str(), " bytes of ", number(expect).as_str());
        Err(join2(start.as_str(), " arrived"))
    }
}

/// A listener takes one transfer: it can be waited on once, and read from once somebody
/// has connected, and only once for each.
pub proof fn a_listener_takes_one_transfer(
    l: &mut BulkListener,
    first: Result<(), FfiError>,
    m: &mut BulkListener,
    second: Result<(), FfiError>,
    n: &mut BulkListener,
    nothing: (),
    o: &mut BulkListener,
    read: Result<(), FfiError>,
    p: &mut BulkListener,
    again: Result<(), FfiError>,
)
    requires
        call_ensures(BulkListener::accept, (l,), first),
        call_ensures(BulkListener::accept, (m,), second),
        old(m)@ == final(l)@,
        call_ensures(BulkListener::let_in, (n,), nothing),
        call_ensures(BulkListener::receive, (o,), read),
        old(o)@ == final(n)@,
        call_ensures(BulkListener::receive, (p,), again),
        old(p)@ == final(o)@,
    ensures
        first is Ok <==> old(l)@.listening,
        second is Err,
        read is Ok,
        again is Err,
        final(l)@.endpoint == old(l)@.endpoint,
        final(n)@.endpoint == old(n)@.endpoint,
{
}

/// What a far end is told to dial is the host and the port that was bound; nobody has
/// waited there yet, and nobody is in. A file that is still arriving is called otherwise
/// than it will be.
pub proof fn a_listener_is_where_it_was_bound(
    host: &str,
    port: u16,
    l: BulkListener,
    t: String,
    name: &str,
    temp: String,
)
    requires
        call_ensures(BulkListener::bind, (host, port), l),
        call_ensures(BulkListener::endpoint, (&l,), t),
        call_ensures(temp_name, (name,), temp),
    ensures
        t@ == host@ + seq![':'] + decimal(port as nat),
        l@.listening,
        !l@.connected,
        temp@ != name@,
        temp@.take(name@.len() as int) == name@,
{
    reveal_strlit(":");
    assert(":"@ =~= seq![':']);
    reveal_strlit(".part");
    assert(temp@.len() == name@.len() + 5);
    assert(temp@.take(name@.len() as int) =~= name@);
}

/// Only the connection that names the transfer waited for is let in.
pub proof fn only_the_right_connection_is_let_in(named: u64, transfer: u64, r: Result<(), String>)
    requires
        call_ensures(greeted, (named, transfer), r),
    ensures
        r is Ok <==> named == transfer,
{
}

/// A file has arrived when as much has come as was offered: no more is taken in, and less
/// is no file. What came adds up, and each frame has the number after the last.
pub proof fn a_file_is_as_long_as_was_offered(
    p: &mut Progress,
    n: usize,
    expect: u64,
    r: Result<(), String>,
    q: Progress,
    done: Result<u64, String>,
    len: u32,
    max: u32,
    fits: Result<(), String>,
)
    requires
        call_ensures(Progress::arrived, (p, n, expect), r),
        q == *final(p),
        call_ensures(Progress::finished, (&q, expect), done),
        call_ensures(Progress::frame, (len, max), fits),
    ensures
        r is Ok <==> old(p).bytes + n <= expect,
        r is Ok ==> q.bytes == old(p).bytes + n,
        r is Ok && old(p).seq < u64::MAX ==> q.seq == old(p).seq + 1,
        r is Err ==> q == *old(p),
        done is Ok <==> q.bytes == expect,
        done matches Ok(m) ==> m == expect,
        fits is Ok <==> len <= max,
{
}

/// What is sent adds up from nothing, and each frame has the number after the last.
pub proof fn what_is_sent_adds_up(start: Progress, p: &mut Progress, n: usize, nothing: ())
    requires
        call_ensures(Progress::new, (), start),
        call_ensures(Progress::sent, (p, n), nothing),
    ensures
        start.bytes == 0,
        start.seq == 0,
        final(p).bytes == old(p).bytes + n,
        old(p).seq < u64::MAX ==> final(p).seq == old(p).seq + 1,
{
}

/// A connection that is turned away is told which transfer it came for, and which one is
/// waited for, in that order.
pub proof fn both_transfers_are_named(named: u64, transfer: u64, r: Result<(), String>)
    requires
        call_ensures(greeted, (named, transfer), r),
        named != transfer,
    ensures
        r matches Err(e) && e@ == "that connection is for transfer "@ + decimal(named as nat)
            + ", not "@ + decimal(transfer as nat),
{
}

/// A file is written beside its place, under its name and an ending of its own; a frame that
/// is too long is told by its length, and a file that ends early by how much of it came.
pub proof fn what_goes_wrong_with_a_file_is_said(
    name: &str,
    beside: String,
    len: u32,
    max: u32,
    f: Result<(), String>,
    p: Progress,
    expect: u64,
    ended: Result<u64, String>,
)
    requires
        call_ensures(temp_name, (name,), beside),
        call_ensures(Progress::frame, (len, max), f),
        call_ensures(Progress::finished, (&p, expect), ended),
    ensures
        beside@ == name@ + ".part"@,
        len > max ==> (f matches Err(e) && e@ == "frame of "@ + decimal(len as nat)
            + " bytes is too big"@),
        p.bytes != expect ==> (ended matches Err(e) && e@ == decimal(p.bytes as nat)
            + " bytes of "@ + decimal(expect as nat) + " arrived"@),
{
}

} // verus!
