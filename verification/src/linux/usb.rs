//! The USB transport: `iproxy` forwards a local port into one the phone listens
//! on, so unlike TCP this desktop dials out.
use crate::cbor::be4;
use crate::link::{
    counters, BulkSupport, LatencyClass, LinkAttrs, LinkDownReason, LinkId, ReasonView, TransportId,
    TransportKind,
};
use crate::text::{decimal, join2, join3, number, same};
use vstd::prelude::*;
use vstd::string::StringExecFns;

verus! {

/// The port `iproxy` forwards, both sides of the tunnel.
pub const PORT: u16 = 1972;

/// The largest frame, the same as over TCP.
pub const MAX_FRAME: u32 = 0x10_0000;

/// Backoff between `iproxy` restarts and reconnect attempts, so a phone that
/// is unplugged does not spin a tight loop.
pub const RETRY_MS: u64 = 500;

/// How often a dial is tried before it is given up.
pub const ATTEMPTS: u32 = 20;

pub struct UsbTransport {
    id: TransportId,
    next_link: u64,
    /// The one outstanding link: USB never holds more than one at a time.
    live: Option<LinkId>,
    /// Set for as long as a dial is in flight or a link is live. A repeat dial
    /// while up would open a second tunnel and make the phone drop the first.
    busy: bool,
    /// The device `iproxy` runs for: only replaced when it changes, since a
    /// link dying is not evidence `iproxy` itself is bad.
    udid: Option<String>,
}

/// The model of a [`UsbTransport`].
pub struct UsbView {
    pub id: u16,
    pub next_link: u64,
    pub live: Option<u64>,
    pub busy: bool,
    pub udid: Option<Seq<char>>,
}

impl View for UsbTransport {
    type V = UsbView;

    closed spec fn view(&self) -> UsbView {
        UsbView {
            id: self.id.0,
            next_link: self.next_link,
            live: match self.live {
                Some(l) => Some(l.0),
                None => None,
            },
            busy: self.busy,
            udid: match self.udid {
                Some(u) => Some(u@),
                None => None,
            },
        }
    }
}

/// The number a transport gives its `n`th link.
pub open spec fn link_number(transport: u16, n: u64) -> u64 {
    (transport * counters() + n as int % counters()) as u64
}

impl UsbTransport {
    pub fn new(id: TransportId) -> (t: UsbTransport)
        ensures
            t@ == (UsbView { id: id.0, next_link: 1, live: None, busy: false, udid: None }),
    {
        UsbTransport { id, next_link: 1, live: None, busy: false, udid: None }
    }

    pub fn id(&self) -> (id: TransportId)
        ensures
            id.0 == self@.id,
    {
        self.id
    }

    fn next_link(&mut self) -> (l: LinkId)
        ensures
            l.0 == link_number(old(self)@.id, old(self)@.next_link),
            final(self)@ == (UsbView {
                next_link: crate::plugin::after(old(self)@.next_link),
                ..old(self)@
            }),
    {
        let n: u64 = self.next_link;
        self.next_link = n.wrapping_add(1);
        LinkId::new(self.id, n)
    }

    /// What a link over a cable can do.
    pub fn attrs(&self) -> (a: LinkAttrs)
        ensures
            a == (LinkAttrs {
                transport: TransportId(self@.id),
                kind: TransportKind::Custom("usb"),
                max_message: MAX_FRAME,
                reliable: true,
                ordered: true,
                latency: LatencyClass::Loopback,
                bulk: BulkSupport::Unsupported,
            }),
    {
        LinkAttrs {
            transport: self.id,
            kind: TransportKind::Custom("usb"),
            max_message: MAX_FRAME,
            reliable: true,
            ordered: true,
            latency: LatencyClass::Loopback,
            bulk: BulkSupport::Unsupported,
        }
    }

    /// A dial is asked for. Returns whether to start one.
    pub fn dial(&mut self) -> (start: bool)
        ensures
            start == !old(self)@.busy,
            final(self)@ == (UsbView { busy: true, ..old(self)@ }),
    {
        let start = !self.busy;
        self.busy = true;
        start
    }

    /// Whether `iproxy` has to be started for a device, in place of whichever
    /// one it runs for.
    pub fn needs_iproxy(&mut self, udid: &str) -> (start: bool)
        ensures
            start == (old(self)@.udid != Some(udid@)),
            final(self)@ == (UsbView { udid: Some(udid@), ..old(self)@ }),
    {
        let same_one = match &self.udid {
            Some(u) => same(u.as_str(), udid),
            None => false,
        };
        if !same_one {
            self.udid = Some(udid.to_owned());
        }
        !same_one
    }

    /// The tunnel is open: the link that runs over it.
    pub fn connected(&mut self) -> (l: LinkId)
        ensures
            l.0 == link_number(old(self)@.id, old(self)@.next_link),
            final(self)@ == (UsbView {
                next_link: crate::plugin::after(old(self)@.next_link),
                live: Some(l.0),
                ..old(self)@
            }),
    {
        let l = self.next_link();
        self.live = Some(l);
        l
    }

    /// The tunnel is closed, or was never reached: the next dial may start.
    pub fn ended(&mut self)
        ensures
            final(self)@ == (UsbView { live: None, busy: false, ..old(self)@ }),
    {
        self.live = None;
        self.busy = false;
    }

    /// Whether a message for a link is this transport's to send.
    pub fn carries(&self, link: LinkId) -> (r: bool)
        ensures
            r == (self@.live == Some(link.0)),
    {
        match self.live {
            Some(l) => l.0 == link.0,
            None => false,
        }
    }

    /// A link is to be closed. Returns whether it is this transport's.
    pub fn close(&mut self, link: LinkId) -> (r: bool)
        ensures
            r == (old(self)@.live == Some(link.0)),
            final(self)@ == (if r {
                UsbView { live: None, ..old(self)@ }
            } else {
                old(self)@
            }),
    {
        let r = self.carries(link);
        if r {
            self.live = None;
        }
        r
    }
}

/// Whether to try a dial again after so many attempts.
pub fn try_again(attempts: u32) -> (r: bool)
    ensures
        r == (attempts < ATTEMPTS),
{
    attempts < ATTEMPTS
}

/// What is said of a dial that was given up.
pub fn gave_up(last_error: &str) -> (r: String)
    ensures
        r@ == "could not reach iproxy: "@ + last_error@,
{
    join2("could not reach iproxy: ", last_error)
}

/// The argument that makes `iproxy` forward the port.
pub fn forward_arg() -> (r: String)
    ensures
        r@ == decimal(PORT as nat) + ":"@ + decimal(PORT as nat),
{
    let p = number(PORT as u64);
    join3(p.as_str(), ":", p.as_str())
}

/// The number in four bytes, most significant first.
pub open spec fn length_of(h: Seq<u8>) -> int {
    h[0] * 0x100_0000 + h[1] * 0x1_0000 + h[2] * 0x100 + h[3]
}

/// The length of the frame that a header announces, or what is said of one that
/// is too large.
pub fn frame_length(header: [u8; 4]) -> (r: Result<u32, String>)
    ensures
        match r {
            Ok(n) => n == length_of(header@) && n <= MAX_FRAME,
            Err(e) => length_of(header@) > MAX_FRAME && e@ == "frame of "@ + decimal(
                length_of(header@) as nat,
            ) + " bytes exceeds the "@ + decimal(MAX_FRAME as nat) + " cap"@,
        },
{
    let n: u32 = header[0] as u32 * 0x100_0000 + header[1] as u32 * 0x1_0000 + header[2] as u32 * 0x100
        + header[3] as u32;
    if n > MAX_FRAME {
        let mut e = join3("frame of ", number(n as u64).as_str(), " bytes exceeds the ");
        e.append(number(MAX_FRAME as u64).as_str());
        e.append(" cap");
        return Err(e);
    }
    Ok(n)
}

/// The header of a frame, where its length can be written in one.
pub fn frame_header(len: usize) -> (r: Option<[u8; 4]>)
    ensures
        r is Some <==> len <= u32::MAX,
        r matches Some(h) ==> h@ == be4(len as int),
{
    if len > u32::MAX as usize {
        return None;
    }
    let n: u32 = len as u32;
    let h: [u8; 4] = [
        (n / 0x100_0000) as u8,
        (n / 0x1_0000 % 0x100) as u8,
        (n / 0x100 % 0x100) as u8,
        (n % 0x100) as u8,
    ];
    proof {
        reveal(be4);
        assert(h@ =~= be4(n as int));
    }
    Some(h)
}

/// A length that was written is read back.
pub proof fn a_written_length_reads_back(n: int)
    requires
        0 <= n <= u32::MAX,
    ensures
        length_of(be4(n)) == n,
{
    crate::cbor::num4_of_be4(n);
    reveal(crate::cbor::num4);
}

/// How reading a link ended.
#[derive(PartialEq, Eq, Debug)]
pub enum ReadEnd {
    /// The far end closed, or there is nobody left to tell.
    Closed,
    /// Reading failed.
    Broken(String),
}

/// Why a link went down.
pub fn down_reason(end: ReadEnd) -> (r: LinkDownReason)
    ensures
        r@ == (match end {
            ReadEnd::Closed => ReasonView::Closed,
            ReadEnd::Broken(e) => ReasonView::Transport(e@),
        }),
{
    match end {
        ReadEnd::Closed => LinkDownReason::Closed,
        ReadEnd::Broken(e) => LinkDownReason::Transport(e),
    }
}

/// Every link of a transport has a number of its own that names the transport, for as
/// many links as there are counters.
pub proof fn links_are_numbered_apart(transport: u16, n: u64, m: u64)
    requires
        n < 0x1_0000_0000_0000,
        m < 0x1_0000_0000_0000,
    ensures
        link_number(transport, n) as int / 0x1_0000_0000_0000 == transport,
        n != m ==> link_number(transport, n) != link_number(transport, m),
{
    crate::link::link_id_names_its_transport(transport, n);
    crate::link::link_id_names_its_transport(transport, m);
}

/// A frame whose length was written in a header is read back at that length, up to the
/// cap of one mebibyte; a longer one is refused.
pub proof fn a_frame_is_as_long_as_its_header_says(
    len: usize,
    header: Option<[u8; 4]>,
    r: Result<u32, String>,
)
    requires
        call_ensures(frame_header, (len,), header),
        header is Some,
        call_ensures(frame_length, (header->Some_0,), r),
    ensures
        len <= 1_048_576 ==> r == Ok::<u32, String>(len as u32),
        len > 1_048_576 ==> r is Err,
{
    a_written_length_reads_back(len as int);
}

/// One tunnel at a time: while a dial is in flight or a link is up no other is started,
/// and once it has ended one may be.
pub proof fn one_tunnel_at_a_time(
    t: &mut UsbTransport,
    first: bool,
    u: &mut UsbTransport,
    second: bool,
    v: &mut UsbTransport,
    nothing: (),
    w: &mut UsbTransport,
    third: bool,
)
    requires
        call_ensures(UsbTransport::dial, (t,), first),
        call_ensures(UsbTransport::dial, (u,), second),
        old(u)@ == final(t)@,
        call_ensures(UsbTransport::ended, (v,), nothing),
        call_ensures(UsbTransport::dial, (w,), third),
        old(w)@ == final(v)@,
    ensures
        first <==> !old(t)@.busy,
        !second,
        third,
        final(v)@.live is None,
{
}

/// The link that a tunnel carries is the one that was just opened, until it is closed,
/// and no other is this transport's.
pub proof fn a_tunnel_carries_its_own_link(
    t: &mut UsbTransport,
    l: LinkId,
    u: UsbTransport,
    other: LinkId,
    carried: bool,
    v: &mut UsbTransport,
    closed: bool,
)
    requires
        call_ensures(UsbTransport::connected, (t,), l),
        u@ == final(t)@,
        call_ensures(UsbTransport::carries, (&u, other), carried),
        old(v)@ == final(t)@,
        call_ensures(UsbTransport::close, (v, other), closed),
    ensures
        carried <==> other == l,
        closed <==> other == l,
        closed ==> final(v)@.live is None,
        !closed ==> final(v)@.live == Some(l.0),
{
}

/// The forwarder is started for a device once, and again only for another.
pub proof fn the_forwarder_is_started_once_for_a_device(
    t: &mut UsbTransport,
    udid: &str,
    first: bool,
    u: &mut UsbTransport,
    again: bool,
)
    requires
        call_ensures(UsbTransport::needs_iproxy, (t, udid), first),
        call_ensures(UsbTransport::needs_iproxy, (u, udid), again),
        old(u)@ == final(t)@,
    ensures
        first <==> old(t)@.udid != Some(udid@),
        !again,
{
}

/// A cable carries whole messages of up to a mebibyte, in order and without loss, and no
/// files; a dial over it is tried twenty times; and why a link went down is what was
/// found.
pub proof fn what_a_cable_can_do(
    t: UsbTransport,
    a: LinkAttrs,
    attempts: u32,
    again: bool,
    end: ReadEnd,
    why: LinkDownReason,
)
    requires
        call_ensures(UsbTransport::attrs, (&t,), a),
        call_ensures(try_again, (attempts,), again),
        call_ensures(down_reason, (end,), why),
    ensures
        a.transport.0 == t@.id,
        a.max_message == 1_048_576,
        a.reliable,
        a.ordered,
        a.bulk == BulkSupport::Unsupported,
        a.latency == LatencyClass::Loopback,
        again <==> attempts < 20,
        end is Closed ==> why@ == ReasonView::Closed,
        end matches ReadEnd::Broken(e) ==> why@ == ReasonView::Transport(e@),
{
}

/// A frame that is over the cap is told by its length and the cap, and a phone that could
/// not be reached by what went wrong last.
pub proof fn what_goes_wrong_on_the_cable_is_said(
    header: [u8; 4],
    r: Result<u32, String>,
    last: &str,
    e: String,
)
    requires
        call_ensures(frame_length, (header,), r),
        call_ensures(gave_up, (last,), e),
    ensures
        r is Ok <==> length_of(header@) <= MAX_FRAME,
        r matches Err(why) ==> why@ == "frame of "@ + decimal(length_of(header@) as nat)
            + " bytes exceeds the "@ + decimal(MAX_FRAME as nat) + " cap"@,
        e@ == "could not reach iproxy: "@ + last@,
{
}

} // verus!
