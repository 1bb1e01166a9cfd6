//! The Bluetooth LE transport: BlueZ advertises and serves GATT, the phone
//! connects.
//!
//! The desktop must be the peripheral: iOS hides an app's local name and
//! service UUIDs while backgrounded, so this end is found, never finding.
//! Characteristics use plain flags, never `encrypt-*` (Noise secures the
//! link); notifying sets a value, which bluetoothd broadcasts to every
//! subscriber, so only one central may hold the link at a time.
use crate::link::{LinkAttrs, LinkDownReason, LinkId, ReasonView, TransportId};
use crate::linux::usb::link_number;
use crate::plugin::after;
use crate::text::{copy_bytes, holds, same, texts};
use crate::vocab::{DialToken, Event};
use vstd::prelude::*;
use vstd::string::StringExecFns;
use vstd::utf8::encode_utf8;

verus! {

pub const APP_PATH: &'static str = "/org/acrylius/gatt";

/// Outside [`APP_PATH`]: the app's object manager must manage only the service's
/// objects.
pub const ADV_PATH: &'static str = "/org/acrylius/adv0";

pub const SERVICE_PATH: &'static str = "/org/acrylius/gatt/service0";

pub const IDENTITY_PATH: &'static str = "/org/acrylius/gatt/service0/char0";

pub const RX_PATH: &'static str = "/org/acrylius/gatt/service0/char1";

pub const TX_PATH: &'static str = "/org/acrylius/gatt/service0/char2";

pub const ADAPTER: &'static str = "/org/bluez/hci0";

/// ATT default; only used before the phone's first write reports the real MTU.
pub const FALLBACK_MTU: u16 = 23;

/// Also the time a phone spends unable to see the desktop after a force-quit,
/// so it must read as "a moment" rather than "broken".
pub const SUPERVISE_EVERY_MS: u64 = 5_000;

/// Slightly under [`SUPERVISE_EVERY_MS`] so a genuine retry on the next tick is
/// never swallowed, while a burst of departure signals collapses to one.
pub const ADVERT_COOLDOWN_MS: u64 = 4_000;

/// A retry on the next tick of the supervisor is never swallowed.
pub proof fn the_cooldown_ends_before_the_next_tick()
    ensures
        ADVERT_COOLDOWN_MS < SUPERVISE_EVERY_MS,
{
}

/// What a central may do with a characteristic. Nothing here asks for
/// encryption: that would raise a pairing dialog on iOS, and Noise is the
/// security boundary.
#[derive(Clone, Copy, PartialEq, Eq, Debug, Structural)]
pub enum Characteristic {
    /// Read only: the same facts as a TXT record, which do not fit in an
    /// advertisement.
    Identity,
    /// Written without response: an acknowledged write costs a round trip per
    /// fragment, and the link layer already retransmits.
    Rx,
    /// Notified.
    Tx,
}

impl Characteristic {
    /// Where it stands in the tree.
    pub fn path(self) -> (p: &'static str)
        ensures
            p@ == (match self {
                Characteristic::Identity => IDENTITY_PATH@,
                Characteristic::Rx => RX_PATH@,
                Characteristic::Tx => TX_PATH@,
            }),
    {
        match self {
            Characteristic::Identity => IDENTITY_PATH,
            Characteristic::Rx => RX_PATH,
            Characteristic::Tx => TX_PATH,
        }
    }

    /// What may be done with it.
    pub fn flag(self) -> (p: &'static str)
        ensures
            p@ == (match self {
                Characteristic::Identity => "read"@,
                Characteristic::Rx => "write-without-response"@,
                Characteristic::Tx => "notify"@,
            }),
    {
        match self {
            Characteristic::Identity => "read",
            Characteristic::Rx => "write-without-response",
            Characteristic::Tx => "notify",
        }
    }
}

/// Zero disables the timeout; left unset it inherits the adapter's default,
/// after which iOS stops seeing the advertisement.
pub const DISCOVERABLE_TIMEOUT: u16 = 0;

/// Without this bluetoothd emits no flags at all, and the advertisement inherits
/// adapter discoverability, which is normally off.
pub const DISCOVERABLE: bool = true;

/// One fact as it is written.
pub open spec fn fact(p: (Seq<char>, Seq<char>)) -> Seq<char> {
    p.0 + "="@ + p.1
}

/// The facts, one per line.
pub open spec fn facts(txt: Seq<(Seq<char>, Seq<char>)>) -> Seq<char>
    decreases txt.len(),
{
    if txt.len() == 0 {
        Seq::empty()
    } else if txt.len() == 1 {
        fact(txt[0])
    } else {
        facts(txt.drop_last()) + "\n"@ + fact(txt.last())
    }
}

/// The characters of each pair of a list.
pub open spec fn pairs(txt: Seq<(String, String)>) -> Seq<(Seq<char>, Seq<char>)> {
    txt.map_values(|p: (String, String)| (p.0@, p.1@))
}

/// `k=v` per line, matching the TXT record.
pub fn encode_identity(txt: &Vec<(String, String)>) -> (r: Vec<u8>)
    ensures
        r@ == encode_utf8(facts(pairs(txt@))),
{
    let mut out = String::new();
    let ghost all = pairs(txt@);
    proof {
        assert(all.take(0) =~= Seq::empty());
        assert(out@ =~= facts(all.take(0)));
    }
    for i in 0..txt.len()
        invariant
            all == pairs(txt@),
            out@ == facts(all.take(i as int)),
    {
        proof {
            assert(all.take(i + 1).drop_last() =~= all.take(i as int));
            assert(all.take(i + 1).last() == (txt@[i as int].0@, txt@[i as int].1@));
        }
        if i > 0 {
            out.append("\n");
        }
        out.append(txt[i].0.as_str());
        out.append("=");
        out.append(txt[i].1.as_str());
        assert(out@ =~= facts(all.take(i + 1)));
    }
    assert(all.take(all.len() as int) =~= all);
    copy_bytes(out.as_str().as_bytes())
}

/// What is done about what bluetoothd answered.
#[derive(Clone, Copy, PartialEq, Eq, Debug, Structural)]
pub enum Reconcile {
    /// A central is connected (off the air is then correct), or nothing to fix.
    Nothing,
    /// Retire any link the departed central held, and readvertise.
    CentralGone,
    /// Nothing on the air though we asked to be.
    Readvertise,
}

/// What is done about what bluetoothd answered.
pub open spec fn reconciled(
    central: Option<bool>,
    want_advertising: bool,
    instances: u8,
) -> Reconcile {
    match central {
        Some(true) => Reconcile::Nothing,
        Some(false) => Reconcile::CentralGone,
        None => if want_advertising && instances == 0 {
            Reconcile::Readvertise
        } else {
            Reconcile::Nothing
        },
    }
}

/// `central`: whether the last central heard from is still connected; `None`
/// when none has been heard from since this was last settled.
pub fn reconcile(central: Option<bool>, want_advertising: bool, instances: u8) -> (r: Reconcile)
    ensures
        r == reconciled(central, want_advertising, instances),
{
    match central {
        Some(true) => Reconcile::Nothing,
        Some(false) => Reconcile::CentralGone,
        None => if want_advertising && instances == 0 {
            Reconcile::Readvertise
        } else {
            Reconcile::Nothing
        },
    }
}

/// A working link is never disturbed to fix a problem it does not have, and
/// nothing is put on the air that nobody asked for.
pub proof fn recovery_is_careful(want_advertising: bool, instances: u8)
    ensures
        reconciled(Some(true), want_advertising, instances) == Reconcile::Nothing,
        reconciled(None, false, instances) == Reconcile::Nothing,
        instances > 0 ==> reconciled(None, want_advertising, instances) == Reconcile::Nothing,
{
}

/// Whether an adapter can serve: it is on, and it can be a peripheral. Having no
/// Bluetooth is normal.
pub fn usable(powered: bool, roles: &Vec<String>) -> (r: bool)
    ensures
        r == (powered && texts(roles@).contains("peripheral"@)),
{
    powered && holds(roles, "peripheral")
}

/// How many bytes of a message fit in one notification: the negotiated MTU less
/// the three bytes of its header.
pub fn payload(mtu: u16) -> (n: usize)
    ensures
        n == (if mtu < 5 {
            2
        } else {
            mtu - 3
        }),
{
    if mtu < 5 {
        2
    } else {
        mtu as usize - 3
    }
}

/// One connected central.
struct Held {
    link: LinkId,
    /// bluetoothd's object path for the phone: a rotating private address, a
    /// routing handle rather than an identity.
    device: String,
    mtu: u16,
}

/// The model of a connected central.
pub struct HeldView {
    pub link: u64,
    pub device: Seq<char>,
    pub mtu: u16,
}

/// What this end of the transport believes.
pub struct BleTransport {
    id: TransportId,
    /// What the desktop calls itself. Truncated by bluetoothd if it does not fit;
    /// who it is comes from the identity characteristic, not from the name.
    name: String,
    next_link: u64,
    /// At most one, since notifications cannot be aimed.
    link: Option<Held>,
    /// What the identity characteristic answers.
    identity: Vec<u8>,
    /// Whether we want to be on the air, as opposed to whether we are.
    advertising: bool,
    /// The last central bluetoothd named, even one that never held a link:
    /// its connection alone took the advertisement off air.
    last_central: Option<String>,
    /// When the advertisement was last put back; bursts of departure signals
    /// collapse into one attempt.
    last_advert_ms: Option<u64>,
}

/// The model of a [`BleTransport`].
pub struct RadioView {
    pub id: u16,
    pub name: Seq<char>,
    pub next_link: u64,
    pub link: Option<HeldView>,
    pub identity: Seq<u8>,
    pub advertising: bool,
    pub last_central: Option<Seq<char>>,
    pub last_advert_ms: Option<u64>,
}

impl View for BleTransport {
    type V = RadioView;

    closed spec fn view(&self) -> RadioView {
        RadioView {
            id: self.id.0,
            name: self.name@,
            next_link: self.next_link,
            link: match self.link {
                Some(l) => Some(HeldView { link: l.link.0, device: l.device@, mtu: l.mtu }),
                None => None,
            },
            identity: self.identity@,
            advertising: self.advertising,
            last_central: match self.last_central {
                Some(c) => Some(c@),
                None => None,
            },
            last_advert_ms: self.last_advert_ms,
        }
    }
}

/// Whether an event says that a link went down.
pub open spec fn went_down(e: Event, link: u64, reason: ReasonView) -> bool {
    e matches Event::LinkDown { link: l, reason: r } && l.0 == link && r@ == reason
}

/// Whether an event says that a central's link came up.
pub open spec fn came_up(e: Event, link: u64, transport: u16) -> bool {
    e matches Event::LinkUp { link: l, attrs, dial } && l.0 == link && attrs == (LinkAttrs {
        transport: TransportId(transport),
        kind: crate::link::TransportKind::BleGatt,
        max_message: 0x4000,
        reliable: true,
        ordered: true,
        latency: crate::link::LatencyClass::Ble,
        bulk: crate::link::BulkSupport::Unsupported,
    }) && dial is None
}

impl RadioView {
    /// Whether a device holds the link.
    pub open spec fn is_held_by(self, device: Seq<char>) -> bool {
        self.link matches Some(l) && l.device == device
    }

    /// Whether a device is one this transport was talking to. The signals are of
    /// every device on the adapter, a headset pausing or a mouse sleeping.
    pub open spec fn is_ours(self, device: Seq<char>) -> bool {
        self.is_held_by(device) || self.last_central == Some(device)
    }

    /// Nobody holds the link.
    pub open spec fn freed(self) -> RadioView {
        RadioView { link: None, ..self }
    }

    /// Whether the advertisement may be put back: it is wanted, no central is
    /// connected (unregistering over a live one can take the connection down
    /// with it), and it was not tried a moment ago.
    pub open spec fn may_readvertise(self, now_ms: u64) -> bool {
        &&& self.advertising
        &&& self.link is None
        &&& (self.last_advert_ms matches Some(at) ==> now_ms >= at + ADVERT_COOLDOWN_MS)
    }

    /// The device whose connection says whether the central is still there: the
    /// link's, or else the last central heard from at all, which catches a phone
    /// force-quit before it ever wrote.
    pub open spec fn watching(self) -> Option<Seq<char>> {
        match self.link {
            Some(l) => Some(l.device),
            None => self.last_central,
        }
    }
}

/// What a write comes to.
#[derive(Debug)]
pub struct Written {
    /// What the core is to be told, in order.
    pub events: Vec<Event>,
    /// Whether the fragment is to be taken in, and with it whether it is the
    /// first of a new link.
    pub taken: Option<bool>,
}

/// The radio once a holder that is gone has been retired to make room for a
/// device.
pub open spec fn made_room(s: RadioView, device: Seq<char>, holder_connected: bool) -> RadioView {
    match s.link {
        Some(l) => if l.device != device && !holder_connected {
            s.freed()
        } else {
            s
        },
        None => s,
    }
}

/// The radio once a device has written. Another that still holds the link keeps
/// it; otherwise the device has one, its own or a new one.
pub open spec fn wrote(
    s: RadioView,
    device: Seq<char>,
    mtu: Option<u16>,
    holder_connected: bool,
) -> RadioView {
    let heard = RadioView { last_central: Some(device), ..made_room(s, device, holder_connected) };
    match heard.link {
        Some(l) => if l.device != device {
            heard
        } else {
            RadioView {
                link: Some(
                    HeldView {
                        mtu: match mtu {
                            Some(m) => m,
                            None => l.mtu,
                        },
                        ..l
                    },
                ),
                ..heard
            }
        },
        None => RadioView {
            next_link: after(heard.next_link),
            link: Some(
                HeldView {
                    link: link_number(heard.id, heard.next_link),
                    device,
                    mtu: match mtu {
                        Some(m) => m,
                        None => FALLBACK_MTU,
                    },
                },
            ),
            ..heard
        },
    }
}

impl BleTransport {
    pub fn new(id: TransportId, name: String) -> (p: BleTransport)
        ensures
            p@ == (RadioView {
                id: id.0,
                name: name@,
                next_link: 1,
                link: None,
                identity: Seq::empty(),
                advertising: false,
                last_central: None,
                last_advert_ms: None,
            }),
    {
        BleTransport {
            id,
            name,
            next_link: 1,
            link: None,
            identity: Vec::new(),
            advertising: false,
            last_central: None,
            last_advert_ms: None,
        }
    }

    pub fn id(&self) -> (id: TransportId)
        ensures
            id.0 == self@.id,
    {
        self.id
    }

    /// The name to advertise.
    pub fn name(&self) -> (n: &str)
        ensures
            n@ == self@.name,
    {
        self.name.as_str()
    }

    fn next_link(&mut self) -> (l: LinkId)
        ensures
            l.0 == link_number(old(self)@.id, old(self)@.next_link),
            final(self)@ == (RadioView { next_link: after(old(self)@.next_link), ..old(self)@ }),
    {
        let n: u64 = self.next_link;
        self.next_link = n.wrapping_add(1);
        LinkId::new(self.id, n)
    }

    fn held_by(&self, device: &str) -> (r: bool)
        ensures
            r == self@.is_held_by(device@),
    {
        match &self.link {
            Some(l) => same(l.device.as_str(), device),
            None => false,
        }
    }

    /// Whether a device is one this transport was talking to.
    pub fn is_ours(&self, device: &str) -> (r: bool)
        ensures
            r == self@.is_ours(device@),
    {
        if self.held_by(device) {
            return true;
        }
        match &self.last_central {
            Some(c) => same(c.as_str(), device),
            None => false,
        }
    }

    /// Retire the link if this device holds it. The core is told once.
    pub fn drop_link_for(&mut self, device: &str) -> (e: Option<Event>)
        ensures
            final(self)@ == (if old(self)@.is_held_by(device@) {
                old(self)@.freed()
            } else {
                old(self)@
            }),
            match e {
                Some(e) => old(self)@.is_held_by(device@) && went_down(
                    e,
                    old(self)@.link->Some_0.link,
                    ReasonView::Closed,
                ),
                None => !old(self)@.is_held_by(device@),
            },
    {
        if !self.held_by(device) {
            return None;
        }
        match self.link.take() {
            Some(l) => Some(Event::LinkDown { link: l.link, reason: LinkDownReason::Closed }),
            None => None,
        }
    }

    /// The device other than this one that holds the link, if one does: before
    /// this one is refused for it, it is worth asking whether that one is still
    /// connected. A phone returns under a fresh address, so a missed departure
    /// would wedge the transport.
    pub fn other_holder(&self, device: &str) -> (r: Option<String>)
        ensures
            match r {
                Some(h) => self@.link matches Some(l) && l.device != device@ && h@ == l.device,
                None => self@.link matches Some(l) ==> l.device == device@,
            },
    {
        match &self.link {
            Some(l) => if same(l.device.as_str(), device) {
                None
            } else {
                Some(l.device.clone())
            },
            None => None,
        }
    }

    /// A fragment from a device. The first write from an unknown device is where
    /// a link is born: the only callback that names the device.
    /// `holder_connected` says whether [`BleTransport::other_holder`] still is.
    pub fn write(&mut self, device: &str, mtu: Option<u16>, holder_connected: bool) -> (r: Written)
        ensures
            final(self)@ == wrote(old(self)@, device@, mtu, holder_connected),
            ({
                let s = old(self)@;
                let room = made_room(s, device@, holder_connected);
                let end = final(self)@;
                let down = s.link is Some && room.link is None;
                let up = room.link is None;
                &&& r.taken == (if up {
                    Some(true)
                } else if room.is_held_by(device@) {
                    Some(false)
                } else {
                    None
                })
                &&& r.events@.len() == (if down {
                    1int
                } else {
                    0
                }) + (if up {
                    1int
                } else {
                    0
                })
                &&& down ==> went_down(r.events@[0], s.link->Some_0.link, ReasonView::Closed)
                &&& up ==> came_up(r.events@.last(), end.link->Some_0.link, s.id)
            }),
    {
        let mut events: Vec<Event> = Vec::new();
        match self.other_holder(device) {
            Some(holder) => {
                if !holder_connected {
                    match self.drop_link_for(holder.as_str()) {
                        Some(e) => events.push(e),
                        None => {},
                    }
                }
            },
            None => {},
        }
        self.last_central = Some(device.to_owned());
        if self.link.is_none() {
            let link = self.next_link();
            self.link = Some(
                Held {
                    link,
                    device: device.to_owned(),
                    mtu: match mtu {
                        Some(m) => m,
                        None => FALLBACK_MTU,
                    },
                },
            );
            events.push(Event::LinkUp { link, attrs: LinkAttrs::ble(self.id), dial: None });
            return Written { events, taken: Some(true) };
        }
        if !self.held_by(device) {
            // Notifications cannot be aimed, so the link is not shared.
            return Written { events, taken: None };
        }
        match mtu {
            Some(m) => match self.link.take() {
                Some(l) => {
                    self.link = Some(Held { link: l.link, device: l.device, mtu: m });
                },
                None => {},
            },
            None => {},
        }
        Written { events, taken: Some(false) }
    }

    /// What a fragment that was taken in came to: nothing yet, a whole message,
    /// or one that is malformed. Carrying on after that would feed the core torn
    /// messages.
    pub fn reassembled(&mut self, pushed: Result<Option<Vec<u8>>, String>) -> (e: Option<Event>)
        ensures
            match old(self)@.link {
                None => e is None && final(self)@ == old(self)@,
                Some(l) => match pushed {
                    Ok(Some(msg)) => {
                        &&& final(self)@ == old(self)@
                        &&& (e matches Some(Event::LinkRecv { link, msg: m }) && link.0 == l.link
                            && m@ == msg@)
                    },
                    Ok(None) => e is None && final(self)@ == old(self)@,
                    Err(why) => {
                        &&& final(self)@ == old(self)@.freed()
                        &&& (e matches Some(d) && went_down(d, l.link, ReasonView::Transport(why@)))
                    },
                },
            },
    {
        let link = match &self.link {
            Some(l) => l.link,
            None => {
                return None;
            },
        };
        match pushed {
            Ok(Some(msg)) => Some(Event::LinkRecv { link, msg }),
            Ok(None) => None,
            Err(why) => {
                self.link = None;
                Some(Event::LinkDown { link, reason: LinkDownReason::Transport(why) })
            },
        }
    }

    /// A central subscribed. Nothing says which, but iOS subscribes once per
    /// connection, so anything still held belongs to a finished session.
    pub fn start_notify(&mut self) -> (e: Option<Event>)
        ensures
            final(self)@ == old(self)@.freed(),
            match e {
                Some(d) => old(self)@.link matches Some(l) && went_down(d, l.link, ReasonView::Closed),
                None => old(self)@.link is None,
            },
    {
        match self.link.take() {
            Some(l) => Some(Event::LinkDown { link: l.link, reason: LinkDownReason::Closed }),
            None => None,
        }
    }

    /// The identity is read, by a device that may be named.
    pub fn read_identity(&mut self, device: Option<&str>) -> (r: Vec<u8>)
        ensures
            r@ == old(self)@.identity,
            final(self)@ == (match device {
                Some(d) => RadioView { last_central: Some(d@), ..old(self)@ },
                None => old(self)@,
            }),
    {
        match device {
            Some(d) => {
                self.last_central = Some(d.to_owned());
            },
            None => {},
        }
        copy_bytes(&self.identity)
    }

    /// A property of a device changed: whether that is a central of ours leaving,
    /// and what the core is told of it.
    pub fn property_changed(
        &mut self,
        interface: &str,
        connected: Option<bool>,
        device: &str,
    ) -> (r: Option<
        Option<Event>,
    >)
        ensures
            ({
                let left = interface@ == "org.bluez.Device1"@ && connected == Some(false) && old(
                    self,
                )@.is_ours(device@);
                &&& r is Some <==> left
                &&& final(self)@ == (if left && old(self)@.is_held_by(device@) {
                    old(self)@.freed()
                } else {
                    old(self)@
                })
                &&& (r matches Some(Some(e)) ==> went_down(
                    e,
                    old(self)@.link->Some_0.link,
                    ReasonView::Closed,
                ))
                &&& (r matches Some(e) ==> (e is Some <==> old(self)@.is_held_by(device@)))
            }),
    {
        let gone = match connected {
            Some(c) => !c,
            None => false,
        };
        if !same(interface, "org.bluez.Device1") || !gone || !self.is_ours(device) {
            return None;
        }
        Some(self.drop_link_for(device))
    }

    /// bluetoothd forgot an object: whether that is a central of ours, and what
    /// the core is told of it.
    pub fn object_removed(
        &mut self,
        interfaces: &Vec<String>,
        device: &str,
    ) -> (r: Option<Option<Event>>)
        ensures
            ({
                let left = texts(interfaces@).contains("org.bluez.Device1"@) && old(self)@.is_ours(
                    device@,
                );
                &&& r is Some <==> left
                &&& final(self)@ == (if left && old(self)@.is_held_by(device@) {
                    old(self)@.freed()
                } else {
                    old(self)@
                })
                &&& (r matches Some(Some(e)) ==> went_down(
                    e,
                    old(self)@.link->Some_0.link,
                    ReasonView::Closed,
                ))
                &&& (r matches Some(e) ==> (e is Some <==> old(self)@.is_held_by(device@)))
            }),
    {
        if !holds(interfaces, "org.bluez.Device1") || !self.is_ours(device) {
            return None;
        }
        Some(self.drop_link_for(device))
    }

    /// Whether to put the advertisement back now. One attempt per cooldown:
    /// departures arrive in bursts, and bluetoothd refuses continuous
    /// re-registration.
    pub fn readvertise(&mut self, now_ms: u64) -> (r: bool)
        ensures
            r == old(self)@.may_readvertise(now_ms),
            final(self)@ == (if r {
                RadioView { last_advert_ms: Some(now_ms), ..old(self)@ }
            } else {
                old(self)@
            }),
    {
        if !self.advertising || self.link.is_some() {
            return false;
        }
        match self.last_advert_ms {
            Some(at) => {
                if now_ms < at || now_ms - at < ADVERT_COOLDOWN_MS {
                    return false;
                }
            },
            None => {},
        }
        self.last_advert_ms = Some(now_ms);
        true
    }

    /// The device whose connection the supervisor asks after.
    pub fn watching(&self) -> (r: Option<String>)
        ensures
            match r {
                Some(d) => self@.watching() == Some(d@),
                None => self@.watching() is None,
            },
    {
        match &self.link {
            Some(l) => Some(l.device.clone()),
            None => match &self.last_central {
                Some(c) => Some(c.clone()),
                None => None,
            },
        }
    }

    /// The device that holds the link, if one does.
    pub fn holder(&self) -> (r: Option<String>)
        ensures
            match r {
                Some(d) => self@.link matches Some(l) && l.device == d@,
                None => self@.link is None,
            },
    {
        match &self.link {
            Some(l) => Some(l.device.clone()),
            None => None,
        }
    }

    /// Reconcile what is believed with what bluetoothd reports: whether the
    /// device watched is connected, and how many advertisements are up. The
    /// signals are edge-triggered and lose edges in practice, so this backs them
    /// up. `held` is the device that held the link when bluetoothd was asked: the
    /// link is dropped only if that one holds it still. Returns what is to be done,
    /// and what the core is told.
    pub fn supervise(
        &mut self,
        held: Option<&str>,
        central: Option<bool>,
        instances: u8,
    ) -> (r: (Reconcile, Option<Event>))
        ensures
            r.0 == reconciled(central, old(self)@.advertising, instances),
            ({
                let drops = r.0 == Reconcile::CentralGone && (held matches Some(d) && old(
                    self,
                )@.is_held_by(d@));
                &&& final(self)@ == (if drops {
                    old(self)@.freed()
                } else {
                    old(self)@
                })
                &&& match r.1 {
                    Some(e) => drops && went_down(
                        e,
                        old(self)@.link->Some_0.link,
                        ReasonView::Closed,
                    ),
                    None => !drops,
                }
            }),
    {
        let decision = reconcile(central, self.advertising, instances);
        let e = match (decision, held) {
            (Reconcile::CentralGone, Some(device)) => self.drop_link_for(device),
            _ => None,
        };
        (decision, e)
    }

    /// The advertisement is back after a central went. Its name is forgotten only
    /// now, so a failed registration is tried again on the next tick.
    pub fn forget_central(&mut self)
        ensures
            final(self)@ == (RadioView { last_central: None, ..old(self)@ }),
    {
        self.last_central = None;
    }

    /// To be on the air or not, under these facts. Returns whether to register
    /// (`true`) or unregister (`false`), if anything changes. The wish is
    /// recorded before the attempt and kept on failure, so that it is retried.
    pub fn advertise(&mut self, enable: bool, txt: &Vec<(String, String)>) -> (r: Option<bool>)
        ensures
            final(self)@ == (RadioView {
                identity: encode_utf8(facts(pairs(txt@))),
                advertising: enable,
                ..old(self)@
            }),
            r == (if enable == old(self)@.advertising {
                None
            } else {
                Some(enable)
            }),
    {
        self.identity = encode_identity(txt);
        if enable == self.advertising {
            None
        } else {
            self.advertising = enable;
            Some(enable)
        }
    }

    /// A peripheral cannot dial out.
    pub fn dial(&self, dial: DialToken) -> (e: Event)
        ensures
            e matches Event::DialFailed { dial: d, reason } && d == dial && reason@
                == "this device is a BLE peripheral and cannot dial out"@,
    {
        Event::DialFailed {
            dial,
            reason: "this device is a BLE peripheral and cannot dial out".to_owned(),
        }
    }

    /// The MTU of a link to send on. Every transport is offered a message; the
    /// one that recognises the link acts.
    pub fn mtu_of(&self, link: LinkId) -> (r: Option<u16>)
        ensures
            r == (match self@.link {
                Some(l) => if l.link == link.0 {
                    Some(l.mtu)
                } else {
                    None
                },
                None => None,
            }),
    {
        match &self.link {
            Some(l) => if l.link.0 == link.0 {
                Some(l.mtu)
            } else {
                None
            },
            None => None,
        }
    }

    /// A link is over, if it is ours: it was closed, or a notification could not
    /// be sent.
    pub fn end(&mut self, link: LinkId, reason: LinkDownReason) -> (e: Option<Event>)
        ensures
            match old(self)@.link {
                Some(l) => if l.link == link.0 {
                    &&& final(self)@ == old(self)@.freed()
                    &&& (e matches Some(d) && went_down(d, link.0, reason@))
                } else {
                    e is None && final(self)@ == old(self)@
                },
                None => e is None && final(self)@ == old(self)@,
            },
    {
        if self.mtu_of(link).is_none() {
            return None;
        }
        self.link = None;
        Some(Event::LinkDown { link, reason })
    }
}

/// A device that never talked to us can do nothing by leaving.
pub proof fn an_unrelated_device_is_not_ours(s: RadioView, device: Seq<char>)
    requires
        s.last_central != Some(device),
        s.link matches Some(l) ==> l.device != device,
    ensures
        !s.is_ours(device),
{
}

/// A central keeps its link while it is connected: another's write does not take
/// it away.
pub proof fn a_connected_holder_keeps_the_link(s: RadioView, device: Seq<char>, mtu: Option<u16>)
    requires
        s.link matches Some(l) ==> l.device != device,
        s.link is Some,
    ensures
        wrote(s, device, mtu, true).link == s.link,
{
}

/// A central that is gone does not keep the next one out.
pub proof fn a_departed_holder_makes_room(s: RadioView, device: Seq<char>, mtu: Option<u16>)
    ensures
        wrote(s, device, mtu, false).is_held_by(device),
{
}

/// A transport with nobody on it, and a central that writes for the first time: a link
/// comes up for that central, on this transport, at the MTU it reports, and the fragment
/// is the first of it. A second write of the same central is another fragment of the
/// same link, and says nothing.
pub proof fn the_first_write_brings_up_a_link(
    b: &mut BleTransport,
    device: &str,
    mtu: Option<u16>,
    connected: bool,
    r: Written,
)
    requires
        call_ensures(BleTransport::write, (b, device, mtu, connected), r),
    ensures
        old(b)@.link is None ==> {
            &&& r.taken == Some(true)
            &&& r.events.len() == 1
            &&& final(b)@.link matches Some(l) && l.device == device@ && l.mtu == (match mtu {
                Some(m) => m,
                None => 23,
            }) && (r.events@[0] matches Event::LinkUp { link, attrs, dial } && link.0 == l.link
                && attrs.transport.0 == old(b)@.id && attrs.max_message == 16384 && attrs.reliable
                && attrs.ordered && attrs.bulk == crate::link::BulkSupport::Unsupported && dial
                is None)
        },
        old(b)@.is_held_by(device@) ==> {
            &&& r.taken == Some(false)
            &&& r.events.len() == 0
            &&& final(b)@.link matches Some(l) && l.link == old(b)@.link->Some_0.link && l.device
                == device@ && (mtu matches Some(m) ==> l.mtu == m) && (mtu is None ==> l.mtu
                == old(b)@.link->Some_0.mtu)
        },
        final(b)@.last_central == Some(device@),
        final(b)@.advertising == old(b)@.advertising,
{
}

/// While one central is connected another's write is not taken in, and nothing is said
/// of it; once it is gone its link is said to be down, and the other has one of its own.
pub proof fn a_second_central_waits_for_the_first_to_go(
    b: &mut BleTransport,
    device: &str,
    mtu: Option<u16>,
    connected: bool,
    r: Written,
)
    requires
        call_ensures(BleTransport::write, (b, device, mtu, connected), r),
        old(b)@.link is Some,
        !old(b)@.is_held_by(device@),
    ensures
        connected ==> r.taken is None && r.events.len() == 0 && final(b)@.link == old(b)@.link,
        !connected ==> {
            &&& r.taken == Some(true)
            &&& r.events.len() == 2
            &&& r.events@[0] matches Event::LinkDown { link, reason } && link.0
                == old(b)@.link->Some_0.link && reason@ == ReasonView::Closed
            &&& r.events@[1] matches Event::LinkUp { link, .. } && final(b)@.is_held_by(device@)
                && link.0 == final(b)@.link->Some_0.link
        },
{
}

/// A whole message is handed on as it is, on the link it came on; half of one is
/// nothing yet; and a torn one ends the link, with the reason.
pub proof fn only_whole_messages_are_handed_on(
    b: &mut BleTransport,
    pushed: Result<Option<Vec<u8>>, String>,
    e: Option<Event>,
)
    requires
        call_ensures(BleTransport::reassembled, (b, pushed), e),
        old(b)@.link is Some,
    ensures
        pushed matches Ok(Some(whole)) ==> final(b)@ == old(b)@ && (e matches Some(
            Event::LinkRecv { link, msg },
        ) && link.0 == old(b)@.link->Some_0.link && msg@ == whole@),
        pushed matches Ok(None) ==> e is None && final(b)@ == old(b)@,
        pushed matches Err(why) ==> final(b)@.link is None && (e matches Some(
            Event::LinkDown { link, reason },
        ) && link.0 == old(b)@.link->Some_0.link && reason@ == ReasonView::Transport(why@)),
{
}

/// However a link ends, the core is told once, of that link, and the transport is free:
/// by the central going, by a new one subscribing, by its being closed or failing.
pub proof fn a_link_ends_once(
    b: &mut BleTransport,
    device: &str,
    e: Option<Event>,
    c: &mut BleTransport,
    f: Option<Event>,
    d: &mut BleTransport,
    link: LinkId,
    reason: LinkDownReason,
    g: Option<Event>,
)
    requires
        call_ensures(BleTransport::drop_link_for, (b, device), e),
        call_ensures(BleTransport::start_notify, (c,), f),
        call_ensures(BleTransport::end, (d, link, reason), g),
    ensures
        old(b)@.is_held_by(device@) ==> final(b)@.link is None && (e matches Some(
            Event::LinkDown { link: l, reason: r },
        ) && l.0 == old(b)@.link->Some_0.link && r@ == ReasonView::Closed),
        !old(b)@.is_held_by(device@) ==> e is None && final(b)@ == old(b)@,
        final(c)@.link is None,
        old(c)@.link matches Some(l) ==> (f matches Some(Event::LinkDown { link: k, reason: r })
            && k.0 == l.link && r@ == ReasonView::Closed),
        old(c)@.link is None ==> f is None,
        (old(d)@.link matches Some(l) && l.link == link.0) ==> final(d)@.link is None && (
        g matches Some(Event::LinkDown { link: k, reason: r }) && k == link && r@ == reason@),
        !(old(d)@.link matches Some(l) && l.link == link.0) ==> g is None && final(d)@ == old(d)@,
{
}

/// Only a device of this transport's leaving is a departure: by its connection ending or
/// by its being forgotten. It takes its link with it if it held one.
pub proof fn only_ones_own_central_can_leave(
    b: &mut BleTransport,
    interface: &str,
    connected: Option<bool>,
    device: &str,
    r: Option<Option<Event>>,
    c: &mut BleTransport,
    interfaces: Vec<String>,
    q: Option<Option<Event>>,
)
    requires
        call_ensures(BleTransport::property_changed, (b, interface, connected, device), r),
        call_ensures(BleTransport::object_removed, (c, &interfaces, device), q),
    ensures
        r is Some <==> interface@ == "org.bluez.Device1"@ && connected == Some(false) && (
        old(b)@.is_held_by(device@) || old(b)@.last_central == Some(device@)),
        r is Some && old(b)@.is_held_by(device@) ==> final(b)@.link is None && r->Some_0 is Some,
        !(r is Some && old(b)@.is_held_by(device@)) ==> final(b)@ == old(b)@,
        q is Some <==> texts(interfaces@).contains("org.bluez.Device1"@) && (old(c)@.is_held_by(
            device@,
        ) || old(c)@.last_central == Some(device@)),
        q is Some && old(c)@.is_held_by(device@) ==> final(c)@.link is None && q->Some_0 is Some,
        !(q is Some && old(c)@.is_held_by(device@)) ==> final(c)@ == old(c)@,
{
}

/// The advertisement is put back only where it is wanted and nobody is connected, and
/// not twice within four seconds.
pub proof fn the_advertisement_is_put_back_once(
    b: &mut BleTransport,
    now: u64,
    r: bool,
    c: &mut BleTransport,
    later: u64,
    again: bool,
)
    requires
        call_ensures(BleTransport::readvertise, (b, now), r),
        call_ensures(BleTransport::readvertise, (c, later), again),
        old(c)@ == final(b)@,
    ensures
        r ==> old(b)@.advertising && old(b)@.link is None,
        r && later < now + 4_000 ==> !again,
        old(b)@.advertising && old(b)@.link is None && old(b)@.last_advert_ms is None ==> r,
        old(b)@.advertising && old(b)@.link is None && (old(b)@.last_advert_ms matches Some(at)
            && now >= at + 4_000) ==> r,
        !r ==> final(b)@ == old(b)@,
{
}

/// The supervisor asks after the device that holds the link, or else after the last one
/// heard from. Where that is gone, the link it held is dropped; where nothing is on the
/// air that should be, it is put back; otherwise nothing is done.
pub proof fn the_supervisor_mends_what_is_wrong(
    b: &mut BleTransport,
    held: Option<&str>,
    central: Option<bool>,
    instances: u8,
    r: (Reconcile, Option<Event>),
    watched: Option<String>,
)
    requires
        call_ensures(BleTransport::supervise, (b, held, central, instances), r),
        call_ensures(BleTransport::watching, (&*old(b),), watched),
    ensures
        old(b)@.link matches Some(l) ==> (watched matches Some(w) && w@ == l.device),
        old(b)@.link is None ==> (watched is Some <==> old(b)@.last_central is Some),
        r.0 == Reconcile::CentralGone <==> central == Some(false),
        r.0 == Reconcile::Readvertise <==> central is None && old(b)@.advertising && instances == 0,
        (central == Some(false) && held is Some && old(b)@.is_held_by(held->Some_0@)) ==> final(b)@.link is None && r.1 is Some,
        !(central == Some(false) && held is Some && old(b)@.is_held_by(held->Some_0@)) ==> final(b)@ == old(b)@ && r.1 is None,
{
}

/// A wish to be on the air is acted on when it changes, and what is said of this device
/// is what it was last given, whether or not it changes.
pub proof fn a_wish_to_be_seen_is_acted_on_once(
    b: &mut BleTransport,
    enable: bool,
    txt: Vec<(String, String)>,
    r: Option<bool>,
    c: &mut BleTransport,
    again: Option<bool>,
)
    requires
        call_ensures(BleTransport::advertise, (b, enable, &txt), r),
        call_ensures(BleTransport::advertise, (c, enable, &txt), again),
        old(c)@ == final(b)@,
    ensures
        r matches Some(on) ==> on == enable && old(b)@.advertising != enable,
        old(b)@.advertising != enable ==> r is Some,
        again is None,
        final(b)@.advertising == enable,
        final(b)@.identity == encode_utf8(facts(pairs(txt@))),
        final(b)@.link == old(b)@.link,
{
}

/// What a phone reads of this device is a line for each fact, its name and its value
/// with an equals sign between, in order.
pub proof fn each_fact_has_its_line(
    txt: Seq<(Seq<char>, Seq<char>)>,
    name: Seq<char>,
    value: Seq<char>,
)
    ensures
        facts(seq![(name, value)]) == name + seq!['='] + value,
        txt.len() > 0 ==> facts(txt.push((name, value))) == facts(txt) + seq!['\n'] + name + seq![
            '=',
        ] + value,
        facts(Seq::empty()).len() == 0,
{
    reveal_strlit("=");
    reveal_strlit("\n");
    let more = txt.push((name, value));
    assert(more.drop_last() =~= txt);
    assert("="@ =~= seq!['=']);
    assert("\n"@ =~= seq!['\n']);
    assert(facts(seq![(name, value)]) == fact((name, value)));
    if txt.len() > 0 {
        assert(facts(more) =~= facts(txt) + seq!['\n'] + name + seq!['='] + value);
    }
}

/// Each characteristic may be used in one way, and stands in a place of its own.
pub proof fn characteristics_are_told_apart(
    a: Characteristic,
    b: Characteristic,
    flag: &'static str,
    path: &'static str,
    other: &'static str,
)
    requires
        call_ensures(Characteristic::flag, (a,), flag),
        call_ensures(Characteristic::path, (a,), path),
        call_ensures(Characteristic::path, (b,), other),
    ensures
        a == Characteristic::Identity ==> flag@ == "read"@ && path@
            == "/org/acrylius/gatt/service0/char0"@,
        a == Characteristic::Rx ==> flag@ == "write-without-response"@ && path@
            == "/org/acrylius/gatt/service0/char1"@,
        a == Characteristic::Tx ==> flag@ == "notify"@ && path@
            == "/org/acrylius/gatt/service0/char2"@,
        a != b ==> path@ != other@,
{
    reveal_strlit("/org/acrylius/gatt/service0/char0");
    reveal_strlit("/org/acrylius/gatt/service0/char1");
    reveal_strlit("/org/acrylius/gatt/service0/char2");
    if a != b {
        assert(path@[32] != other@[32]);
    }
}

/// A fragment leaves room for the three bytes of its header, and is never too short to
/// carry anything; a message is sent at the MTU of the link it is for, and of no other.
pub proof fn a_fragment_fits(
    mtu: u16,
    n: usize,
    b: BleTransport,
    link: LinkId,
    m: Option<u16>,
    dial: DialToken,
    e: Event,
)
    requires
        call_ensures(payload, (mtu,), n),
        call_ensures(BleTransport::mtu_of, (&b, link), m),
        call_ensures(BleTransport::dial, (&b, dial), e),
    ensures
        n >= 2,
        mtu >= 5 ==> n + 3 == mtu,
        m matches Some(x) ==> (b@.link matches Some(l) && l.link == link.0 && l.mtu == x),
        m is None ==> (b@.link matches Some(l) ==> l.link != link.0),
        e matches Event::DialFailed { dial: d, .. } && d == dial,
{
}

/// Being read names the reader as the last central, where it can be named, and answers
/// with what this device last said of itself.
pub proof fn a_reader_is_remembered(
    b: &mut BleTransport,
    device: Option<&str>,
    r: Vec<u8>,
    c: &mut BleTransport,
    nothing: (),
)
    requires
        call_ensures(BleTransport::read_identity, (b, device), r),
        call_ensures(BleTransport::forget_central, (c,), nothing),
    ensures
        r@ == old(b)@.identity,
        device matches Some(d) ==> final(b)@.last_central == Some(d@),
        device is None ==> final(b)@.last_central == old(b)@.last_central,
        final(b)@.link == old(b)@.link,
        final(c)@.last_central is None,
        final(c)@.link == old(c)@.link,
{
}

/// A radio is of use where it is switched on and can be found by others.
pub proof fn a_radio_waits_to_be_found(powered: bool, roles: &Vec<String>, r: bool)
    requires
        call_ensures(usable, (powered, roles), r),
    ensures
        r <==> powered && exists|i: int|
            0 <= i < roles@.len() && #[trigger] roles@[i]@ == "peripheral"@,
{
    let t = texts(roles@);
    if t.contains("peripheral"@) {
        let i = choose|i: int| 0 <= i < t.len() && t[i] == "peripheral"@;
        assert(roles@[i]@ == "peripheral"@);
    }
    assert forall|i: int| 0 <= i < roles@.len() && #[trigger] roles@[i]@ == "peripheral"@ implies t.contains(
        "peripheral"@,
    ) by {
        assert(t[i] == "peripheral"@);
    }
}

} // verus!
