//! A virtual multitouch touchpad. Gestures are libinput's job: this only has to
//! look like a touchpad and report where the fingers are.
use crate::vocab::{TouchPoint, TouchpadOp, TouchpadView};
use vstd::prelude::*;

verus! {

/// Both axes, matching the wire's normalised range, so nothing is rescaled.
pub const MAX_POS: i32 = 65535;

pub const SLOTS: usize = 10;

/// Event kinds and codes of the kernel's input interface.
pub const EV_SYN: u16 = 0;

pub const EV_KEY: u16 = 1;

pub const EV_ABS: u16 = 3;

pub const SYN_REPORT: u16 = 0;

pub const ABS_X: u16 = 0x00;

pub const ABS_Y: u16 = 0x01;

pub const ABS_MT_SLOT: u16 = 0x2f;

pub const ABS_MT_POSITION_X: u16 = 0x35;

pub const ABS_MT_POSITION_Y: u16 = 0x36;

pub const ABS_MT_TRACKING_ID: u16 = 0x39;

pub const BTN_TOUCH: u16 = 0x14a;

/// One evdev event, without the kernel's timestamp. Keeping the frame builder
/// on this rather than on the kernel's own struct is what makes it testable.
#[derive(Clone, Copy, PartialEq, Eq, Debug, Structural)]
pub struct Ev {
    pub kind: u16,
    pub code: u16,
    pub value: i32,
}

/// An event.
pub open spec fn ev(kind: u16, code: u16, value: i32) -> Ev {
    Ev { kind, code, value }
}

impl Ev {
    pub fn new(kind: u16, code: u16, value: i32) -> (e: Ev)
        ensures
            e == ev(kind, code, value),
    {
        Ev { kind, code, value }
    }
}

/// The tool keys, one for each count of fingers.
pub open spec fn tool_keys() -> Seq<u16> {
    seq![0x145u16, 0x14du16, 0x14eu16, 0x14fu16, 0x148u16]
}

/// Which kernel slot holds which phone-side finger, and the tracking ids handed
/// out so far.
#[derive(Debug)]
pub struct Slots {
    held: [Option<u8>; SLOTS],
    next_tracking: i32,
}

/// The model of [`Slots`].
pub struct SlotsView {
    pub held: Seq<Option<u8>>,
    pub next_tracking: i32,
}

impl View for Slots {
    type V = SlotsView;

    closed spec fn view(&self) -> SlotsView {
        SlotsView { held: self.held@, next_tracking: self.next_tracking }
    }
}

/// Whether a finger is among those that are down.
pub open spec fn is_down(points: Seq<TouchPoint>, id: u8) -> bool {
    exists|k: int| 0 <= k < points.len() && (#[trigger] points[k]).id == id
}

/// Whether the finger in a slot has gone.
pub open spec fn has_gone(held: Seq<Option<u8>>, points: Seq<TouchPoint>, slot: int) -> bool {
    held[slot] matches Some(id) && !is_down(points, id)
}

/// The slots once the fingers that have gone are lifted from the first `n`.
pub open spec fn lifted(held: Seq<Option<u8>>, points: Seq<TouchPoint>, n: int) -> Seq<Option<u8>> {
    Seq::new(
        held.len(),
        |s: int|
            if s < n && has_gone(held, points, s) {
                None
            } else {
                held[s]
            },
    )
}

/// The events that lift them.
pub open spec fn lift_events(held: Seq<Option<u8>>, points: Seq<TouchPoint>, n: int) -> Seq<Ev>
    decreases n,
{
    if n <= 0 {
        Seq::empty()
    } else {
        let before = lift_events(held, points, n - 1);
        if has_gone(held, points, n - 1) {
            before.push(ev(EV_ABS, ABS_MT_SLOT, (n - 1) as i32)).push(
                ev(EV_ABS, ABS_MT_TRACKING_ID, (-1) as i32),
            )
        } else {
            before
        }
    }
}

/// The lowest slot that holds `want`, from `at` on; the number of slots where
/// there is none.
pub open spec fn first_holding(held: Seq<Option<u8>>, want: Option<u8>, at: int) -> int
    decreases held.len() - at,
{
    if at >= held.len() {
        held.len() as int
    } else if held[at] == want {
        at
    } else {
        first_holding(held, want, at + 1)
    }
}

/// The lowest slot that holds a finger, from `at` on.
pub open spec fn first_taken(held: Seq<Option<u8>>, at: int) -> int
    decreases held.len() - at,
{
    if at >= held.len() {
        held.len() as int
    } else if held[at] is Some {
        at
    } else {
        first_taken(held, at + 1)
    }
}

/// The tracking id after `n`. Never zero or less: libinput tells a new contact
/// from a moved one by the id changing.
pub open spec fn tracking_after(n: i32) -> i32 {
    if n == i32::MAX || n < 0 {
        1
    } else {
        (n + 1) as i32
    }
}

/// Where a finger is.
pub open spec fn position_events(p: TouchPoint) -> Seq<Ev> {
    seq![
        ev(EV_ABS, ABS_MT_POSITION_X, p.x as i32),
        ev(EV_ABS, ABS_MT_POSITION_Y, p.y as i32),
    ]
}

impl SlotsView {
    /// The slots once a finger has its own: the one it had, or the lowest free
    /// one. One finger more than there are slots gets none.
    pub open spec fn with(self, p: TouchPoint) -> SlotsView {
        let own = first_holding(self.held, Some(p.id), 0);
        let free = first_holding(self.held, None, 0);
        if own < self.held.len() || free >= self.held.len() {
            self
        } else {
            SlotsView {
                held: self.held.update(free, Some(p.id)),
                next_tracking: tracking_after(self.next_tracking),
            }
        }
    }

    /// The events for a finger: its slot, a tracking id where it is new, and
    /// where it is.
    pub open spec fn touch_events(self, p: TouchPoint) -> Seq<Ev> {
        let own = first_holding(self.held, Some(p.id), 0);
        let free = first_holding(self.held, None, 0);
        if own < self.held.len() {
            seq![ev(EV_ABS, ABS_MT_SLOT, own as i32)] + position_events(p)
        } else if free < self.held.len() {
            seq![
                ev(EV_ABS, ABS_MT_SLOT, free as i32),
                ev(EV_ABS, ABS_MT_TRACKING_ID, self.next_tracking),
            ] + position_events(p)
        } else {
            Seq::empty()
        }
    }

    /// The slots once every finger of a list has been settled.
    pub open spec fn with_all(self, points: Seq<TouchPoint>) -> SlotsView
        decreases points.len(),
    {
        if points.len() == 0 {
            self
        } else {
            self.with_all(points.drop_last()).with(points.last())
        }
    }

    /// The events for all of them.
    pub open spec fn all_touch_events(self, points: Seq<TouchPoint>) -> Seq<Ev>
        decreases points.len(),
    {
        if points.len() == 0 {
            Seq::empty()
        } else {
            self.all_touch_events(points.drop_last()) + self.with_all(
                points.drop_last(),
            ).touch_events(points.last())
        }
    }

    /// The slots once a frame has been taken in. Fingers are lifted first, so
    /// that one that comes down in the same frame can have the slot.
    pub open spec fn after_frame(self, points: Seq<TouchPoint>) -> SlotsView {
        self.after_lifts(points).with_all(points)
    }

    /// The slots once a frame's missing fingers are lifted.
    pub open spec fn after_lifts(self, points: Seq<TouchPoint>) -> SlotsView {
        SlotsView { held: lifted(self.held, points, self.held.len() as int), ..self }
    }

    /// The events of one frame.
    pub open spec fn frame_events(self, points: Seq<TouchPoint>) -> Seq<Ev> {
        let end = self.after_frame(points);
        lift_events(self.held, points, self.held.len() as int) + self.after_lifts(
            points,
        ).all_touch_events(points) + single_touch_events(end.held, points) + key_events(
            taken(end.held),
        ) + seq![ev(EV_SYN, SYN_REPORT, 0)]
    }
}

/// The first finger of a list with an id, from `at` on.
pub open spec fn first_point(points: Seq<TouchPoint>, id: Option<u8>, at: int) -> Option<TouchPoint>
    decreases points.len() - at,
{
    if at >= points.len() {
        None
    } else if Some(points[at].id) == id {
        Some(points[at])
    } else {
        first_point(points, id, at + 1)
    }
}

/// The single-touch axes follow the lowest taken slot, which is what a
/// driverless reader and libinput's fallback path both expect.
pub open spec fn single_touch_events(held: Seq<Option<u8>>, points: Seq<TouchPoint>) -> Seq<Ev> {
    let first = first_taken(held, 0);
    if first < held.len() {
        match first_point(points, held[first], 0) {
            Some(p) => seq![ev(EV_ABS, ABS_X, p.x as i32), ev(EV_ABS, ABS_Y, p.y as i32)],
            None => Seq::empty(),
        }
    } else {
        Seq::empty()
    }
}

/// How many slots are taken.
pub open spec fn taken(held: Seq<Option<u8>>) -> nat
    decreases held.len(),
{
    if held.len() == 0 {
        0
    } else {
        taken(held.drop_last()) + if held.last() is Some {
            1nat
        } else {
            0nat
        }
    }
}

/// A yes or no as a key's value.
pub open spec fn pressed(b: bool) -> i32 {
    if b {
        1
    } else {
        0
    }
}

/// The value of the `n`th tool key. More fingers than tool keys saturates at the
/// highest one, rather than leaving every key up.
pub open spec fn tool_value(down: nat, n: int) -> i32 {
    let capped = if down > 5 {
        5
    } else {
        down as int
    };
    pressed(capped == n + 1)
}

/// The keys for a number of fingers: whether there is a touch at all, and one
/// tool key for how many.
pub open spec fn key_events(down: nat) -> Seq<Ev> {
    seq![ev(EV_KEY, BTN_TOUCH, pressed(down > 0))] + Seq::new(
        5,
        |n: int| ev(EV_KEY, tool_keys()[n], tool_value(down, n)),
    )
}

fn down_among(points: &[TouchPoint], id: u8) -> (r: bool)
    ensures
        r == is_down(points@, id),
{
    for i in 0..points.len()
        invariant
            forall|k: int| 0 <= k < i ==> (#[trigger] points@[k]).id != id,
    {
        if points[i].id == id {
            assert(points@[i as int].id == id);
            return true;
        }
    }
    false
}

fn position_of(held: &[Option<u8>; SLOTS], want: Option<u8>) -> (r: Option<usize>)
    ensures
        match r {
            Some(s) => s == first_holding(held@, want, 0) && s < held@.len(),
            None => first_holding(held@, want, 0) == held@.len(),
        },
{
    for i in 0..SLOTS
        invariant
            first_holding(held@, want, 0) == first_holding(held@, want, i as int),
    {
        if held[i] == want {
            return Some(i);
        }
    }
    None
}

impl Default for Slots {
    fn default() -> (s: Slots)
        ensures
            s@.held == Seq::new(SLOTS as nat, |k: int| None::<u8>),
            s@.next_tracking == 1,
    {
        let s = Slots {
            held: [None, None, None, None, None, None, None, None, None, None],
            next_tracking: 1,
        };
        assert(s@.held =~= Seq::new(SLOTS as nat, |k: int| None::<u8>));
        s
    }
}

impl Slots {
    /// The finger in each slot.
    pub fn held(&self) -> (h: [Option<u8>; SLOTS])
        ensures
            h@ == self@.held,
    {
        self.held
    }

    fn lift(&mut self, points: &[TouchPoint], out: &mut Vec<Ev>)
        ensures
            final(self)@ == old(self)@.after_lifts(points@),
            final(out)@ == old(out)@ + lift_events(old(self)@.held, points@, SLOTS as int),
    {
        let ghost start = self.held@;
        let ghost wrote = out@;
        let mut held = self.held;
        proof {
            assert(wrote + lift_events(start, points@, 0) =~= wrote);
            assert(lifted(start, points@, 0) =~= start);
        }
        for slot in 0..SLOTS
            invariant
                start.len() == SLOTS,
                held@ == lifted(start, points@, slot as int),
                out@ == wrote + lift_events(start, points@, slot as int),
        {
            let ghost was = out@;
            assert(held@[slot as int] == start[slot as int]);
            match held[slot] {
                Some(id) => {
                    if !down_among(points, id) {
                        out.push(Ev::new(EV_ABS, ABS_MT_SLOT, slot as i32));
                        out.push(Ev::new(EV_ABS, ABS_MT_TRACKING_ID, -1));
                        held[slot] = None;
                    }
                },
                None => {},
            }
            proof {
                assert(held@ =~= lifted(start, points@, slot + 1));
                assert(out@ =~= wrote + lift_events(start, points@, slot + 1));
            }
        }
        self.held = held;
    }

    fn settle(&mut self, p: TouchPoint, out: &mut Vec<Ev>)
        ensures
            final(self)@ == old(self)@.with(p),
            final(out)@ == old(out)@ + old(self)@.touch_events(p),
    {
        match position_of(&self.held, Some(p.id)) {
            Some(s) => {
                out.push(Ev::new(EV_ABS, ABS_MT_SLOT, s as i32));
            },
            None => match position_of(&self.held, None) {
                Some(s) => {
                    let mut held = self.held;
                    held[s] = Some(p.id);
                    self.held = held;
                    out.push(Ev::new(EV_ABS, ABS_MT_SLOT, s as i32));
                    out.push(Ev::new(EV_ABS, ABS_MT_TRACKING_ID, self.next_tracking));
                    let n: i32 = self.next_tracking;
                    self.next_tracking = if n == i32::MAX || n < 0 {
                        1
                    } else {
                        n + 1
                    };
                },
                // More fingers than slots. The plugin refuses these, so reaching
                // here means the device shrank, not a bad peer.
                None => {
                    assert(out@ =~= old(out)@ + old(self)@.touch_events(p));
                    return;
                },
            },
        }
        out.push(Ev::new(EV_ABS, ABS_MT_POSITION_X, p.x as i32));
        out.push(Ev::new(EV_ABS, ABS_MT_POSITION_Y, p.y as i32));
        assert(out@ =~= old(out)@ + old(self)@.touch_events(p));
    }

    fn settle_all(&mut self, points: &[TouchPoint], out: &mut Vec<Ev>)
        ensures
            final(self)@ == old(self)@.with_all(points@),
            final(out)@ == old(out)@ + old(self)@.all_touch_events(points@),
    {
        let ghost start = self@;
        let ghost wrote = out@;
        proof {
            assert(points@.take(0) =~= Seq::<TouchPoint>::empty());
            assert(wrote + start.all_touch_events(points@.take(0)) =~= wrote);
        }
        for i in 0..points.len()
            invariant
                self@ == start.with_all(points@.take(i as int)),
                out@ == wrote + start.all_touch_events(points@.take(i as int)),
        {
            let ghost was = out@;
            let ghost here = self@;
            self.settle(points[i], out);
            proof {
                let next = points@.take(i + 1);
                assert(next.drop_last() =~= points@.take(i as int));
                assert(next.last() == points@[i as int]);
                assert(out@ =~= wrote + start.all_touch_events(next));
            }
        }
        assert(points@.take(points@.len() as int) =~= points@);
    }

    fn count(&self) -> (n: usize)
        ensures
            n == taken(self@.held),
            n <= SLOTS,
    {
        let mut n: usize = 0;
        let ghost all = self.held@;
        assert(all.take(0) =~= Seq::<Option<u8>>::empty());
        for i in 0..SLOTS
            invariant
                all == self.held@,
                n == taken(all.take(i as int)),
                n <= i,
        {
            proof {
                assert(all.take(i + 1).drop_last() =~= all.take(i as int));
            }
            if self.held[i].is_some() {
                n = n + 1;
            }
        }
        assert(all.take(SLOTS as int) =~= all);
        n
    }

    fn single_touch(&self, points: &[TouchPoint], out: &mut Vec<Ev>)
        ensures
            final(out)@ == old(out)@ + single_touch_events(self@.held, points@),
    {
        let ghost all = self.held@;
        let ghost wrote = out@;
        for first in 0..SLOTS
            invariant
                all == self.held@,
                wrote == old(out)@,
                out@ == wrote,
                first_taken(all, 0) == first_taken(all, first as int),
        {
            if self.held[first].is_some() {
                for k in 0..points.len()
                    invariant
                        first < SLOTS,
                        all == self.held@,
                        wrote == old(out)@,
                        out@ == wrote,
                        first_taken(all, 0) == first,
                        first_point(points@, all[first as int], 0) == first_point(
                            points@,
                            all[first as int],
                            k as int,
                        ),
                {
                    if Some(points[k].id) == self.held[first] {
                        let p: TouchPoint = points[k];
                        out.push(Ev::new(EV_ABS, ABS_X, p.x as i32));
                        out.push(Ev::new(EV_ABS, ABS_Y, p.y as i32));
                        assert(out@ =~= wrote + single_touch_events(all, points@));
                        return;
                    }
                }
                assert(out@ =~= wrote + single_touch_events(all, points@));
                return;
            }
        }
        assert(out@ =~= wrote + single_touch_events(all, points@));
    }

    /// Reconcile against the complete set of fingers now down, returning the
    /// events for one evdev frame, the report included.
    pub fn frame(&mut self, points: &[TouchPoint]) -> (r: Vec<Ev>)
        ensures
            final(self)@ == old(self)@.after_frame(points@),
            r@ == old(self)@.frame_events(points@),
    {
        let mut out: Vec<Ev> = Vec::new();
        // Lift first, so a finger that goes up in the same frame another comes
        // down frees its slot before the new one looks for a free one.
        self.lift(points, &mut out);
        self.settle_all(points, &mut out);
        let down: usize = self.count();
        self.single_touch(points, &mut out);
        let ghost wrote = out@;
        out.push(Ev::new(EV_KEY, BTN_TOUCH, if down > 0 { 1 } else { 0 }));
        let capped: usize = if down > 5 { 5 } else { down };
        let keys: [u16; 5] = [0x145, 0x14d, 0x14e, 0x14f, 0x148];
        for n in 0..5
            invariant
                down == taken(self@.held),
                capped == (if down > 5 { 5 } else { down }),
                keys@ == tool_keys(),
                out@ =~= wrote + key_events(down as nat).take(n + 1),
        {
            out.push(Ev::new(EV_KEY, keys[n], if capped == n + 1 { 1 } else { 0 }));
            assert(key_events(down as nat).take(n + 2) =~= key_events(down as nat).take(
                n + 1,
            ).push(ev(EV_KEY, tool_keys()[n as int], tool_value(down as nat, n as int))));
        }
        assert(key_events(down as nat).take(6) =~= key_events(down as nat));
        // Exactly one per frame: a report per slot would read as N separate
        // one-finger updates and no gesture would ever be recognised.
        out.push(Ev::new(EV_SYN, SYN_REPORT, 0));
        assert(out@ =~= old(self)@.frame_events(points@));
        out
    }

    /// Events lifting every finger, for a stream that ended or a link that died.
    pub fn release_all(&mut self) -> (r: Vec<Ev>)
        ensures
            final(self)@ == old(self)@.after_frame(Seq::empty()),
            r@ == old(self)@.frame_events(Seq::empty()),
    {
        let none: Vec<TouchPoint> = Vec::new();
        assert(none@ =~= Seq::<TouchPoint>::empty());
        self.frame(none.as_slice())
    }
}

/// Units per millimetre over a surface this many millimetres wide. It is the
/// only place the surface's real size enters, and libinput measures scroll and
/// pinch thresholds in millimetres.
pub fn resolution(mm: u16) -> (r: i32)
    ensures
        r == MAX_POS as int / (if mm == 0 {
            1
        } else {
            mm as int
        }),
{
    let mm: i32 = if mm == 0 { 1 } else { mm as i32 };
    MAX_POS / mm
}

/// Whether an op stamped `order` beats the highest order applied so far.
pub fn should_apply(last_applied: u32, order: u32) -> (r: bool)
    ensures
        r == (order > last_applied),
{
    order > last_applied
}

/// What is to be done to the device.
#[derive(PartialEq, Eq, Debug)]
pub enum PadAction {
    Nothing,
    /// Make a device of this size; [`Pad::created`] once it is there.
    Create { w_mm: u16, h_mm: u16 },
    /// Write these events to the device.
    Write(Vec<Ev>),
    /// Write these events, and take the device away.
    Remove(Vec<Ev>),
}

/// The model of a [`PadAction`].
pub enum PadActionView {
    Nothing,
    Create { w_mm: u16, h_mm: u16 },
    Write(Seq<Ev>),
    Remove(Seq<Ev>),
}

impl View for PadAction {
    type V = PadActionView;

    open spec fn view(&self) -> PadActionView {
        match self {
            PadAction::Nothing => PadActionView::Nothing,
            PadAction::Create { w_mm, h_mm } => PadActionView::Create { w_mm: *w_mm, h_mm: *h_mm },
            PadAction::Write(e) => PadActionView::Write(e@),
            PadAction::Remove(e) => PadActionView::Remove(e@),
        }
    }
}

/// The device across effects, each run in its own task and able to be
/// overtaken; the order of the last one applied is what makes that safe.
pub struct Pad {
    open: Option<Slots>,
    last_applied: u32,
}

/// The model of a [`Pad`].
pub struct PadState {
    pub open: Option<SlotsView>,
    pub last_applied: u32,
}

impl View for Pad {
    type V = PadState;

    closed spec fn view(&self) -> PadState {
        PadState {
            open: match self.open {
                Some(s) => Some(s@),
                None => None,
            },
            last_applied: self.last_applied,
        }
    }
}

/// One op. A frame that beat its own `begin` here, or one after `end`, is
/// nothing to do: the next frame carries the whole set again.
pub open spec fn pad_ran(s: PadState, order: u32, op: TouchpadView) -> (PadState, PadActionView) {
    if order <= s.last_applied {
        (s, PadActionView::Nothing)
    } else {
        let s = PadState { last_applied: order, ..s };
        match op {
            TouchpadView::Begin { w_mm, h_mm } => (s, PadActionView::Create { w_mm, h_mm }),
            TouchpadView::Frame { points } => match s.open {
                Some(slots) => (
                    PadState { open: Some(slots.after_frame(points)), ..s },
                    PadActionView::Write(slots.frame_events(points)),
                ),
                None => (s, PadActionView::Nothing),
            },
            TouchpadView::End => match s.open {
                Some(slots) => (
                    PadState { open: None, ..s },
                    PadActionView::Remove(slots.frame_events(Seq::empty())),
                ),
                None => (s, PadActionView::Nothing),
            },
        }
    }
}

impl Default for Pad {
    fn default() -> (p: Pad)
        ensures
            p@ == (PadState { open: None, last_applied: 0 }),
    {
        Pad { open: None, last_applied: 0 }
    }
}

impl Pad {
    /// Takes one op in, and says what it does to the device.
    pub fn run(&mut self, order: u32, op: TouchpadOp) -> (a: PadAction)
        ensures
            (final(self)@, a@) == pad_ran(old(self)@, order, op@),
    {
        if !should_apply(self.last_applied, order) {
            return PadAction::Nothing;
        }
        self.last_applied = order;
        match op {
            TouchpadOp::Begin { w_mm, h_mm } => PadAction::Create { w_mm, h_mm },
            TouchpadOp::Frame { points } => match self.open.take() {
                Some(slots) => {
                    let mut slots = slots;
                    let events = slots.frame(points.as_slice());
                    self.open = Some(slots);
                    PadAction::Write(events)
                },
                None => PadAction::Nothing,
            },
            TouchpadOp::End => match self.open.take() {
                Some(slots) => {
                    let mut slots = slots;
                    PadAction::Remove(slots.release_all())
                },
                None => PadAction::Nothing,
            },
        }
    }

    /// A new device is there, with no finger on it: what to write to the one it
    /// replaces before taking that away.
    pub fn created(&mut self) -> (r: Option<Vec<Ev>>)
        ensures
            final(self)@.last_applied == old(self)@.last_applied,
            final(self)@.open == Some(
                SlotsView {
                    held: Seq::new(SLOTS as nat, |k: int| None::<u8>),
                    next_tracking: 1,
                },
            ),
            match r {
                Some(e) => old(self)@.open matches Some(slots) && e@ == slots.frame_events(Seq::empty()),
                None => old(self)@.open is None,
            },
    {
        let was = self.open.take();
        self.open = Some(Slots::default());
        match was {
            Some(slots) => {
                let mut slots = slots;
                Some(slots.release_all())
            },
            None => None,
        }
    }
}

// ---------------------------------------------------------------------- laws

/// Whether no finger has two slots.
pub open spec fn one_slot_each(held: Seq<Option<u8>>) -> bool {
    forall|i: int, j: int|
        0 <= i < j < held.len() && #[trigger] held[i] is Some ==> #[trigger] held[j] != held[i]
}

proof fn first_holding_holds(held: Seq<Option<u8>>, want: Option<u8>, at: int)
    requires
        0 <= at <= held.len(),
    ensures
        at <= first_holding(held, want, at) <= held.len(),
        first_holding(held, want, at) < held.len() ==> held[first_holding(held, want, at)] == want,
        forall|k: int| at <= k < first_holding(held, want, at) ==> held[k] != want,
    decreases held.len() - at,
{
    if at < held.len() && held[at] != want {
        first_holding_holds(held, want, at + 1);
    }
}

proof fn settling_keeps(s: SlotsView, points: Seq<TouchPoint>)
    requires
        one_slot_each(s.held),
    ensures
        one_slot_each(s.with_all(points).held),
        s.with_all(points).held.len() == s.held.len(),
        forall|k: int|
            0 <= k < s.held.len() ==> (#[trigger] s.with_all(points).held[k] == s.held[k] || (
            s.held[k] is None && (s.with_all(points).held[k] matches Some(id) && is_down(points, id)))),
    decreases points.len(),
{
    if points.len() > 0 {
        let rest = points.drop_last();
        let p = points.last();
        settling_keeps(s, rest);
        let before = s.with_all(rest);
        first_holding_holds(before.held, Some(p.id), 0);
        first_holding_holds(before.held, None, 0);
        let end = s.with_all(points);
        assert(points[points.len() - 1].id == p.id);
        assert forall|k: int| 0 <= k < s.held.len() implies (#[trigger] end.held[k] == s.held[k] || (
        s.held[k] is None && (end.held[k] matches Some(id) && is_down(points, id)))) by {
            assert(before.held[k] == s.held[k] || (s.held[k] is None && (
            before.held[k] matches Some(id) && is_down(rest, id))));
            match before.held[k] {
                Some(id) => {
                    if is_down(rest, id) {
                        let j = choose|j: int| 0 <= j < rest.len() && (#[trigger] rest[j]).id == id;
                        assert(points[j].id == id);
                    }
                },
                None => {},
            }
        }
    }
}

/// No finger ever has two slots.
pub proof fn a_finger_has_one_slot(s: SlotsView, points: Seq<TouchPoint>)
    requires
        one_slot_each(s.held),
    ensures
        one_slot_each(s.after_frame(points).held),
        s.after_frame(points).held.len() == s.held.len(),
{
    let up = s.after_lifts(points);
    assert forall|i: int, j: int|
        0 <= i < j < up.held.len() && #[trigger] up.held[i] is Some implies #[trigger] up.held[j]
        != up.held[i] by {
        assert(up.held[i] == s.held[i]);
        assert(up.held[j] is None || up.held[j] == s.held[j]);
    }
    settling_keeps(up, points);
}

/// After a frame no slot holds a finger that the frame did not name: nothing is
/// left pressed by mistake.
pub proof fn no_finger_is_left_behind(s: SlotsView, points: Seq<TouchPoint>, slot: int)
    requires
        one_slot_each(s.held),
        0 <= slot < s.held.len(),
    ensures
        s.after_frame(points).held[slot] matches Some(id) ==> is_down(points, id),
{
    let up = s.after_lifts(points);
    assert(one_slot_each(up.held)) by {
        assert forall|i: int, j: int|
            0 <= i < j < up.held.len() && #[trigger] up.held[i] is Some implies #[trigger] up.held[j]
            != up.held[i] by {
            assert(up.held[i] == s.held[i]);
            assert(up.held[j] is None || up.held[j] == s.held[j]);
        }
    }
    settling_keeps(up, points);
    assert(s.after_frame(points).held[slot] == up.held[slot] || (up.held[slot] is None && (
    s.after_frame(points).held[slot] matches Some(id) && is_down(points, id))));
    assert(!has_gone(up.held, points, slot));
}

/// A finger that stays keeps its slot, so that it is the same contact.
pub proof fn a_finger_that_stays_keeps_its_slot(
    s: SlotsView,
    points: Seq<TouchPoint>,
    slot: int,
    id: u8,
)
    requires
        one_slot_each(s.held),
        0 <= slot < s.held.len(),
        s.held[slot] == Some(id),
        is_down(points, id),
    ensures
        s.after_frame(points).held[slot] == Some(id),
{
    let up = s.after_lifts(points);
    assert(up.held[slot] == s.held[slot]);
    assert(one_slot_each(up.held)) by {
        assert forall|i: int, j: int|
            0 <= i < j < up.held.len() && #[trigger] up.held[i] is Some implies #[trigger] up.held[j]
            != up.held[i] by {
            assert(up.held[i] == s.held[i]);
            assert(up.held[j] is None || up.held[j] == s.held[j]);
        }
    }
    settling_keeps(up, points);
    assert(s.after_frame(points).held[slot] == up.held[slot]);
}

/// The fingers that a frame names, as slots hold them.
pub open spec fn fingers(points: Seq<TouchPoint>) -> Set<Option<u8>> {
    points.map_values(|p: TouchPoint| Some(p.id)).to_set()
}

/// Whether a finger has a slot.
pub open spec fn has_slot(held: Seq<Option<u8>>, id: u8) -> bool {
    exists|slot: int| 0 <= slot < held.len() && #[trigger] held[slot] == Some(id)
}

proof fn down_is_named(points: Seq<TouchPoint>, id: u8)
    ensures
        is_down(points, id) == fingers(points).contains(Some(id)),
{
    let named = points.map_values(|p: TouchPoint| Some(p.id));
    if is_down(points, id) {
        let k = choose|k: int| 0 <= k < points.len() && (#[trigger] points[k]).id == id;
        assert(named[k] == Some(id));
    }
    if named.to_set().contains(Some(id)) {
        let k = choose|k: int| 0 <= k < named.len() && named[k] == Some(id);
        assert(points[k].id == id);
    }
}

/// Full slots leave no finger out that a frame of so few names.
proof fn full_slots_leave_nobody_out(held: Seq<Option<u8>>, all: Seq<TouchPoint>, id: u8)
    requires
        one_slot_each(held),
        forall|k: int| 0 <= k < held.len() ==> (#[trigger] held[k] matches Some(i) && is_down(all, i)),
        is_down(all, id),
        fingers(all).len() <= held.len(),
    ensures
        has_slot(held, id),
{
    if !has_slot(held, id) {
        let named = all.map_values(|p: TouchPoint| Some(p.id));
        assert(held.no_duplicates()) by {
            assert forall|i: int, j: int| 0 <= i < held.len() && 0 <= j < held.len() && i != j
                implies held[i] != held[j] by {
                if i < j {
                    assert(held[i] is Some);
                } else {
                    assert(held[j] is Some);
                }
            }
        }
        held.unique_seq_to_set();
        let more = held.to_set().insert(Some(id));
        assert(!held.to_set().contains(Some(id)));
        assert(more.subset_of(fingers(all))) by {
            assert forall|f: Option<u8>| more.contains(f) implies fingers(all).contains(f) by {
                if held.to_set().contains(f) {
                    let k = choose|k: int| 0 <= k < held.len() && held[k] == f;
                    assert(held[k] is Some);
                    down_is_named(all, held[k]->Some_0);
                } else {
                    down_is_named(all, id);
                }
            }
        }
        vstd::seq_lib::seq_to_set_is_finite(named);
        vstd::set_lib::lemma_len_subset(more, fingers(all));
        assert(false);
    }
}

proof fn settled_have_slots(s: SlotsView, points: Seq<TouchPoint>, all: Seq<TouchPoint>)
    requires
        one_slot_each(s.held),
        forall|k: int|
            0 <= k < s.held.len() ==> (#[trigger] s.held[k] matches Some(i) ==> is_down(all, i)),
        forall|i: u8| #[trigger] is_down(points, i) ==> is_down(all, i),
        fingers(all).len() <= s.held.len(),
    ensures
        forall|i: u8| #[trigger] is_down(points, i) ==> has_slot(s.with_all(points).held, i),
    decreases points.len(),
{
    if points.len() > 0 {
        let rest = points.drop_last();
        let p = points.last();
        assert forall|i: u8| #[trigger] is_down(rest, i) implies is_down(all, i) by {
            let j = choose|j: int| 0 <= j < rest.len() && (#[trigger] rest[j]).id == i;
            assert(points[j].id == i);
            assert(is_down(points, i));
        }
        settled_have_slots(s, rest, all);
        settling_keeps(s, rest);
        let before = s.with_all(rest);
        let end = s.with_all(points);
        first_holding_holds(before.held, Some(p.id), 0);
        first_holding_holds(before.held, None, 0);
        assert(points[points.len() - 1].id == p.id);
        assert(is_down(points, p.id));
        let own = first_holding(before.held, Some(p.id), 0);
        let free = first_holding(before.held, None, 0);
        if own < before.held.len() {
            assert(end.held[own] == Some(p.id));
        } else if free < before.held.len() {
            assert(end.held[free] == Some(p.id));
        } else {
            assert forall|k: int| 0 <= k < before.held.len() implies (
            #[trigger] before.held[k] matches Some(i) && is_down(all, i)) by {
                assert(before.held[k] == s.held[k] || (s.held[k] is None && (
                before.held[k] matches Some(i) && is_down(rest, i))));
                assert(before.held[k] != None::<u8>);
            }
            full_slots_leave_nobody_out(before.held, all, p.id);
        }
        assert(has_slot(end.held, p.id));
        assert forall|i: u8| #[trigger] is_down(points, i) implies has_slot(end.held, i) by {
            if i != p.id {
                let j = choose|j: int| 0 <= j < points.len() && (#[trigger] points[j]).id == i;
                assert(rest[j].id == i);
                assert(is_down(rest, i));
                let slot = choose|slot: int|
                    0 <= slot < before.held.len() && #[trigger] before.held[slot] == Some(i);
                assert(end.held[slot] == Some(i));
            }
        }
    }
}

proof fn lifts_leave_what_is_down(s: SlotsView, points: Seq<TouchPoint>)
    requires
        one_slot_each(s.held),
    ensures
        one_slot_each(s.after_lifts(points).held),
        forall|k: int|
            0 <= k < s.held.len() ==> (
            #[trigger] s.after_lifts(points).held[k] matches Some(i) ==> is_down(points, i)),
{
    let up = s.after_lifts(points);
    assert forall|i: int, j: int|
        0 <= i < j < up.held.len() && #[trigger] up.held[i] is Some implies #[trigger] up.held[j]
        != up.held[i] by {
        assert(up.held[i] == s.held[i]);
        assert(up.held[j] is None || up.held[j] == s.held[j]);
    }
    assert forall|k: int| 0 <= k < s.held.len() implies (
    #[trigger] up.held[k] matches Some(i) ==> is_down(points, i)) by {
        assert(!has_gone(up.held, points, k));
    }
}

/// After a frame that names no more fingers than there are slots, the fingers that
/// have a slot are just those that the frame named.
pub proof fn every_finger_of_a_frame_has_a_slot(s: SlotsView, points: Seq<TouchPoint>, id: u8)
    requires
        one_slot_each(s.held),
        fingers(points).len() <= s.held.len(),
    ensures
        has_slot(s.after_frame(points).held, id) <==> is_down(points, id),
{
    let up = s.after_lifts(points);
    lifts_leave_what_is_down(s, points);
    settled_have_slots(up, points, points);
    a_finger_has_one_slot(s, points);
    let end = s.after_frame(points);
    if has_slot(end.held, id) {
        let slot = choose|slot: int|
            0 <= slot < end.held.len() && #[trigger] end.held[slot] == Some(id);
        no_finger_is_left_behind(s, points, slot);
    }
}

proof fn some_slot_is_taken(held: Seq<Option<u8>>)
    ensures
        taken(held) > 0 <==> exists|k: int| 0 <= k < held.len() && #[trigger] held[k] is Some,
    decreases held.len(),
{
    if held.len() > 0 {
        let rest = held.drop_last();
        some_slot_is_taken(rest);
        if taken(rest) > 0 {
            let k = choose|k: int| 0 <= k < rest.len() && #[trigger] rest[k] is Some;
            assert(held[k] is Some);
        }
        if held.last() is Some {
            assert(held[held.len() - 1] is Some);
        }
        if exists|k: int| 0 <= k < held.len() && #[trigger] held[k] is Some {
            let k = choose|k: int| 0 <= k < held.len() && #[trigger] held[k] is Some;
            if k < rest.len() {
                assert(rest[k] is Some);
            }
        }
    }
}

/// Whether every event of a list moves an axis.
pub open spec fn only_axes(e: Seq<Ev>) -> bool {
    forall|k: int| 0 <= k < e.len() ==> (#[trigger] e[k]).kind == EV_ABS
}

proof fn only_axes_in_both(a: Seq<Ev>, b: Seq<Ev>)
    requires
        only_axes(a),
        only_axes(b),
    ensures
        only_axes(a + b),
{
    assert forall|k: int| 0 <= k < (a + b).len() implies (#[trigger] (a + b)[k]).kind == EV_ABS by {
        if k < a.len() {
            assert((a + b)[k] == a[k]);
        } else {
            assert((a + b)[k] == b[k - a.len()]);
        }
    }
}

proof fn lifts_only_move_axes(held: Seq<Option<u8>>, points: Seq<TouchPoint>, n: int)
    ensures
        only_axes(lift_events(held, points, n)),
    decreases n,
{
    if n > 0 {
        lifts_only_move_axes(held, points, n - 1);
    }
}

proof fn touches_only_move_axes(s: SlotsView, points: Seq<TouchPoint>)
    ensures
        only_axes(s.all_touch_events(points)),
    decreases points.len(),
{
    if points.len() > 0 {
        touches_only_move_axes(s, points.drop_last());
        only_axes_in_both(
            s.all_touch_events(points.drop_last()),
            s.with_all(points.drop_last()).touch_events(points.last()),
        );
    }
}

/// Whether an event is of the key that says whether anything touches.
pub open spec fn is_touch_key(e: Ev) -> bool {
    e.kind == EV_KEY && e.code == BTN_TOUCH
}

/// A frame says once whether anything touches, and something does just when it
/// names a finger.
pub proof fn the_touch_key_follows_the_fingers(s: SlotsView, points: Seq<TouchPoint>)
    requires
        one_slot_each(s.held),
        s.held.len() > 0,
    ensures
        exists|at: int|
            0 <= at < s.frame_events(points).len() && #[trigger] s.frame_events(points)[at] == ev(
                EV_KEY,
                BTN_TOUCH,
                pressed(points.len() > 0),
            ) && forall|k: int|
                0 <= k < s.frame_events(points).len() && is_touch_key(
                    #[trigger] s.frame_events(points)[k],
                ) ==> k == at,
{
    let end = s.after_frame(points);
    let up = s.after_lifts(points);
    let a = lift_events(s.held, points, s.held.len() as int);
    let b = up.all_touch_events(points);
    let c = single_touch_events(end.held, points);
    let d = key_events(taken(end.held));
    let axes = a + b + c;
    lifts_only_move_axes(s.held, points, s.held.len() as int);
    touches_only_move_axes(up, points);
    only_axes_in_both(a, b);
    only_axes_in_both(a + b, c);
    a_finger_has_one_slot(s, points);
    some_slot_is_taken(end.held);
    if points.len() > 0 {
        let rest = points.drop_last();
        let before = up.with_all(rest);
        lifts_leave_what_is_down(s, points);
        settling_keeps(up, rest);
        let p = points.last();
        first_holding_holds(before.held, Some(p.id), 0);
        first_holding_holds(before.held, None, 0);
        let own = first_holding(before.held, Some(p.id), 0);
        let free = first_holding(before.held, None, 0);
        if own < before.held.len() {
            assert(end.held[own] is Some);
        } else if free < before.held.len() {
            assert(end.held[free] is Some);
        } else {
            assert(before.held[0] != None::<u8>);
            assert(end.held[0] is Some);
        }
    } else if taken(end.held) > 0 {
        let k = choose|k: int| 0 <= k < end.held.len() && #[trigger] end.held[k] is Some;
        no_finger_is_left_behind(s, points, k);
    }
    let at = axes.len() as int;
    let all = s.frame_events(points);
    assert(all[at] == d[0]);
    assert forall|k: int| 0 <= k < all.len() && is_touch_key(#[trigger] all[k]) implies k == at by {
        if k < at {
            assert(all[k] == axes[k]);
        } else if k < at + d.len() {
            assert(all[k] == d[k - at]);
        }
    }
}

/// Whether no event of a list is a report.
pub open spec fn no_report(e: Seq<Ev>) -> bool {
    forall|k: int| 0 <= k < e.len() ==> (#[trigger] e[k]).kind != EV_SYN
}

proof fn no_report_in_both(a: Seq<Ev>, b: Seq<Ev>)
    requires
        no_report(a),
        no_report(b),
    ensures
        no_report(a + b),
{
    assert forall|k: int| 0 <= k < (a + b).len() implies (#[trigger] (a + b)[k]).kind != EV_SYN by {
        if k < a.len() {
            assert((a + b)[k] == a[k]);
        } else {
            assert((a + b)[k] == b[k - a.len()]);
        }
    }
}

proof fn no_report_in_lifts(held: Seq<Option<u8>>, points: Seq<TouchPoint>, n: int)
    ensures
        no_report(lift_events(held, points, n)),
    decreases n,
{
    if n > 0 {
        no_report_in_lifts(held, points, n - 1);
    }
}

proof fn no_report_in_touches(s: SlotsView, points: Seq<TouchPoint>)
    ensures
        no_report(s.all_touch_events(points)),
    decreases points.len(),
{
    if points.len() > 0 {
        no_report_in_touches(s, points.drop_last());
        no_report_in_both(
            s.all_touch_events(points.drop_last()),
            s.with_all(points.drop_last()).touch_events(points.last()),
        );
    }
}

/// A frame ends in a report, and holds no other.
pub proof fn every_frame_ends_in_its_one_report(s: SlotsView, points: Seq<TouchPoint>)
    ensures
        s.frame_events(points).len() > 0,
        s.frame_events(points).last() == ev(EV_SYN, SYN_REPORT, 0),
        no_report(s.frame_events(points).drop_last()),
{
    let end = s.after_frame(points);
    let a = lift_events(s.held, points, s.held.len() as int);
    let b = s.after_lifts(points).all_touch_events(points);
    let c = single_touch_events(end.held, points);
    let d = key_events(taken(end.held));
    no_report_in_lifts(s.held, points, s.held.len() as int);
    no_report_in_touches(s.after_lifts(points), points);
    no_report_in_both(a, b);
    no_report_in_both(a + b, c);
    no_report_in_both(a + b + c, d);
    assert(s.frame_events(points).drop_last() =~= a + b + c + d);
}

/// A frame in which some finger is down sets exactly one tool key, and one in
/// which none is sets none.
pub proof fn one_tool_key_for_the_count(down: nat)
    ensures
        down == 0 ==> forall|n: int| 0 <= n < 5 ==> #[trigger] tool_value(down, n) == 0,
        down > 0 ==> exists|n: int|
            0 <= n < 5 && #[trigger] tool_value(down, n) == 1 && forall|m: int|
                0 <= m < 5 && m != n ==> #[trigger] tool_value(down, m) == 0,
{
    if down > 0 {
        let n = if down > 5 {
            4
        } else {
            down - 1
        };
        assert(tool_value(down, n) == 1);
    }
}

proof fn tracking_only_grows(s: SlotsView, points: Seq<TouchPoint>)
    requires
        1 <= s.next_tracking,
        s.next_tracking + points.len() <= i32::MAX,
    ensures
        s.next_tracking <= s.with_all(points).next_tracking <= s.next_tracking + points.len(),
    decreases points.len(),
{
    if points.len() > 0 {
        tracking_only_grows(s, points.drop_last());
    }
}

/// Whether an event hands out a tracking id.
pub open spec fn hands_out(e: Ev) -> bool {
    e.kind == EV_ABS && e.code == ABS_MT_TRACKING_ID && e.value != -1
}

proof fn fresh_ids_are_in_range(s: SlotsView, points: Seq<TouchPoint>, k: int)
    requires
        1 <= s.next_tracking,
        s.next_tracking + points.len() <= i32::MAX,
        0 <= k < s.all_touch_events(points).len(),
        hands_out(s.all_touch_events(points)[k]),
    ensures
        s.next_tracking <= s.all_touch_events(points)[k].value < s.with_all(points).next_tracking,
    decreases points.len(),
{
    if points.len() > 0 {
        let rest = points.drop_last();
        let mid = s.with_all(rest);
        let before = s.all_touch_events(rest);
        tracking_only_grows(s, rest);
        first_holding_holds(mid.held, Some(points.last().id), 0);
        first_holding_holds(mid.held, None, 0);
        if k < before.len() {
            assert(s.all_touch_events(points)[k] == before[k]);
            fresh_ids_are_in_range(s, rest, k);
        } else {
            assert(s.all_touch_events(points)[k] == mid.touch_events(points.last())[k - before.len()]);
        }
    }
}

/// Every tracking id a frame hands out is one that no earlier frame handed out
/// and no later one will, as long as the count has not started over.
pub proof fn tracking_ids_are_not_reused(s: SlotsView, points: Seq<TouchPoint>, k: int)
    requires
        1 <= s.next_tracking,
        s.next_tracking + points.len() <= i32::MAX,
        0 <= k < s.after_lifts(points).all_touch_events(points).len(),
        hands_out(s.after_lifts(points).all_touch_events(points)[k]),
    ensures
        s.next_tracking <= s.after_lifts(points).all_touch_events(points)[k].value
            < s.after_frame(points).next_tracking,
{
    fresh_ids_are_in_range(s.after_lifts(points), points, k);
}

/// A finger that has a slot goes on in it as the same contact: it is given no
/// tracking id.
pub proof fn a_finger_that_stays_is_the_same_contact(s: SlotsView, p: TouchPoint)
    requires
        has_slot(s.held, p.id),
    ensures
        s.with(p) == s,
        forall|k: int|
            0 <= k < s.touch_events(p).len() ==> (#[trigger] s.touch_events(p)[k]).code
                != ABS_MT_TRACKING_ID,
{
    let slot = choose|slot: int| 0 <= slot < s.held.len() && #[trigger] s.held[slot] == Some(p.id);
    first_holding_holds(s.held, Some(p.id), 0);
    assert(first_holding(s.held, Some(p.id), 0) <= slot);
}

/// A new finger takes the lowest free slot, under the next tracking id.
pub proof fn a_new_finger_takes_the_lowest_free_slot(s: SlotsView, p: TouchPoint, slot: int)
    requires
        !has_slot(s.held, p.id),
        0 <= slot < s.held.len(),
        s.held[slot] is None,
        forall|k: int| 0 <= k < slot ==> #[trigger] s.held[k] is Some,
    ensures
        s.with(p).held == s.held.update(slot, Some(p.id)),
        s.with(p).next_tracking == tracking_after(s.next_tracking),
        s.touch_events(p) == seq![
            ev(EV_ABS, ABS_MT_SLOT, slot as i32),
            ev(EV_ABS, ABS_MT_TRACKING_ID, s.next_tracking),
        ] + position_events(p),
{
    first_holding_holds(s.held, Some(p.id), 0);
    first_holding_holds(s.held, None, 0);
    let free = first_holding(s.held, None, 0);
    if free < slot {
        assert(s.held[free] is Some);
    }
}

/// Whether the `j`th pair of some events lifts what is in a slot.
pub open spec fn lifts_at(e: Seq<Ev>, j: int, slot: int) -> bool {
    &&& 0 <= j && 2 * j + 1 < e.len()
    &&& e[2 * j] == ev(EV_ABS, ABS_MT_SLOT, slot as i32)
    &&& e[2 * j + 1] == ev(EV_ABS, ABS_MT_TRACKING_ID, (-1) as i32)
}

proof fn lifts_are_in_order(held: Seq<Option<u8>>, points: Seq<TouchPoint>, n: int)
    requires
        0 <= n <= held.len() <= i32::MAX,
    ensures
        lift_events(held, points, n).len() % 2 == 0,
        forall|slot: int|
            0 <= slot < n && #[trigger] has_gone(held, points, slot) ==> exists|j: int|
                lifts_at(lift_events(held, points, n), j, slot),
        forall|j: int, slot: int|
            0 <= slot < held.len() && #[trigger] lifts_at(lift_events(held, points, n), j, slot)
                ==> slot < n && has_gone(held, points, slot),
        forall|i: int, j: int, slot: int|
            #![trigger lifts_at(lift_events(held, points, n), i, slot), lifts_at(lift_events(held, points, n), j, slot)]
            0 <= slot < held.len() && lifts_at(lift_events(held, points, n), i, slot) && lifts_at(
                lift_events(held, points, n),
                j,
                slot,
            ) ==> i == j,
    decreases n,
{
    if n > 0 {
        lifts_are_in_order(held, points, n - 1);
        let before = lift_events(held, points, n - 1);
        let all = lift_events(held, points, n);
        let last = before.len() as int / 2;
        assert forall|j: int, slot: int|
            0 <= slot < held.len() && #[trigger] lifts_at(all, j, slot) implies (lifts_at(
            before,
            j,
            slot,
        ) || (j == last && slot == n - 1 && has_gone(held, points, n - 1))) by {
            if 2 * j + 1 < before.len() {
                assert(all[2 * j] == before[2 * j]);
                assert(all[2 * j + 1] == before[2 * j + 1]);
            }
        }
        assert forall|slot: int| 0 <= slot < n && #[trigger] has_gone(held, points, slot) implies exists|
            j: int,
        | lifts_at(all, j, slot) by {
            if slot < n - 1 {
                let j = choose|j: int| lifts_at(before, j, slot);
                assert(lifts_at(all, j, slot));
            } else {
                assert(lifts_at(all, last, slot));
            }
        }
    }
}

/// A finger that has gone is lifted from its slot once, and nothing else is lifted.
pub proof fn what_has_gone_is_lifted_once(
    held: Seq<Option<u8>>,
    points: Seq<TouchPoint>,
    slot: int,
)
    requires
        0 <= slot < held.len() <= i32::MAX,
    ensures
        ({
            let e = lift_events(held, points, held.len() as int);
            &&& has_gone(held, points, slot) <==> exists|j: int| lifts_at(e, j, slot)
            &&& forall|i: int, j: int|
                #[trigger] lifts_at(e, i, slot) && #[trigger] lifts_at(e, j, slot) ==> i == j
        }),
{
    lifts_are_in_order(held, points, held.len() as int);
}

/// Of two ops only one that is strictly newer is applied.
pub proof fn an_overtaken_op_does_nothing(s: PadState, order: u32, op: TouchpadView)
    requires
        order <= s.last_applied,
    ensures
        pad_ran(s, order, op) == (s, PadActionView::Nothing),
{
}

/// A finger is reported where it is, each coordinate on its own axis, after the slot it
/// has; one that is new is given a contact first.
pub proof fn a_finger_is_reported_where_it_is(s: SlotsView, p: TouchPoint)
    requires
        s.held.len() <= 10,
        first_holding(s.held, Some(p.id), 0) < s.held.len() || first_holding(s.held, None, 0)
            < s.held.len(),
    ensures
        ({
            let e = s.touch_events(p);
            let end = s.with(p);
            let n = e.len() as int;
            let slot = first_holding(end.held, Some(p.id), 0);
            &&& n == 3 || n == 4
            &&& e[0].kind == 3 && e[0].code == 0x2f
            &&& e[n - 2].kind == 3 && e[n - 2].code == 0x35 && e[n - 2].value == p.x
            &&& e[n - 1].kind == 3 && e[n - 1].code == 0x36 && e[n - 1].value == p.y
            &&& n == 4 ==> e[1].kind == 3 && e[1].code == 0x39 && e[1].value == s.next_tracking
            &&& n == 3 <==> first_holding(s.held, Some(p.id), 0) < s.held.len()
        }),
{
}

/// A pad with nothing on it that one finger touches reports that finger: its slot and
/// contact, where it is on both pairs of axes, that there is a touch, and that it is one
/// finger; and nothing else.
pub proof fn a_lone_finger_is_reported_whole(next: i32, p: TouchPoint)
    ensures
        ({
            let s = SlotsView { held: Seq::new(10, |k: int| None::<u8>), next_tracking: next };
            s.frame_events(seq![p]) == seq![
                ev(3, 0x2f, 0),
                ev(3, 0x39, next),
                ev(3, 0x35, p.x as i32),
                ev(3, 0x36, p.y as i32),
                ev(3, 0x00, p.x as i32),
                ev(3, 0x01, p.y as i32),
                ev(1, 0x14a, 1),
                ev(1, 0x145, 1),
                ev(1, 0x14d, 0),
                ev(1, 0x14e, 0),
                ev(1, 0x14f, 0),
                ev(1, 0x148, 0),
                ev(0, 0, 0),
            ]
        }),
{
    let s = SlotsView { held: Seq::new(10, |k: int| None::<u8>), next_tracking: next };
    let points = seq![p];
    nothing_is_lifted(s.held, points, 10);
    let low = s.after_lifts(points);
    assert(low.held =~= s.held);
    assert(points.drop_last() =~= Seq::<TouchPoint>::empty());
    reveal_with_fuel(first_holding, 12);
    reveal_with_fuel(SlotsView::with_all, 2);
    reveal_with_fuel(SlotsView::all_touch_events, 2);
    assert(low.all_touch_events(points) =~= low.touch_events(p));
    let end = s.after_frame(points);
    assert(end.held =~= s.held.update(0, Some(p.id)));
    reveal_with_fuel(first_taken, 2);
    reveal_with_fuel(first_point, 2);
    assert(first_point(points, end.held[0], 0) == Some(p));
    one_slot_is_taken(end.held, 10);
    let want = seq![
        ev(3, 0x2f, 0),
        ev(3, 0x39, next),
        ev(3, 0x35, p.x as i32),
        ev(3, 0x36, p.y as i32),
        ev(3, 0x00, p.x as i32),
        ev(3, 0x01, p.y as i32),
        ev(1, 0x14a, 1),
        ev(1, 0x145, 1),
        ev(1, 0x14d, 0),
        ev(1, 0x14e, 0),
        ev(1, 0x14f, 0),
        ev(1, 0x148, 0),
        ev(0, 0, 0),
    ];
    assert(s.frame_events(points) =~= want);
}

proof fn nothing_is_lifted(held: Seq<Option<u8>>, points: Seq<TouchPoint>, n: int)
    requires
        0 <= n <= held.len(),
        forall|k: int| 0 <= k < held.len() ==> (#[trigger] held[k]) is None,
    ensures
        lift_events(held, points, n) == Seq::<Ev>::empty(),
    decreases n,
{
    if n > 0 {
        nothing_is_lifted(held, points, n - 1);
    }
}

proof fn one_slot_is_taken(held: Seq<Option<u8>>, n: int)
    requires
        1 <= n <= held.len(),
        held[0] is Some,
        forall|k: int| 1 <= k < held.len() ==> (#[trigger] held[k]) is None,
    ensures
        taken(held.take(n)) == 1,
        n == held.len() ==> taken(held) == 1,
    decreases n,
{
    assert(held.take(n).drop_last() =~= held.take(n - 1));
    reveal_with_fuel(taken, 2);
    if n > 1 {
        one_slot_is_taken(held, n - 1);
    } else {
        assert(held.take(0) =~= Seq::<Option<u8>>::empty());
    }
    assert(held.take(held.len() as int) =~= held);
}

/// Each op does its own thing, if it is not overtaken: a beginning makes a device of its
/// size, a frame writes where the fingers are now to the one there is, and an end lifts
/// them all and takes it away.
pub proof fn each_op_does_its_own_thing(
    p: &mut Pad,
    order: u32,
    op: TouchpadOp,
    a: PadAction,
)
    requires
        call_ensures(Pad::run, (p, order, op), a),
        order > old(p)@.last_applied,
    ensures
        final(p)@.last_applied == order,
        op@ matches TouchpadView::Begin { w_mm, h_mm } ==> a@ == (PadActionView::Create {
            w_mm,
            h_mm,
        }) && final(p)@.open == old(p)@.open,
        op@ matches TouchpadView::Frame { points } ==> (old(p)@.open matches Some(s) ==> a@
            == PadActionView::Write(s.frame_events(points)) && final(p)@.open == Some(
            s.after_frame(points),
        )),
        op@ is End ==> (old(p)@.open matches Some(s) ==> a@ == PadActionView::Remove(
            s.frame_events(Seq::empty()),
        ) && final(p)@.open is None),
        old(p)@.open is None && !(op@ is Begin) ==> a@ is Nothing && final(p)@.open is None,
{
}

/// A new device has ten free slots and takes the place of the old one, whose fingers are
/// lifted; a surface is as fine as its size makes it.
pub proof fn a_new_device_starts_empty(
    p: &mut Pad,
    r: Option<Vec<Ev>>,
    mm: u16,
    units: i32,
    last: u32,
    order: u32,
    applies: bool,
)
    requires
        call_ensures(Pad::created, (p,), r),
        call_ensures(resolution, (mm,), units),
        call_ensures(should_apply, (last, order), applies),
    ensures
        final(p)@.open matches Some(s) && s.held.len() == 10 && (forall|k: int|
            0 <= k < 10 ==> (#[trigger] s.held[k]) is None) && s.next_tracking == 1,
        old(p)@.open matches Some(s) ==> (r matches Some(e) && e@ == s.frame_events(Seq::empty())),
        old(p)@.open is None ==> r is None,
        final(p)@.last_applied == old(p)@.last_applied,
        mm > 0 ==> units * mm <= 65535 < (units + 1) * mm,
        mm == 0 ==> units == 65535,
        applies <==> order > last,
{
    if mm > 0 {
        assert(units * mm <= 65535 < (units + 1) * mm) by (nonlinear_arith)
            requires
                units == 65535int / mm as int,
                mm > 0,
        ;
    }
}

} // verus!
