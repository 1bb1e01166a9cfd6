//! `org.acrylius.touchpad/1`: replay a phone's fingers onto a desktop's virtual
//! touchpad, and let libinput and the compositor derive every gesture.
use crate::body::{
    field_list, from_bytes, list_field, list_item, list_reads, put_list, value_of, views, Body,
};
use crate::cbor::{
    array_reads, close, end_of, every_end_is_later, field_u16, field_u32, field_u8, got, head, open,
    open_at, open_moves_on, put_array, put_uint, rest, stands_split, uint_field, uint_reads,
};
use crate::ids::{opt_id, DeviceId};
use crate::plugin::{
    answer, both_ways, Cx, CxView, FaultView, Memory, Plugin, PluginError, PluginManifest, SendView,
    Told,
};
use crate::text::{copy_bytes, same};
use crate::vocab::{
    Effect, EffectKind, EffectResult, EffectToken, EffectView, TouchPoint, TouchpadOp, TouchpadView,
    TransferId,
};
use crate::wire::Envelope;
use vstd::prelude::*;

verus! {

pub const CAP: &'static str = "org.acrylius.touchpad/1";

/// Slots on the virtual device. A frame naming more fingers is refused rather
/// than truncated, so a peer cannot quietly lose one.
pub const MAX_POINTS: usize = 10;

/// The payload of `begin`.
#[derive(Clone, Copy, PartialEq, Eq, Debug, Structural)]
pub struct Begin {
    pub w_mm: u16,
    pub h_mm: u16,
}

impl View for Begin {
    type V = Begin;

    open spec fn view(&self) -> Begin {
        *self
    }
}

impl Body for Begin {
    open spec fn item(v: Begin) -> Seq<u8> {
        head(4, 2) + head(0, v.w_mm as int) + head(0, v.h_mm as int)
    }

    open spec fn item_at(b: Seq<u8>, at: int) -> Option<(Begin, int)> {
        let w_mm = uint_field(b, open_at(b, at), u16::MAX as int);
        let h_mm = uint_field(b, rest(w_mm), u16::MAX as int);
        match end_of(b, rest(h_mm)) {
            Some(end) => Some((Begin { w_mm: got(w_mm) as u16, h_mm: got(h_mm) as u16 }, end)),
            None => None,
        }
    }

    proof fn item_reads(w: Seq<u8>, at: int, v: Begin) {
        let p0 = head(4, 2);
        let p1 = p0 + head(0, v.w_mm as int);
        stands_split(w, at, p1, head(0, v.h_mm as int));
        stands_split(w, at, p0, head(0, v.w_mm as int));
        array_reads(w, at, 2);
        uint_reads(w, at + p0.len(), v.w_mm as int, u16::MAX as int);
        uint_reads(w, at + p1.len(), v.h_mm as int, u16::MAX as int);
    }

    proof fn item_moves_on(b: Seq<u8>, at: int) {
        open_moves_on(b, at);
        every_end_is_later(b);
    }

    fn put(&self, out: &mut Vec<u8>) {
        put_array(out, 2);
        put_uint(out, self.w_mm as u64);
        put_uint(out, self.h_mm as u64);
        assert(out@ =~= old(out)@ + Self::item(self@));
    }

    fn get(b: &[u8], at: usize) -> (r: Option<(Begin, usize)>) {
        let c = open(b, at)?;
        let (w_mm, c) = field_u16(b, c)?;
        let (h_mm, c) = field_u16(b, c)?;
        let end: usize = close(b, c)?;
        Some((Begin { w_mm, h_mm }, end))
    }
}

/// One finger, normalised over the surface to `0..=65535`.
#[derive(Clone, Copy, PartialEq, Eq, Debug, Structural)]
pub struct Point {
    pub id: u8,
    pub x: u16,
    pub y: u16,
}

impl View for Point {
    type V = Point;

    open spec fn view(&self) -> Point {
        *self
    }
}

impl Body for Point {
    open spec fn item(v: Point) -> Seq<u8> {
        head(4, 3) + head(0, v.id as int) + head(0, v.x as int) + head(0, v.y as int)
    }

    open spec fn item_at(b: Seq<u8>, at: int) -> Option<(Point, int)> {
        let id = uint_field(b, open_at(b, at), u8::MAX as int);
        let x = uint_field(b, rest(id), u16::MAX as int);
        let y = uint_field(b, rest(x), u16::MAX as int);
        match end_of(b, rest(y)) {
            Some(end) => Some(
                (
                    Point {
                        id: got(id) as u8,
                        x: got(x) as u16,
                        y: got(y) as u16,
                    },
                    end,
                ),
            ),
            None => None,
        }
    }

    proof fn item_reads(w: Seq<u8>, at: int, v: Point) {
        let p0 = head(4, 3);
        let p1 = p0 + head(0, v.id as int);
        let p2 = p1 + head(0, v.x as int);
        stands_split(w, at, p2, head(0, v.y as int));
        stands_split(w, at, p1, head(0, v.x as int));
        stands_split(w, at, p0, head(0, v.id as int));
        array_reads(w, at, 3);
        uint_reads(w, at + p0.len(), v.id as int, u8::MAX as int);
        uint_reads(w, at + p1.len(), v.x as int, u16::MAX as int);
        uint_reads(w, at + p2.len(), v.y as int, u16::MAX as int);
    }

    proof fn item_moves_on(b: Seq<u8>, at: int) {
        open_moves_on(b, at);
        every_end_is_later(b);
    }

    fn put(&self, out: &mut Vec<u8>) {
        put_array(out, 3);
        put_uint(out, self.id as u64);
        put_uint(out, self.x as u64);
        put_uint(out, self.y as u64);
        assert(out@ =~= old(out)@ + Self::item(self@));
    }

    fn get(b: &[u8], at: usize) -> (r: Option<(Point, usize)>) {
        let c = open(b, at)?;
        let (id, c) = field_u8(b, c)?;
        let (x, c) = field_u16(b, c)?;
        let (y, c) = field_u16(b, c)?;
        let end: usize = close(b, c)?;
        Some((Point { id, x, y }, end))
    }
}

/// The payload of `frame`.
#[derive(Clone, PartialEq, Eq, Debug)]
pub struct Frame {
    pub seq: u32,
    /// Every finger down right now, not a delta.
    pub points: Vec<Point>,
}

/// The model of a [`Frame`].
pub struct FrameView {
    pub seq: u32,
    pub points: Seq<Point>,
}

impl View for Frame {
    type V = FrameView;

    open spec fn view(&self) -> FrameView {
        FrameView { seq: self.seq, points: views(self.points@) }
    }
}

impl Body for Frame {
    open spec fn item(v: FrameView) -> Seq<u8> {
        head(4, 2) + head(0, v.seq as int) + list_item::<Point>(v.points)
    }

    open spec fn item_at(b: Seq<u8>, at: int) -> Option<(FrameView, int)> {
        let seq = uint_field(b, open_at(b, at), u32::MAX as int);
        let points = list_field::<Point>(b, rest(seq));
        match end_of(b, rest(points)) {
            Some(end) => Some((FrameView { seq: got(seq) as u32, points: got(points) }, end)),
            None => None,
        }
    }

    proof fn item_reads(w: Seq<u8>, at: int, v: FrameView) {
        let p0 = head(4, 2);
        let p1 = p0 + head(0, v.seq as int);
        stands_split(w, at, p1, list_item::<Point>(v.points));
        stands_split(w, at, p0, head(0, v.seq as int));
        array_reads(w, at, 2);
        uint_reads(w, at + p0.len(), v.seq as int, u32::MAX as int);
        list_reads::<Point>(w, at + p1.len(), v.points);
    }

    proof fn item_moves_on(b: Seq<u8>, at: int) {
        open_moves_on(b, at);
        every_end_is_later(b);
    }

    fn put(&self, out: &mut Vec<u8>) {
        put_array(out, 2);
        put_uint(out, self.seq as u64);
        put_list::<Point>(out, &self.points);
        assert(out@ =~= old(out)@ + Self::item(self@));
    }

    fn get(b: &[u8], at: usize) -> (r: Option<(Frame, usize)>) {
        let c = open(b, at)?;
        let (seq, c) = field_u32(b, c)?;
        let (points, c) = field_list::<Point>(b, c)?;
        let end: usize = close(b, c)?;
        Some((Frame { seq, points }, end))
    }
}

pub struct TouchpadPlugin {
    order: u32,
    /// The peer whose stream is currently open, if any: a disconnect from
    /// anyone else must not touch this desktop's pointer.
    owner: Option<DeviceId>,
}

/// The model of a [`TouchpadPlugin`].
pub struct PadView {
    pub order: u32,
    pub owner: Option<Seq<char>>,
}

impl View for TouchpadPlugin {
    type V = PadView;

    closed spec fn view(&self) -> PadView {
        PadView { order: self.order, owner: opt_id(self.owner) }
    }
}

impl Default for TouchpadPlugin {
    fn default() -> (p: TouchpadPlugin)
        ensures
            p@ == (PadView { order: 0, owner: None }),
    {
        TouchpadPlugin { order: 0, owner: None }
    }
}

/// The order after `n`; it starts over when it is used up.
pub open spec fn newer(n: u32) -> u32 {
    if n == u32::MAX {
        0
    } else {
        (n + 1) as u32
    }
}

/// A finger as the host takes it.
pub open spec fn finger(p: Point) -> TouchPoint {
    TouchPoint { id: p.id, x: p.x, y: p.y }
}

/// What a message asks of the pad, and whose stream is open afterwards.
pub open spec fn op_of(
    owner: Option<Seq<char>>,
    peer: Seq<char>,
    ty: Seq<char>,
    body: Seq<u8>,
) -> Result<
    (TouchpadView, Option<Seq<char>>),
    FaultView,
> {
    if ty == "begin"@ {
        match value_of::<Begin>(body) {
            None => Err(FaultView::BadBody),
            Some(b) => if b.w_mm == 0 || b.h_mm == 0 {
                Err(FaultView::BadBody)
            } else {
                Ok((TouchpadView::Begin { w_mm: b.w_mm, h_mm: b.h_mm }, Some(peer)))
            },
        }
    } else if ty == "frame"@ {
        match value_of::<Frame>(body) {
            None => Err(FaultView::BadBody),
            Some(f) => if f.points.len() > MAX_POINTS {
                Err(FaultView::TooLarge)
            } else {
                Ok((TouchpadView::Frame { points: f.points.map_values(|p: Point| finger(p)) }, owner))
            },
        }
    } else if ty == "end"@ {
        Ok((TouchpadView::End, None))
    } else {
        Err(FaultView::UnknownType(ty))
    }
}

/// A message from a peer.
pub open spec fn message(s: PadView, cx: CxView, peer: Seq<char>, ty: Seq<char>, body: Seq<u8>) -> (
    PadView,
    CxView,
    Result<(), FaultView>,
) {
    if ty == "avail"@ {
        (s, cx.told(peer, CAP@, "avail"@, Seq::empty()), Ok(()))
    } else if !cx.serves.has(EffectKind::Touchpad) {
        (s, cx, Err(FaultView::NotAllowed))
    } else {
        match op_of(s.owner, peer, ty, body) {
            Err(e) => (s, cx, Err(e)),
            Ok((op, owner)) => (
                PadView { order: newer(s.order), owner },
                cx.asked(EffectView::Touchpad { order: newer(s.order), op }),
                Ok(()),
            ),
        }
    }
}

/// A peer has gone: if the stream was its own, every finger is lifted.
pub open spec fn gone(s: PadView, cx: CxView, peer: Seq<char>) -> (PadView, CxView) {
    if s.owner == Some(peer) {
        (
            PadView { order: newer(s.order), owner: None },
            cx.asked(EffectView::Touchpad { order: newer(s.order), op: TouchpadView::End }),
        )
    } else {
        (s, cx)
    }
}

impl TouchpadPlugin {
    fn fingers(points: &Vec<Point>) -> (r: Vec<TouchPoint>)
        ensures
            r@ == points@.map_values(|p: Point| finger(p)),
    {
        let mut out: Vec<TouchPoint> = Vec::new();
        for i in 0..points.len()
            invariant
                out@.len() == i,
                forall|k: int| 0 <= k < i ==> out@[k] == finger(points@[k]),
        {
            let p: Point = points[i];
            out.push(TouchPoint { id: p.id, x: p.x, y: p.y });
        }
        assert(out@ =~= points@.map_values(|p: Point| finger(p)));
        out
    }

    fn ask(&mut self, cx: &mut Cx, op: TouchpadOp)
        ensures
            final(self)@ == (PadView { order: newer(old(self)@.order), ..old(self)@ }),
            final(cx)@ == old(cx)@.asked(
                EffectView::Touchpad { order: newer(old(self)@.order), op: op@ },
            ),
    {
        // No pending entry and no answer to wait for: a frame has no reply, so
        // there is nothing to correlate a result with.
        self.order = self.order.wrapping_add(1);
        let _ = cx.effect(Effect::Touchpad { order: self.order, op });
    }
}

impl Plugin for TouchpadPlugin {
    open spec fn memory(&self) -> Memory {
        Memory::Touchpad(self@)
    }

    open spec fn may(
        &self,
        told: Told,
        cx: CxView,
        after: CxView,
        r: Result<(), FaultView>,
        next: Memory,
    ) -> bool {
        match told {
            Told::Message { peer, env } => {
                let (end, told, said) = message(self@, cx, peer, env.ty, env.body);
                after == told && r == said && next == Memory::Touchpad(end)
            },
            Told::Local { peer, ty, body } => {
                &&& next == self.memory()
                &&& (after, r) == if ty == "begin"@ || ty == "frame"@ || ty == "end"@ {
                    (cx.sent(peer, CAP@, ty, body, None), Ok(()))
                } else {
                    (cx, Err(FaultView::UnknownType(ty)))
                }
            },
            Told::Connected { peer } => {
                &&& next == self.memory()
                &&& after == if cx.serves.has(EffectKind::Touchpad) {
                    cx.sent(peer, CAP@, "avail"@, Seq::empty(), None)
                } else {
                    cx
                }
            },
            Told::Disconnected { peer } => {
                let (end, told) = gone(self@, cx, peer);
                after == told && next == Memory::Touchpad(end)
            },
            _ => after == cx && next == self.memory(),
        }
    }

    fn manifest(&self) -> (m: PluginManifest)
        ensures
            m@ == both_ways("org.acrylius.touchpad"@, CAP@, seq![EffectKind::Touchpad]),
    {
        let m = PluginManifest::both_ways("org.acrylius.touchpad", CAP, vec![EffectKind::Touchpad]);
        assert(m@.requires_effects =~= seq![EffectKind::Touchpad]);
        m
    }

    fn on_peer_connected(&mut self, cx: &mut Cx, peer: &DeviceId)
        ensures
            final(self)@ == old(self)@,
            final(cx)@ == (if old(cx)@.serves.has(EffectKind::Touchpad) {
                old(cx)@.sent(peer@, CAP@, "avail"@, Seq::empty(), None)
            } else {
                old(cx)@
            }),
    {
        // Advertising says the capability is understood; this says it can be
        // served, which is the only thing a remote can draw a button from.
        if cx.serves(EffectKind::Touchpad) {
            cx.send(peer, CAP, "avail", Vec::new());
        }
    }

    fn on_peer_disconnected(&mut self, cx: &mut Cx, peer: &DeviceId)
        ensures
            (final(self)@, final(cx)@) == gone(old(self)@, old(cx)@, peer@),
    {
        // Only the stream's own peer disconnecting lifts it.
        let own = match &self.owner {
            Some(o) => o.is(peer),
            None => false,
        };
        if own {
            self.owner = None;
            self.ask(cx, TouchpadOp::End);
        }
    }

    fn on_message(&mut self, cx: &mut Cx, peer: &DeviceId, env: &Envelope) -> (r: Result<
        (),
        PluginError,
    >)
        ensures
            (final(self)@, final(cx)@, answer(r)) == message(
                old(self)@,
                old(cx)@,
                peer@,
                env.ty@,
                env.body@,
            ),
    {
        let ty = env.ty.as_str();
        if same(ty, "avail") {
            cx.tell(peer, CAP, "avail", Vec::new());
            return Ok(());
        }
        if !cx.serves(EffectKind::Touchpad) {
            return Err(PluginError::NotAllowed);
        }
        let op = if same(ty, "begin") {
            let b = match from_bytes::<Begin>(&env.body) {
                Some(b) => b,
                None => return Err(PluginError::BadBody),
            };
            if b.w_mm == 0 || b.h_mm == 0 {
                return Err(PluginError::BadBody);
            }
            self.owner = Some(peer.clone());
            TouchpadOp::Begin { w_mm: b.w_mm, h_mm: b.h_mm }
        } else if same(ty, "frame") {
            let f = match from_bytes::<Frame>(&env.body) {
                Some(f) => f,
                None => return Err(PluginError::BadBody),
            };
            proof {
                assert(views(f.points@) =~= f.points@);
            }
            if f.points.len() > MAX_POINTS {
                return Err(PluginError::TooLarge);
            }
            TouchpadOp::Frame { points: Self::fingers(&f.points) }
        } else if same(ty, "end") {
            self.owner = None;
            TouchpadOp::End
        } else {
            return Err(PluginError::UnknownType(env.ty.clone()));
        };
        self.ask(cx, op);
        Ok(())
    }

    fn on_local(&mut self, cx: &mut Cx, peer: &DeviceId, ty: &str, body: &[u8]) -> (r: Result<
        (),
        PluginError,
    >)
        ensures
            final(self)@ == old(self)@,
            match answer(r) {
                Ok(_) => {
                    &&& ty@ == "begin"@ || ty@ == "frame"@ || ty@ == "end"@
                    &&& final(cx)@ == old(cx)@.sent(peer@, CAP@, ty@, body@, None)
                },
                Err(e) => {
                    &&& ty@ != "begin"@ && ty@ != "frame"@ && ty@ != "end"@
                    &&& e == FaultView::UnknownType(ty@)
                    &&& final(cx)@ == old(cx)@
                },
            },
    {
        if same(ty, "begin") || same(ty, "frame") || same(ty, "end") {
            cx.send(peer, CAP, ty, copy_bytes(body));
            Ok(())
        } else {
            Err(PluginError::UnknownType(ty.to_owned()))
        }
    }

    fn on_effect_result(&mut self, cx: &mut Cx, token: EffectToken, result: &EffectResult)
        ensures
            *final(self) == *old(self),
            final(cx)@ == old(cx)@,
    {
    }

    fn on_bulk_listening(&mut self, cx: &mut Cx, transfer: TransferId, endpoint: &str)
        ensures
            *final(self) == *old(self),
            final(cx)@ == old(cx)@,
    {
    }

    fn on_bulk_finished(&mut self, cx: &mut Cx, transfer: TransferId, ok: bool, detail: &str)
        ensures
            *final(self) == *old(self),
            final(cx)@ == old(cx)@,
    {
    }

    fn on_tick(&mut self, cx: &mut Cx)
        ensures
            *final(self) == *old(self),
            final(cx)@ == old(cx)@,
    {
    }
}

/// Whatever a message does to the pad, it does under an order greater than
/// every order before it, until the count starts over.
pub proof fn each_effect_is_newer(
    s: PadView,
    cx: CxView,
    peer: Seq<char>,
    ty: Seq<char>,
    body: Seq<u8>,
)
    requires
        s.order < u32::MAX,
    ensures
        ({
            let end = message(s, cx, peer, ty, body);
            ||| end.0 == s && end.1.effects == cx.effects
            ||| {
                &&& end.0.order > s.order
                &&& end.1.effects.len() == cx.effects.len() + 1
                &&& end.1.effects.drop_last() == cx.effects
                &&& (end.1.effects.last().1 matches EffectView::Touchpad { order, .. } && order
                    == end.0.order)
            }
        }),
{
    let end = message(s, cx, peer, ty, body);
    assert(end.1.effects.len() > cx.effects.len() ==> end.1.effects.drop_last() =~= cx.effects);
}

/// A peer that does not own the stream cannot lift a finger by leaving.
pub proof fn strangers_leave_the_pad_alone(s: PadView, cx: CxView, peer: Seq<char>)
    requires
        s.owner != Some(peer),
    ensures
        gone(s, cx, peer) == (s, cx),
{
}

/// A host without a pad is never asked for one.
pub proof fn an_unserved_pad_is_never_touched(
    s: PadView,
    cx: CxView,
    peer: Seq<char>,
    ty: Seq<char>,
    body: Seq<u8>,
)
    requires
        !cx.serves.has(EffectKind::Touchpad),
    ensures
        message(s, cx, peer, ty, body).1.effects == cx.effects,
        message(s, cx, peer, ty, body).0 == s,
{
}

/// The fingers that a peer sends are the ones the pad is given: as many, in their
/// order, each with its own number and where it is, across and down. More than the pad
/// has room for are refused, and then nothing happens.
pub proof fn the_pad_gets_the_fingers_that_were_sent(
    s: PadView,
    cx: CxView,
    peer: Seq<char>,
    body: Seq<u8>,
)
    requires
        cx.serves.has(EffectKind::Touchpad),
    ensures
        ({
            let (end, told, r) = message(s, cx, peer, "frame"@, body);
            match value_of::<Frame>(body) {
                None => r == Err::<(), FaultView>(FaultView::BadBody) && told == cx && end == s,
                Some(f) => if f.points.len() > 10 {
                    r == Err::<(), FaultView>(FaultView::TooLarge) && told == cx && end == s
                } else {
                    &&& r is Ok
                    &&& end.owner == s.owner
                    &&& told.effects.len() == cx.effects.len() + 1
                    &&& told.effects.drop_last() == cx.effects
                    &&& told.sends == cx.sends && told.ui == cx.ui && told.bulk == cx.bulk
                    &&& told.effects.last().1 matches EffectView::Touchpad {
                        order,
                        op: TouchpadView::Frame { points },
                    } && {
                        &&& points.len() == f.points.len()
                        &&& order == end.order
                        &&& forall|k: int|
                            0 <= k < points.len() ==> {
                                let p = #[trigger] points[k];
                                &&& p.id == f.points[k].id
                                &&& p.x == f.points[k].x
                                &&& p.y == f.points[k].y
                            }
                    }
                },
            }
        }),
{
    strings_differ();
    let told = message(s, cx, peer, "frame"@, body).1;
    assert(told.effects.len() > cx.effects.len() ==> told.effects.drop_last() =~= cx.effects);
}

proof fn strings_differ()
    ensures
        "frame"@ != "begin"@,
        "frame"@ != "avail"@,
        "begin"@ != "avail"@,
        "end"@ != "avail"@,
        "end"@ != "begin"@,
        "end"@ != "frame"@,
{
    reveal_strlit("frame");
    reveal_strlit("begin");
    reveal_strlit("avail");
    reveal_strlit("end");
    assert("frame"@[0] == 'f' && "begin"@[0] == 'b' && "avail"@[0] == 'a' && "end"@[0] == 'e');
}

/// A stream that a peer opens is its own, and the pad is as wide and as high as the
/// peer says; a surface without an extent is refused. Ending a stream leaves it to
/// nobody.
pub proof fn a_stream_is_its_openers(s: PadView, cx: CxView, peer: Seq<char>, body: Seq<u8>)
    requires
        cx.serves.has(EffectKind::Touchpad),
    ensures
        ({
            let (end, told, r) = message(s, cx, peer, "begin"@, body);
            match value_of::<Begin>(body) {
                None => r == Err::<(), FaultView>(FaultView::BadBody) && told == cx && end == s,
                Some(b) => if b.w_mm == 0 || b.h_mm == 0 {
                    r == Err::<(), FaultView>(FaultView::BadBody) && told == cx && end == s
                } else {
                    &&& r is Ok
                    &&& end.owner == Some(peer)
                    &&& told.effects.len() == cx.effects.len() + 1
                    &&& told.effects.last().1 matches EffectView::Touchpad {
                        order,
                        op: TouchpadView::Begin { w_mm, h_mm },
                    } && w_mm == b.w_mm && h_mm == b.h_mm && order == end.order
                },
            }
        }),
        ({
            let (end, told, r) = message(s, cx, peer, "end"@, body);
            &&& r is Ok
            &&& end.owner is None
            &&& told.effects.len() == cx.effects.len() + 1
            &&& told.effects.last().1 matches EffectView::Touchpad { order, op } && op
                == TouchpadView::End && order == end.order
        }),
{
    strings_differ();
}

/// When the peer that a stream belongs to goes, its fingers are lifted: the pad is told
/// that the stream has ended, under an order that no earlier one can overtake.
pub proof fn a_departed_owner_lifts_its_fingers(s: PadView, cx: CxView, peer: Seq<char>)
    requires
        s.owner == Some(peer),
    ensures
        ({
            let (end, told) = gone(s, cx, peer);
            &&& end.owner is None
            &&& told.effects.len() == cx.effects.len() + 1
            &&& told.effects.last().1 matches EffectView::Touchpad { order, op } && op
                == TouchpadView::End && order == end.order && (s.order < u32::MAX ==> order
                == s.order + 1)
        }),
{
}

/// That a desktop has a pad is shown on the screen of the device it told, and a
/// device with no pad refuses every stream.
pub proof fn a_pad_is_announced_and_else_refused(
    s: PadView,
    cx: CxView,
    peer: Seq<char>,
    ty: Seq<char>,
    body: Seq<u8>,
)
    ensures
        message(s, cx, peer, "avail"@, body) == (
            s,
            cx.told(peer, "org.acrylius.touchpad/1"@, "avail"@, Seq::empty()),
            Ok::<(), FaultView>(()),
        ),
        ty != "avail"@ && !cx.serves.has(EffectKind::Touchpad) ==> message(s, cx, peer, ty, body) == (
            s,
            cx,
            Err::<(), FaultView>(FaultView::NotAllowed),
        ),
{
}

/// A person's touches go to the peer as they are, under the same name; anything else is no
/// touch. A peer that comes hears that there is a pad exactly where there is one.
pub proof fn touches_go_to_the_peer_as_they_are(
    p: TouchpadPlugin,
    cx: CxView,
    peer: Seq<char>,
    ty: Seq<char>,
    body: Seq<u8>,
    end: CxView,
    r: Result<(), FaultView>,
    next: Memory,
    end2: CxView,
    r2: Result<(), FaultView>,
    next2: Memory,
)
    requires
        p.may(Told::Local { peer, ty, body }, cx, end, r, next),
        p.may(Told::Connected { peer }, cx, end2, r2, next2),
    ensures
        ty == "begin"@ || ty == "frame"@ || ty == "end"@ ==> r is Ok && end.sends.len()
            == cx.sends.len() + 1 && end.sends.last() == (SendView {
            peer,
            cap: "org.acrylius.touchpad/1"@,
            ty,
            body,
            re: None,
        }) && end.effects == cx.effects,
        ty != "begin"@ && ty != "frame"@ && ty != "end"@ ==> end == cx && r == Err::<
            (),
            FaultView,
        >(FaultView::UnknownType(ty)),
        next == p.memory(),
        cx.serves.has(EffectKind::Touchpad) ==> end2.sends.len() == cx.sends.len() + 1
            && end2.sends.last().ty == "avail"@ && end2.sends.last().peer == peer,
        !cx.serves.has(EffectKind::Touchpad) ==> end2 == cx,
        next2 == p.memory(),
{
}

} // verus!
