//! Fingers on a pad, as the kernel hears of them.
use acrylius::linux::touchpad::{
    resolution, should_apply, Ev, Pad, PadAction, Slots, ABS_MT_POSITION_X, ABS_MT_POSITION_Y,
    ABS_MT_SLOT, ABS_MT_TRACKING_ID, ABS_X, ABS_Y, BTN_TOUCH, EV_ABS, EV_KEY, EV_SYN, MAX_POS,
};
use acrylius::vocab::{TouchPoint, TouchpadOp};
use input_linux::{AbsoluteAxis, EventKind, Key};

fn point(id: u8, x: u16, y: u16) -> TouchPoint {
    TouchPoint { id, x, y }
}

fn abs(events: &[Ev], code: AbsoluteAxis) -> Vec<i32> {
    events
        .iter()
        .filter(|e| e.kind == EV_ABS && e.code == code as u16)
        .map(|e| e.value)
        .collect()
}

fn key(events: &[Ev], code: Key) -> Vec<i32> {
    events
        .iter()
        .filter(|e| e.kind == EV_KEY && e.code == code as u16)
        .map(|e| e.value)
        .collect()
}

#[test]
fn a_new_finger_takes_the_lowest_free_slot_with_a_fresh_tracking_id() {
    let mut s = Slots::default();
    let f = s.frame(&[point(7, 100, 200)]);
    assert_eq!(abs(&f, AbsoluteAxis::MultitouchSlot), vec![0]);
    assert_eq!(abs(&f, AbsoluteAxis::MultitouchTrackingId), vec![1]);
    assert_eq!(abs(&f, AbsoluteAxis::MultitouchPositionX), vec![100]);
    assert_eq!(abs(&f, AbsoluteAxis::MultitouchPositionY), vec![200]);
}

#[test]
fn a_finger_that_stays_keeps_its_slot_and_gets_no_new_tracking_id() {
    let mut s = Slots::default();
    s.frame(&[point(7, 100, 200)]);
    let f = s.frame(&[point(7, 150, 200)]);
    assert_eq!(abs(&f, AbsoluteAxis::MultitouchSlot), vec![0]);
    assert!(abs(&f, AbsoluteAxis::MultitouchTrackingId).is_empty());
    assert_eq!(abs(&f, AbsoluteAxis::MultitouchPositionX), vec![150]);
}

#[test]
fn a_finger_missing_from_the_next_frame_lifts_its_slot() {
    let mut s = Slots::default();
    s.frame(&[point(7, 100, 200), point(8, 300, 400)]);
    let f = s.frame(&[point(8, 300, 400)]);
    assert_eq!(abs(&f, AbsoluteAxis::MultitouchTrackingId), vec![-1]);
    assert_eq!(abs(&f, AbsoluteAxis::MultitouchSlot), vec![0, 1]);
    assert_eq!(s.held(), [None, Some(8), None, None, None, None, None, None, None, None]);
}

#[test]
fn an_empty_frame_lifts_everything_and_clears_btn_touch() {
    let mut s = Slots::default();
    s.frame(&[point(1, 10, 10), point(2, 20, 20)]);
    let f = s.frame(&[]);
    assert_eq!(abs(&f, AbsoluteAxis::MultitouchTrackingId), vec![-1, -1]);
    assert_eq!(key(&f, Key::ButtonTouch), vec![0]);
    assert!(s.held().iter().all(Option::is_none));
}

#[test]
fn the_finger_count_picks_exactly_one_tool_key() {
    let mut s = Slots::default();
    let f = s.frame(&[point(1, 1, 1), point(2, 2, 2), point(3, 3, 3)]);
    assert_eq!(key(&f, Key::ButtonToolFinger), vec![0]);
    assert_eq!(key(&f, Key::ButtonToolDoubleTap), vec![0]);
    assert_eq!(key(&f, Key::ButtonToolTripleTap), vec![1]);
    assert_eq!(key(&f, Key::ButtonToolQuadtap), vec![0]);
}

#[test]
fn tracking_ids_are_never_reused_while_the_device_lives() {
    let mut s = Slots::default();
    s.frame(&[point(1, 1, 1)]);
    s.frame(&[]);
    let f = s.frame(&[point(1, 1, 1)]);
    assert_eq!(abs(&f, AbsoluteAxis::MultitouchTrackingId), vec![2]);
}

#[test]
fn a_lift_and_a_touch_in_one_frame_let_the_new_finger_reuse_the_slot() {
    let mut s = Slots::default();
    s.frame(&[point(1, 1, 1)]);
    let f = s.frame(&[point(2, 5, 5)]);
    assert_eq!(abs(&f, AbsoluteAxis::MultitouchSlot), vec![0, 0]);
    assert_eq!(abs(&f, AbsoluteAxis::MultitouchTrackingId), vec![-1, 2]);
    assert_eq!(s.held()[0], Some(2));
}

#[test]
fn every_frame_ends_in_exactly_one_report() {
    let mut s = Slots::default();
    let f = s.frame(&[point(1, 1, 1), point(2, 2, 2)]);
    let syns = f.iter().filter(|e| e.kind == EV_SYN).count();
    assert_eq!(syns, 1);
    assert_eq!(f.last().unwrap().kind, EV_SYN);
}

#[test]
fn ten_fingers_fill_every_slot_and_an_eleventh_is_dropped() {
    let mut s = Slots::default();
    let points: Vec<_> = (0..11).map(|i| point(i, 0, 0)).collect();
    s.frame(&points);
    assert!(s.held().iter().all(Option::is_some));
    assert!(!s.held().contains(&Some(10)));
}

#[test]
fn the_single_touch_axes_follow_the_lowest_occupied_slot() {
    let mut s = Slots::default();
    s.frame(&[point(1, 100, 100), point(2, 900, 900)]);
    let f = s.frame(&[point(2, 900, 900)]);
    assert_eq!(abs(&f, AbsoluteAxis::X), vec![900]);
    assert_eq!(abs(&f, AbsoluteAxis::Y), vec![900]);
}

#[test]
fn more_fingers_than_tool_keys_saturates_at_the_last_one() {
    let mut s = Slots::default();
    let points: Vec<_> = (0..7).map(|i| point(i, 0, 0)).collect();
    let f = s.frame(&points);
    assert_eq!(key(&f, Key::ButtonToolQuintTap), vec![1]);
    assert_eq!(key(&f, Key::ButtonToolQuadtap), vec![0]);
    // BTN_TOUCH stays asserted even past what any tool key can name.
    assert_eq!(key(&f, Key::ButtonTouch), vec![1]);
}

#[test]
fn should_apply_only_lets_a_strictly_newer_order_through() {
    assert!(should_apply(0, 1));
    assert!(should_apply(5, 6));
    assert!(!should_apply(5, 5));
    assert!(!should_apply(5, 4));
}

#[test]
fn release_all_is_the_same_as_an_empty_frame() {
    let mut s = Slots::default();
    s.frame(&[point(1, 1, 1)]);
    let f = s.release_all();
    assert_eq!(key(&f, Key::ButtonTouch), vec![0]);
    assert!(s.held().iter().all(Option::is_none));
}

#[test]
fn the_codes_are_the_kernels() {
    assert_eq!(EV_SYN, EventKind::Synchronize as u16);
    assert_eq!(EV_KEY, EventKind::Key as u16);
    assert_eq!(EV_ABS, EventKind::Absolute as u16);
    assert_eq!(ABS_X, AbsoluteAxis::X as u16);
    assert_eq!(ABS_Y, AbsoluteAxis::Y as u16);
    assert_eq!(ABS_MT_SLOT, AbsoluteAxis::MultitouchSlot as u16);
    assert_eq!(ABS_MT_POSITION_X, AbsoluteAxis::MultitouchPositionX as u16);
    assert_eq!(ABS_MT_POSITION_Y, AbsoluteAxis::MultitouchPositionY as u16);
    assert_eq!(ABS_MT_TRACKING_ID, AbsoluteAxis::MultitouchTrackingId as u16);
    assert_eq!(BTN_TOUCH, Key::ButtonTouch as u16);
}

#[test]
fn a_pad_with_no_size_has_a_resolution_all_the_same() {
    assert_eq!(resolution(100), MAX_POS / 100);
    assert!(resolution(0) > 0);
}

#[test]
fn a_stale_order_does_nothing() {
    let mut pad = Pad::default();
    assert!(matches!(
        pad.run(2, TouchpadOp::Begin { w_mm: 100, h_mm: 60 }),
        PadAction::Create { .. }
    ));
    pad.created();
    assert!(matches!(
        pad.run(2, TouchpadOp::Frame { points: vec![point(1, 1, 1)] }),
        PadAction::Nothing
    ));
    assert!(matches!(
        pad.run(3, TouchpadOp::Frame { points: vec![point(1, 1, 1)] }),
        PadAction::Write(_)
    ));
}

#[test]
fn a_new_pad_lifts_the_fingers_off_the_old_one() {
    let mut pad = Pad::default();
    pad.run(1, TouchpadOp::Begin { w_mm: 1, h_mm: 1 });
    assert!(pad.created().is_none());
    pad.run(2, TouchpadOp::Frame { points: vec![point(1, 1, 1)] });
    pad.run(3, TouchpadOp::Begin { w_mm: 1, h_mm: 1 });
    let lifted = pad.created().unwrap();
    assert_eq!(abs(&lifted, AbsoluteAxis::MultitouchTrackingId), vec![-1]);
    assert!(matches!(pad.run(4, TouchpadOp::End), PadAction::Remove(_)));
    assert!(matches!(pad.run(5, TouchpadOp::End), PadAction::Nothing));
}

#[test]
fn as_many_fingers_as_slots_all_have_one() {
    let mut s = Slots::default();
    s.frame(&[point(200, 1, 1), point(201, 1, 1)]);
    let all: Vec<TouchPoint> = (0..10).map(|id| point(id, 5, 6)).collect();
    let f = s.frame(&all);
    let mut held: Vec<u8> = s.held().iter().flatten().copied().collect();
    held.sort_unstable();
    assert_eq!(held, (0..10).collect::<Vec<u8>>());
    assert_eq!(key(&f, Key::ButtonTouch), vec![1]);

    let f = s.frame(&[]);
    assert!(s.held().iter().all(|h| h.is_none()));
    assert_eq!(key(&f, Key::ButtonTouch), vec![0]);
}
