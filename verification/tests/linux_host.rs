//! The smaller pieces of the desktop: sound, the cable, the clipboard, the user.
use acrylius::link::{BulkSupport, LatencyClass, LinkDownReason, LinkId, TransportId, TransportKind};
use acrylius::linux::clipboard::Watch;
use acrylius::linux::mixer::{
    capped, outcome, pactl_percent, took, volume_arg, wpctl_fraction, Fraction,
};
use acrylius::linux::usb::{
    down_reason, forward_arg, frame_header, frame_length, gave_up, try_again, ReadEnd,
    UsbTransport, ATTEMPTS, MAX_FRAME,
};
use acrylius::linux::user::uid;

#[test]
fn wpctl_says_a_fraction() {
    assert_eq!(wpctl_fraction("Volume: 0.20\n"), Fraction::Text("0.20".to_string()));
    assert_eq!(wpctl_fraction("Volume: 0.20 [MUTED]\n"), Fraction::Muted);
    assert_eq!(wpctl_fraction("Volume:"), Fraction::Unreadable);
    assert_eq!(wpctl_fraction(""), Fraction::Unreadable);
}

#[test]
fn pactl_says_a_percentage() {
    let said = "Volume: front-left: 32768 /  50% / -18.06 dB,   front-right: 32768 /  50% / -18.06 dB";
    assert_eq!(pactl_percent(said), Some(50));
    assert_eq!(pactl_percent("Volume: front-left: 98304 / 150% / 10.57 dB"), Some(100));
    assert_eq!(pactl_percent("Volume: front-left: 1 / 999% / 1 dB"), None);
    assert_eq!(pactl_percent("no volume here"), None);
}

#[test]
fn a_volume_is_asked_for_in_percent() {
    assert_eq!((capped(0), capped(100), capped(200)), (0, 100, 100));
    assert_eq!(volume_arg(20), "20%");
    assert!(took(42, 40) && took(35, 40) && !took(46, 40) && !took(0, 40));
}

#[test]
fn a_volume_that_did_not_move_is_a_failure() {
    assert_eq!(outcome(true, 40, Some(41)), Ok(41));
    assert_eq!(
        outcome(true, 40, Some(90)),
        Err("the volume did not move: it is still 90%".to_string())
    );
    assert_eq!(
        outcome(true, 40, None),
        Err("the volume could not be read back".to_string())
    );
    assert_eq!(
        outcome(false, 40, Some(40)),
        Err("no sound server here to set a volume on".to_string())
    );
}

#[test]
fn a_cable_carries_one_link_at_a_time() {
    let mut t = UsbTransport::new(TransportId(4));
    assert_eq!(t.id(), TransportId(4));
    assert!(t.dial());
    assert!(!t.dial(), "one dial is under way");
    let first = t.connected();
    assert_eq!(first, LinkId::new(TransportId(4), 1));
    assert!(t.carries(first));
    assert!(!t.carries(LinkId::new(TransportId(4), 2)));
    t.ended();
    assert!(!t.carries(first));
    assert!(t.dial());
    let second = t.connected();
    assert_ne!(first, second);
    assert!(!t.close(first));
    assert!(t.close(second) && !t.carries(second));
}

#[test]
fn a_cable_is_no_place_for_files() {
    let a = UsbTransport::new(TransportId(4)).attrs();
    assert_eq!(a.kind, TransportKind::Custom("usb"));
    assert_eq!((a.bulk, a.latency), (BulkSupport::Unsupported, LatencyClass::Loopback));
    assert_eq!(a.max_message, MAX_FRAME);
}

#[test]
fn one_proxy_runs_for_one_device() {
    let mut t = UsbTransport::new(TransportId(4));
    assert!(t.needs_iproxy("a"));
    assert!(!t.needs_iproxy("a"));
    assert!(t.needs_iproxy("b"));
    assert!(t.needs_iproxy("a"));
}

#[test]
fn a_frames_length_is_four_bytes() {
    assert_eq!(frame_header(0x01_02_03), Some([0, 1, 2, 3]));
    assert_eq!(frame_length([0, 1, 2, 3]), Ok(0x01_02_03));
    assert_eq!(frame_length([0, 0x10, 0, 0]), Ok(MAX_FRAME));
    assert_eq!(
        frame_length([0, 0x10, 0, 1]),
        Err("frame of 1048577 bytes exceeds the 1048576 cap".to_string())
    );
    for n in [0usize, 255, 256, 65_536, 1_000_000] {
        assert_eq!(frame_length(frame_header(n).unwrap()), Ok(n as u32));
    }
    assert_eq!(frame_header(1 << 32), None);
}

#[test]
fn a_dial_over_the_cable_is_given_up_in_the_end() {
    assert!(try_again(0) && try_again(ATTEMPTS - 1) && !try_again(ATTEMPTS));
    assert_eq!(gave_up("refused"), "could not reach iproxy: refused");
    assert_eq!(forward_arg(), "1972:1972");
    assert_eq!(down_reason(ReadEnd::Closed), LinkDownReason::Closed);
}

#[test]
fn a_copy_is_reported_once() {
    let mut w = Watch::new();
    assert_eq!(w.see(Some(b"a".to_vec())), Some(b"a".to_vec()));
    assert_eq!(w.see(Some(b"a".to_vec())), None);
    assert_eq!(w.see(None), None);
    assert_eq!(w.see(Some(b"a".to_vec())), Some(b"a".to_vec()));
}

#[test]
fn the_user_is_the_first_number_on_its_line() {
    let status = "Name:\tacryliusd\nUmask:\t0022\nUid:\t1000\t1001\t1002\t1003\nGid:\t7\t7\t7\t7\n";
    assert_eq!(uid(status), 1000);
    assert_eq!(uid("Name:\tx\n"), u32::MAX);
    assert_eq!(uid("Uid:\tx\n"), u32::MAX);
    assert_eq!(uid(""), u32::MAX);
}
