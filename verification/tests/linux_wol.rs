//! Magic packets.
use acrylius::linux::wol::{build, packets, parse_mac, sent, NOTHING_SENT};

const MAC: [u8; 6] = [0x00, 0x11, 0x22, 0x33, 0x44, 0x55];

#[test]
fn wol_a_mac_can_be_written_three_ways() {
    for spelling in ["00:11:22:33:44:55", "00-11-22-33-44-55", "001122334455"] {
        assert_eq!(parse_mac(spelling).unwrap(), MAC, "{spelling} should parse");
    }
}

#[test]
fn upper_and_lower_case_agree() {
    assert_eq!(
        parse_mac("AA:BB:CC:DD:EE:FF").unwrap(),
        parse_mac("aa:bb:cc:dd:ee:ff").unwrap()
    );
}

#[test]
fn wol_anything_that_is_not_a_mac_is_refused() {
    for junk in [
        "",
        "00:11:22:33:44",
        "00:11:22:33:44:55:66",
        "zz:zz:zz:zz:zz:zz",
    ] {
        assert!(parse_mac(junk).is_err(), "{junk:?} should not parse");
    }
}

#[test]
fn the_packet_is_the_shape_the_hardware_looks_for() {
    let p = build(MAC, None);
    assert_eq!(p.len(), 102);
    assert_eq!(&p[..6], &[0xFF; 6]);
    // Sixteen repetitions, checked at both ends rather than just the first.
    assert_eq!(&p[6..12], &MAC);
    assert_eq!(&p[96..102], &MAC);
    for chunk in p[6..].chunks(6) {
        assert_eq!(chunk, &MAC);
    }
}

#[test]
fn a_secureon_password_adds_six_bytes_at_the_end() {
    let password = [1, 2, 3, 4, 5, 6];
    let p = build(MAC, Some(password));
    assert_eq!(p.len(), 108);
    assert_eq!(&p[102..], &password);
}

#[test]
fn one_bad_address_sends_nothing() {
    let good = "00:11:22:33:44:55".to_string();
    assert_eq!(packets(&vec![good.clone()]).unwrap(), vec![build(MAC, None)]);
    assert!(packets(&vec![good, "nope".to_string()]).is_err());
}

#[test]
fn a_wake_that_sent_nothing_failed() {
    assert_eq!(sent(2), Ok(2));
    assert_eq!(sent(0), Err(NOTHING_SENT.to_string()));
}
