//! What the Bluetooth end decides between one signal of bluetoothd's and the next.
use acrylius::link::{LinkAttrs, LinkDownReason, LinkId, TransportId};
use acrylius::linux::ble::{
    encode_identity, payload, reconcile, usable, BleTransport, Characteristic, Reconcile, ADV_PATH,
    ADVERT_COOLDOWN_MS, APP_PATH, DISCOVERABLE, DISCOVERABLE_TIMEOUT, FALLBACK_MTU, IDENTITY_PATH,
    RX_PATH, SERVICE_PATH, SUPERVISE_EVERY_MS, TX_PATH,
};
use acrylius::vocab::{DialToken, Event};

#[test]
fn the_tree_nests_the_way_bluetoothd_requires() {
    // A flat tree registers and then publishes nothing.
    for c in [IDENTITY_PATH, RX_PATH, TX_PATH] {
        assert!(c.starts_with(&format!("{SERVICE_PATH}/")), "{c}");
    }
    assert!(SERVICE_PATH.starts_with(&format!("{APP_PATH}/")));
    assert!(!ADV_PATH.starts_with(&format!("{APP_PATH}/")));
}

#[test]
fn every_characteristic_has_its_own_path_and_uuid() {
    let paths = [IDENTITY_PATH, RX_PATH, TX_PATH];
    let all = [Characteristic::Identity, Characteristic::Rx, Characteristic::Tx];
    for i in 0..3 {
        assert_eq!(all[i].path(), paths[i]);
        for j in (i + 1)..3 {
            assert_ne!(paths[i], paths[j]);
            assert_ne!(all[i], all[j]);
        }
    }
}

#[test]
fn the_advertisement_never_stops_being_discoverable() {
    // Anything but zero makes the desktop silently vanish minutes after it
    // appears.
    assert!(DISCOVERABLE, "or no Flags element is emitted at all");
    assert_eq!(
        DISCOVERABLE_TIMEOUT, 0,
        "a desktop is not discoverable for three minutes; it is discoverable"
    );
}

#[test]
fn a_working_link_is_never_disturbed_to_fix_a_problem_it_does_not_have() {
    // Re-registering would drop a connected phone mid-session.
    assert_eq!(reconcile(Some(true), true, 0), Reconcile::Nothing);
    assert_eq!(reconcile(Some(true), true, 1), Reconcile::Nothing);
}

#[test]
fn a_central_that_is_gone_is_noticed_whether_or_not_anyone_said_so() {
    assert_eq!(reconcile(Some(false), true, 0), Reconcile::CentralGone);
    // Even when bluetoothd still counts an instance it is not broadcasting.
    assert_eq!(reconcile(Some(false), true, 1), Reconcile::CentralGone);
}

#[test]
fn an_advertisement_that_is_not_on_the_air_is_put_back() {
    // Covers both "dropped" and "never registered"; indistinguishable here.
    assert_eq!(reconcile(None, true, 0), Reconcile::Readvertise);
}

#[test]
fn nothing_is_registered_behind_the_owners_back() {
    // Recovering an advertisement nobody asked for would override
    // `ble.enabled = false`.
    assert_eq!(reconcile(None, false, 0), Reconcile::Nothing);
    assert_eq!(reconcile(None, true, 1), Reconcile::Nothing);
}

#[test]
fn no_characteristic_asks_for_encryption() {
    // An `encrypt-*`/`secure-*` flag raises an iOS pairing dialog; Noise is
    // the security boundary here.
    let flags = [
        Characteristic::Identity.flag(),
        Characteristic::Rx.flag(),
        Characteristic::Tx.flag(),
    ];
    for f in flags {
        assert!(
            !f.contains("encrypt") && !f.contains("secure"),
            "{f} would force bonding"
        );
    }
}

#[test]
fn identity_carries_the_same_facts_as_a_txt_record() {
    let txt = vec![
        ("v".to_string(), "1".to_string()),
        ("fp".to_string(), "abc".to_string()),
    ];
    assert_eq!(encode_identity(&txt), b"v=1\nfp=abc");
}

/// A transport holding a link to `device`.
fn holding(device: &str) -> BleTransport {
    let mut t = BleTransport::new(TransportId(2), "test".to_string());
    let w = t.write(device, Some(517), false);
    assert_eq!(w.taken, Some(true));
    t
}

#[test]
fn a_departing_central_frees_the_link_for_the_next_one() {
    let mut shared = holding("/org/bluez/hci0/dev_75_C3_D4_C8_ED_AB");
    assert!(shared.holder().is_some());
    let Some(Event::LinkDown {
        link,
        reason: LinkDownReason::Closed,
    }) = shared.drop_link_for("/org/bluez/hci0/dev_75_C3_D4_C8_ED_AB")
    else {
        panic!("the departure was not reported");
    };
    assert!(shared.holder().is_none());
    assert_eq!(shared.mtu_of(link), None);
    // Two signals can describe one departure; the core is told once.
    assert!(shared
        .drop_link_for("/org/bluez/hci0/dev_75_C3_D4_C8_ED_AB")
        .is_none());
}

#[test]
fn an_unrelated_bluetooth_device_is_not_mistaken_for_the_phone() {
    // Acting on every device meant headphones disconnecting could drop the
    // phone's session.
    let shared = holding("/org/bluez/hci0/dev_4B_FD_BC_CC_54_FD");
    assert!(shared.is_ours("/org/bluez/hci0/dev_4B_FD_BC_CC_54_FD"));
    assert!(!shared.is_ours("/org/bluez/hci0/dev_AD_03_00_00_36_33"));
}

#[test]
fn a_central_that_never_wrote_still_counts_as_ours() {
    // Its connection still took the advertisement off the air.
    let mut shared = BleTransport::new(TransportId(2), "test".to_string());
    shared.read_identity(Some("/org/bluez/hci0/dev_7E_46_81_5F_49_2D"));

    assert!(shared.is_ours("/org/bluez/hci0/dev_7E_46_81_5F_49_2D"));
    assert!(!shared.is_ours("/org/bluez/hci0/dev_AD_03_00_00_36_33"));
}

#[test]
fn a_central_subscribing_again_retires_the_link_it_had() {
    // A force-quit phone can reconnect before bluetoothd retires the
    // device on the same address; the stale link record must not be reused.
    let device = "/org/bluez/hci0/dev_75_C3_D4_C8_ED_AB";
    let mut shared = holding(device);

    assert!(
        matches!(shared.start_notify(), Some(Event::LinkDown { .. })),
        "the core is told, rather than left holding a link nobody is on"
    );
    assert!(
        shared.drop_link_for(device).is_none(),
        "a subscription is the start of a session, so the old one is over"
    );
}

#[test]
fn a_first_subscription_has_nothing_to_retire() {
    let mut shared = BleTransport::new(TransportId(2), "test".to_string());
    assert!(shared.start_notify().is_none(), "nothing to report on a fresh link");
}

#[test]
fn some_other_device_leaving_does_not_touch_our_link() {
    let mut shared = holding("/org/bluez/hci0/dev_75_C3_D4_C8_ED_AB");
    assert!(shared
        .drop_link_for("/org/bluez/hci0/dev_AA_BB_CC_DD_EE_FF")
        .is_none());
    assert!(shared
        .drop_link_for("/org/bluez/hci0/dev_75_C3_D4_C8_ED_AB")
        .is_some());
}

#[test]
fn link_ids_are_namespaced_so_tcp_and_ble_cannot_collide() {
    let mut t = BleTransport::new(TransportId(2), "test".to_string());
    let w = t.write("/org/bluez/hci0/dev_1", None, false);
    let Some(Event::LinkUp { link: first, attrs, dial: None }) = w.events.first() else {
        panic!("a first write opens a link")
    };
    assert_eq!(first.transport(), TransportId(2));
    assert_ne!(*first, LinkId::new(TransportId(1), 1));
    assert_eq!(*attrs, LinkAttrs::ble(TransportId(2)));
    assert_eq!(t.mtu_of(*first), Some(FALLBACK_MTU));
}

#[test]
fn a_second_central_has_to_wait_for_the_first() {
    let mut t = holding("/phone/a");
    assert_eq!(t.other_holder("/phone/b").as_deref(), Some("/phone/a"));
    assert_eq!(t.other_holder("/phone/a"), None);
    let w = t.write("/phone/b", Some(100), true);
    assert!(w.events.is_empty() && w.taken.is_none(), "the first is still connected");
    let w = t.write("/phone/b", Some(100), false);
    assert_eq!(w.taken, Some(true));
    assert_eq!(w.events.len(), 2, "the first is retired, the second is up");
}

#[test]
fn a_message_is_handed_on_when_its_last_fragment_is_in() {
    let mut t = holding("/phone/a");
    assert!(t.reassembled(Ok(None)).is_none());
    assert!(matches!(
        t.reassembled(Ok(Some(b"whole".to_vec()))),
        Some(Event::LinkRecv { msg, .. }) if msg == b"whole"
    ));
    assert!(matches!(
        t.reassembled(Err("out of order".to_string())),
        Some(Event::LinkDown { .. })
    ));
}

#[test]
fn a_burst_of_departures_readvertises_once() {
    assert!(ADVERT_COOLDOWN_MS < SUPERVISE_EVERY_MS);
    let mut t = BleTransport::new(TransportId(2), "test".to_string());
    let txt = vec![("v".to_string(), "1".to_string())];
    assert_eq!(t.advertise(true, &txt), Some(true));
    assert!(t.readvertise(10_000));
    assert!(!t.readvertise(10_000 + ADVERT_COOLDOWN_MS - 1));
    assert!(t.readvertise(10_000 + ADVERT_COOLDOWN_MS));
    assert_eq!(t.read_identity(None), b"v=1");
}

#[test]
fn a_notification_carries_the_mtu_less_its_header() {
    assert_eq!(payload(517), 514);
    assert_eq!(payload(FALLBACK_MTU), 20);
    assert_eq!(payload(0), 2);
}

#[test]
fn an_adapter_has_to_be_on_and_able() {
    let both = vec!["central".to_string(), "peripheral".to_string()];
    assert!(usable(true, &both));
    assert!(!usable(false, &both));
    assert!(!usable(true, &vec!["central".to_string()]));
}

#[test]
fn a_peripheral_is_found_and_never_dials() {
    let t = BleTransport::new(TransportId(2), "desktop".to_string());
    assert_eq!((t.id(), t.name()), (TransportId(2), "desktop"));
    assert!(matches!(
        t.dial(DialToken(7)),
        Event::DialFailed { dial: DialToken(7), .. }
    ));
}

#[test]
fn a_departure_frees_no_link_that_another_took_meanwhile() {
    let mut t = holding("dev_a");
    let asked = t.holder();
    assert_eq!(asked.as_deref(), Some("dev_a"));
    // While bluetoothd is asked after the first, the second takes the link.
    assert!(t.drop_link_for("dev_a").is_some());
    assert_eq!(t.write("dev_b", Some(100), false).taken, Some(true));
    let (decision, told) = t.supervise(asked.as_deref(), Some(false), 0);
    assert_eq!(decision, Reconcile::CentralGone);
    assert!(told.is_none());
    assert_eq!(t.holder().as_deref(), Some("dev_b"));

    let (_, told) = t.supervise(Some("dev_b"), Some(false), 0);
    assert!(matches!(told, Some(Event::LinkDown { .. })));
    assert_eq!(t.holder(), None);
}
