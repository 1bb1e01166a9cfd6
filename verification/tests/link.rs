//! What links are called and what they can do.
use acrylius::link::{LinkAttrs, LinkId, Routes, TransportId, DEAD_PEER_MS, DIAL_TIMEOUT_MS};

#[test]
fn two_transports_counting_from_one_do_not_collide() {
    let a = LinkId::new(TransportId(1), 1);
    let b = LinkId::new(TransportId(2), 1);
    assert_ne!(a, b, "the whole point of naming the transport in the id");
    assert_eq!(a.transport(), TransportId(1));
    assert_eq!(b.transport(), TransportId(2));
}

#[test]
fn a_counter_that_overflows_its_field_stays_in_its_own_transport() {
    // Wrapping is survivable; leaking into another transport's range is not.
    let huge = LinkId::new(TransportId(7), u64::MAX);
    assert_eq!(huge.transport(), TransportId(7));
}

#[test]
fn a_lossy_link_may_not_use_a_stateful_cipher() {
    let mut attrs = LinkAttrs::tcp_lan(TransportId(0));
    assert!(attrs.supports_stateful_cipher());
    attrs.ordered = false;
    assert!(!attrs.supports_stateful_cipher());
    attrs.ordered = true;
    attrs.reliable = false;
    assert!(!attrs.supports_stateful_cipher());
}

#[test]
fn an_id_is_the_transport_and_the_counter_side_by_side() {
    assert_eq!(LinkId::new(TransportId(2), 5), LinkId(0x0002_0000_0000_0005));
    assert_eq!(LinkId::new(TransportId(0), 0), LinkId(0));
    assert_eq!(LinkId::new(TransportId(7), u64::MAX), LinkId(0x0007_ffff_ffff_ffff));
}

#[test]
fn routes_are_walked_from_the_lowest_transport_up() {
    let mut r = Routes::new();
    assert!(r.is_empty());
    r.set(TransportId(3), "radio".to_string());
    r.set(TransportId(1), "cable".to_string());
    r.set(TransportId(3), "radio, moved".to_string());
    assert_eq!(
        r.in_preference_order(),
        vec![
            (TransportId(1), "cable".to_string()),
            (TransportId(3), "radio, moved".to_string()),
        ]
    );
}

#[test]
fn only_the_address_on_file_is_forgotten() {
    let mut r = Routes::new();
    r.set(TransportId(1), "new".to_string());
    assert!(!r.forget(TransportId(1), "old"));
    assert!(!r.forget(TransportId(2), "new"));
    assert!(r.forget(TransportId(1), "new"));
    assert!(r.is_empty());
}

#[test]
fn what_another_knows_wins_where_both_have_an_answer() {
    let mut ours = Routes::new();
    ours.set(TransportId(0), "a".to_string());
    ours.set(TransportId(1), "b".to_string());
    let mut theirs = Routes::new();
    theirs.set(TransportId(1), "c".to_string());
    ours.merge_from(&theirs);
    assert_eq!(
        ours.clone().in_preference_order(),
        vec![
            (TransportId(0), "a".to_string()),
            (TransportId(1), "c".to_string()),
        ]
    );
}

#[test]
fn a_dial_is_given_up_on_before_a_silent_peer_is() {
    assert_eq!((DIAL_TIMEOUT_MS, DEAD_PEER_MS), (6_000, 20_000));
}
