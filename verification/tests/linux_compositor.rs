//! Which compositor sockets are worth asking, and in what order.
use acrylius::linux::compositor::{newest_first, order, says_locked};

fn hypr() -> String {
    "/run/user/1000/hypr".to_string()
}

fn inside(name: &str) -> String {
    format!("{}/{name}", hypr())
}

fn socket(name: &str) -> String {
    format!("{}/.socket.sock", inside(name))
}

#[test]
fn a_signature_with_a_separator_is_not_used_as_a_path() {
    // A traversal here would connect to an arbitrary socket.
    let out = order(&hypr(), Some("../../../tmp/evil"), &vec![]);
    assert!(
        out.is_empty(),
        "a signature containing separators must be ignored"
    );
}

#[test]
fn the_signature_is_tried_first_then_newest_first() {
    // The signature can be stale after a restart, but still worth trying first.
    let out = order(&hypr(), Some("stale"), &vec![inside("newest"), inside("older")]);
    assert_eq!(out, vec![socket("stale"), socket("newest"), socket("older")]);
}

#[test]
fn the_signature_is_not_tried_twice() {
    let out = order(&hypr(), Some("live"), &vec![inside("live")]);
    assert_eq!(out.len(), 1);
}

#[test]
fn no_signature_still_scans() {
    let out = order(&hypr(), None, &vec![inside("only")]);
    assert_eq!(out, vec![socket("only")]);
}

#[test]
fn a_separator_at_either_end_is_one_too() {
    for sig in ["/", "x/", "/x", "//", ""] {
        assert!(order(&hypr(), Some(sig), &vec![]).is_empty(), "{sig:?}");
    }
    assert_eq!(order(&hypr(), Some("x"), &vec![]), vec![socket("x")]);
}

#[test]
fn the_freshest_directory_comes_first_and_ties_keep_their_order() {
    let found = vec![
        (10, "a".to_string()),
        (30, "b".to_string()),
        (10, "c".to_string()),
        (-5, "d".to_string()),
        (30, "e".to_string()),
    ];
    assert_eq!(newest_first(found), vec!["b", "e", "a", "c", "d"]);
    assert!(newest_first(vec![]).is_empty());
}

#[test]
fn a_reply_says_whether_the_screen_is_locked_or_nothing() {
    assert_eq!(says_locked(r#"{"locked": true}"#), Some(true));
    assert_eq!(says_locked(r#"{"other": 1, "locked": false}"#), Some(false));
    assert_eq!(says_locked(r#"{"locked": "yes"}"#), None);
    assert_eq!(says_locked(r#"{"unlocked": true}"#), None);
    assert_eq!(says_locked("[true]"), None);
    assert_eq!(says_locked("unknown request"), None);
    assert_eq!(says_locked(""), None);
}
