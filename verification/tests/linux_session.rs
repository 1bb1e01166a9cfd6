//! Which login session a request means, and whether it was done.
use acrylius::linux::session::{
    is_candidate, plan, rank_for_lock, rank_for_unlock, report, resolve_locked, worth_probing,
    Candidate, Commands, Confirm, Plan, NO_SESSION,
};
use acrylius::plugins::session::{LOCK_CONFIRM_MS, UNLOCK_CONFIRM_MS};

fn c(id: &str, locked: bool, active: bool) -> Candidate {
    Candidate {
        id: id.to_string(),
        kind: "wayland".to_string(),
        active,
        locked,
    }
}

#[test]
fn the_two_rankings_disagree_and_that_is_the_point() {
    // Sharing one ranking would make lock target an already-locked session.
    let sessions = vec![c("1", true, true), c("2", false, true)];
    assert_eq!(
        rank_for_unlock(&sessions).unwrap().id,
        "1",
        "unlock wants the locked one"
    );
    assert_eq!(
        rank_for_lock(&sessions).unwrap().id,
        "2",
        "lock wants the unlocked one"
    );
}

#[test]
fn one_session_hides_the_difference() {
    // With one session both rankings agree; the bug above is invisible here.
    let sessions = vec![c("1", false, true)];
    assert_eq!(rank_for_unlock(&sessions).unwrap().id, "1");
    assert_eq!(rank_for_lock(&sessions).unwrap().id, "1");
}

#[test]
fn an_active_session_beats_an_inactive_one_of_the_same_state() {
    let sessions = vec![c("5", false, false), c("9", false, true)];
    assert_eq!(rank_for_lock(&sessions).unwrap().id, "9");
}

#[test]
fn ties_break_on_the_lowest_id_so_the_choice_is_stable() {
    let sessions = vec![c("7", false, true), c("3", false, true)];
    assert_eq!(rank_for_lock(&sessions).unwrap().id, "3");
    assert_eq!(rank_for_lock(&sessions).unwrap().id, "3");
}

#[test]
fn no_sessions_means_no_choice() {
    assert!(rank_for_lock(&[]).is_none());
    assert!(rank_for_unlock(&[]).is_none());
}

#[test]
fn a_hint_of_yes_is_never_second_guessed() {
    // A locker that maintains the hint at all tells the truth when it says locked.
    for probe in [None, Some(false), Some(true)] {
        assert!(resolve_locked(true, "wayland", true, probe));
        assert!(resolve_locked(true, "x11", false, probe));
    }
}

#[test]
fn a_hint_of_no_on_x11_is_taken_at_face_value() {
    // The probe only knows about Wayland; there's nothing to escalate to on x11.
    for probe in [None, Some(false), Some(true)] {
        assert!(!resolve_locked(false, "x11", true, probe));
    }
}

#[test]
fn an_inactive_session_is_not_probed() {
    assert!(!worth_probing(false, "wayland", false));
    for probe in [None, Some(false), Some(true)] {
        assert!(!resolve_locked(false, "wayland", false, probe));
    }
}

#[test]
fn an_active_wayland_session_is_as_locked_as_the_compositor_says() {
    assert!(worth_probing(false, "wayland", true));
    assert!(resolve_locked(false, "wayland", true, Some(true)));
    assert!(!resolve_locked(false, "wayland", true, Some(false)));
    assert!(!resolve_locked(false, "wayland", true, None));
}

#[test]
fn only_this_users_own_screens_count() {
    assert!(is_candidate(1000, 1000, "user", "wayland"));
    assert!(is_candidate(1000, 1000, "user", "x11"));
    assert!(!is_candidate(1001, 1000, "user", "wayland"));
    assert!(!is_candidate(1000, 1000, "greeter", "wayland"));
    assert!(!is_candidate(1000, 1000, "user", "tty"));
}

#[test]
fn a_report_is_of_the_session_being_looked_at() {
    let r = report(&[c("1", false, false), c("2", true, true)]).unwrap();
    assert_eq!((r.session_id.as_str(), r.locked, r.active), ("2", true, true));
    assert_eq!(report(&[]).err().as_deref(), Some(NO_SESSION));
}

#[test]
fn a_request_already_met_sends_nothing() {
    let Ok(Plan::Done(o)) = plan(&[c("1", true, true)], true) else {
        panic!("nothing is left to do")
    };
    assert!(o.was_locked && o.locked);
    assert_eq!(o.session_id, "1");
}

#[test]
fn a_request_waits_as_long_as_its_locker_may_take() {
    assert_eq!(
        plan(&[c("1", false, true)], true),
        Ok(Plan::Change { id: "1".to_string(), confirm_ms: LOCK_CONFIRM_MS })
    );
    assert_eq!(
        plan(&[c("1", true, true)], false),
        Ok(Plan::Change { id: "1".to_string(), confirm_ms: UNLOCK_CONFIRM_MS })
    );
    assert_eq!(plan(&[], true), Err(NO_SESSION.to_string()));
}

#[test]
fn an_outcome_is_what_was_read_back() {
    let mut k = Confirm::new(true);
    assert!(!k.read(None));
    assert!(!k.read(Some(false)));
    let o = k.outcome("1".to_string());
    assert!(!o.was_locked && !o.locked, "it never locked, and says so");
    assert!(k.read(Some(true)));
    assert!(k.outcome("1".to_string()).locked);
}

#[test]
fn a_configured_command_takes_the_place_of_logind() {
    let own = Commands {
        lock: vec!["/usr/bin/swaylock".to_string(), "-f".to_string()],
        unlock: vec![],
    };
    assert_eq!(own.argv(true).map(|a| a.len()), Some(2));
    assert!(own.argv(false).is_none());
}
