//! What a machine offers, and what an effect comes to on it.
use acrylius::linux::command::{exited, CommandCatalog, CommandSpec};
use acrylius::linux::effector::{
    answer_clipboard, answer_done, answer_wake, answer_with, Abilities, LinuxEffector,
    WolSettings, Work,
};
use acrylius::vocab::{Effect, EffectKind, EffectResult, MediaAction};

fn bare() -> Abilities {
    Abilities {
        session: false,
        wayland: false,
        media: false,
        touchpad: false,
    }
}

fn wol() -> WolSettings {
    WolSettings {
        allowlist: vec![],
        broadcast: "255.255.255.255".to_string(),
        port: 9,
    }
}

fn with(entries: Vec<(String, CommandSpec)>, abilities: Abilities) -> LinuxEffector {
    LinuxEffector::new(CommandCatalog::new(entries), wol(), abilities)
}

fn no_op() -> Vec<(String, CommandSpec)> {
    vec![(
        "true".to_string(),
        CommandSpec {
            name: "No-op".to_string(),
            program: "/bin/true".to_string(),
            args: Vec::new(),
            needs_confirm: false,
            timeout_secs: None,
        },
    )]
}

#[test]
fn a_machine_with_no_commands_does_not_offer_the_capability() {
    let mut e = with(vec![], bare());
    assert!(
        !e.supported().contains(&EffectKind::Command),
        "an empty catalog means the capability is absent, not empty"
    );
    // And asking anyway is refused rather than run.
    let r = e.start(Effect::RunCommand {
        id: "anything".to_string(),
    });
    assert!(matches!(r, Work::Answer(EffectResult::Failed(_))));
}

#[test]
fn waking_is_always_offered() {
    // A UDP send needs nothing from the desktop, so headless machines relay too.
    let e = with(vec![], bare());
    assert!(e.supported().contains(&EffectKind::Wol));
}

#[test]
fn a_configured_catalog_turns_the_capability_on() {
    let mut e = with(no_op(), bare());
    assert!(e.supported().contains(&EffectKind::Command));
    let Work::Run { spec, run_id } = e.start(Effect::RunCommand {
        id: "true".to_string(),
    }) else {
        panic!("a configured command is run")
    };
    assert_eq!((spec.program.as_str(), run_id), ("/bin/true", 1));
    // `/bin/true` ends with code 0.
    assert!(matches!(
        answer_with(Ok(exited(run_id, Some((Some(0), false))))),
        EffectResult::Done(_)
    ));
}

#[test]
fn each_run_has_a_number_of_its_own() {
    let mut e = with(no_op(), bare());
    for expected in 1..4 {
        let w = e.start(Effect::RunCommand { id: "true".to_string() });
        assert!(matches!(w, Work::Run { run_id, .. } if run_id == expected));
    }
}

#[test]
fn a_machine_says_no_to_what_it_lacks() {
    let mut e = with(vec![], bare());
    for effect in [
        Effect::QuerySession,
        Effect::LockSession,
        Effect::UnlockSession,
        Effect::ClipboardRead,
        Effect::MediaQuery,
    ] {
        assert!(matches!(e.start(effect), Work::Answer(EffectResult::Unsupported)));
    }
    assert!(matches!(
        e.start(Effect::MediaControl { player: String::new(), action: MediaAction::Play }),
        Work::Answer(EffectResult::Unsupported)
    ));
}

#[test]
fn what_is_there_is_offered() {
    let e = with(
        vec![],
        Abilities { session: true, wayland: true, media: true, touchpad: true },
    );
    let kinds = e.supported();
    for k in [
        EffectKind::Session,
        EffectKind::Clipboard,
        EffectKind::Wol,
        EffectKind::Media,
        EffectKind::Touchpad,
    ] {
        assert!(kinds.contains(&k), "{k:?}");
    }
    assert_eq!(e.wol_settings().port, 9);
    assert_eq!(e.wol_settings().broadcast, "255.255.255.255");
    assert!(e.catalog().is_empty());
}

#[test]
fn an_answer_is_what_the_work_came_to() {
    assert!(matches!(answer_done(Ok(())), EffectResult::Done(_)));
    assert!(matches!(answer_done(Err("x".to_string())), EffectResult::Failed(e) if e == "x"));
    assert!(matches!(
        answer_clipboard(Ok(Some(b"hi".to_vec()))),
        EffectResult::Done(b) if b == b"hi"
    ));
    assert!(matches!(answer_clipboard(Err("x".to_string())), EffectResult::Failed(_)));
    assert!(matches!(answer_wake(Ok(1)), EffectResult::Done(_)));
    assert!(matches!(answer_wake(Err("x".to_string())), EffectResult::Failed(_)));
}
