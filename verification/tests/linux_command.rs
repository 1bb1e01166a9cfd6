//! The commands a machine has offered, and what is reported of a run.
use acrylius::linux::command::{
    exited, CommandCatalog, CommandSpec, Drained, DEFAULT_OUTPUT_CAP, DEFAULT_TIMEOUT_SECS,
};

fn spec(program: &str) -> CommandSpec {
    CommandSpec {
        name: "test".to_string(),
        program: program.to_string(),
        args: Vec::new(),
        needs_confirm: false,
        timeout_secs: None,
    }
}

fn catalog(pairs: &[(&str, &str)]) -> CommandCatalog {
    CommandCatalog::new(
        pairs
            .iter()
            .map(|(k, v)| ((*k).to_string(), spec(v)))
            .collect(),
    )
}

#[test]
fn a_relative_program_is_refused_at_load_time() {
    let c = catalog(&[("x", "true")]);
    assert!(c.validate().is_err());
}

#[test]
fn an_absolute_program_is_accepted() {
    assert!(catalog(&[("x", "/bin/true")]).validate().is_ok());
}

#[test]
fn the_manifest_does_not_leak_what_a_command_runs() {
    let c = catalog(&[("screenshot", "/usr/bin/grim")]);
    let m = c.manifest();
    assert_eq!(m.len(), 1);
    assert_eq!(m[0].id, "screenshot");
    let rendered = format!("{m:?}");
    assert!(
        !rendered.contains("grim"),
        "a peer has no business knowing the program"
    );
}

#[test]
fn the_manifest_is_in_the_order_of_ids() {
    let c = catalog(&[("b", "/2"), ("a", "/1"), ("b", "/3")]);
    let ids: Vec<String> = c.manifest().into_iter().map(|e| e.id).collect();
    assert_eq!(ids, vec!["a".to_string(), "b".to_string()]);
    assert_eq!(c.get("b").map(|s| s.program.as_str()), Some("/3"));
    assert!(c.get("c").is_none());
    assert!(!c.is_empty());
    assert!(catalog(&[]).is_empty());
}

#[test]
fn a_command_without_a_timeout_gets_the_default() {
    assert_eq!(spec("/x").timeout_secs(), DEFAULT_TIMEOUT_SECS);
    let mut s = spec("/x");
    s.timeout_secs = Some(3);
    assert_eq!(s.timeout_secs(), 3);
}

#[test]
fn what_a_run_came_to_is_its_exit_code() {
    let e = exited(1, Some((Some(0), false)));
    assert_eq!((e.run_id, e.code, e.truncated), (1, 0, false));
    let e = exited(4, Some((Some(1), true)));
    assert_eq!((e.run_id, e.code, e.truncated), (4, 1, true));
}

#[test]
fn a_run_that_was_killed_says_so() {
    let e = exited(3, None);
    assert_eq!((e.run_id, e.code, e.truncated), (3, -1, true));
    let by_signal = exited(5, Some((None, false)));
    assert_eq!((by_signal.code, by_signal.truncated), (-1, false));
}

#[test]
fn output_past_the_cap_is_noticed() {
    let mut d = Drained::new();
    d.more(DEFAULT_OUTPUT_CAP);
    assert!(!d.over(DEFAULT_OUTPUT_CAP));
    d.more(1);
    assert!(d.over(DEFAULT_OUTPUT_CAP));
}
