//! Setting the machine's volume, step by step.
use acrylius::linux::mixer::{first_step, next_step, Step};

/// The steps taken where the tools answer so, and the one it ends with.
fn walk(percent: u8, mut ran: impl FnMut(Step) -> bool) -> Vec<Step> {
    let mut steps = vec![first_step()];
    loop {
        let last = steps[steps.len() - 1];
        if last == Step::ReadBack || last == Step::GiveUp {
            return steps;
        }
        steps.push(next_step(last, ran(last), percent));
    }
}

#[test]
fn the_first_tool_is_enough() {
    assert_eq!(
        walk(40, |_| true),
        vec![Step::SetWithWpctl, Step::UnmuteWithWpctl, Step::ReadBack]
    );
}

#[test]
fn a_machine_with_only_the_second_tool_is_set_and_unmuted_with_it() {
    let steps = walk(40, |s| s == Step::SetWithPactl || s == Step::UnmuteWithPactl);
    assert_eq!(
        steps,
        vec![
            Step::SetWithWpctl,
            Step::SetWithPactl,
            Step::UnmuteWithWpctl,
            Step::UnmuteWithPactl,
            Step::ReadBack,
        ]
    );
}

#[test]
fn silence_is_not_unmuted() {
    assert_eq!(walk(0, |_| true), vec![Step::SetWithWpctl, Step::ReadBack]);
}

#[test]
fn no_tool_at_all_gives_up() {
    assert_eq!(
        walk(40, |_| false),
        vec![Step::SetWithWpctl, Step::SetWithPactl, Step::GiveUp]
    );
}

#[test]
fn a_mute_that_stays_is_still_read_back() {
    let steps = walk(1, |s| s == Step::SetWithWpctl);
    assert_eq!(
        steps,
        vec![
            Step::SetWithWpctl,
            Step::UnmuteWithWpctl,
            Step::UnmuteWithPactl,
            Step::ReadBack,
        ]
    );
}
