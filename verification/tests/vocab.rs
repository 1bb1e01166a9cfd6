//! The words a core and its host share.
use acrylius::vocab::{EffectKind, EffectSet};

#[test]
fn a_set_of_effects_is_its_members() {
    let (a, b) = (EffectKind::Media, EffectKind::Touchpad);
    let set = EffectSet::new(&vec![a, b]);
    assert_eq!(set, EffectSet::new(&vec![b, a, b]));
    assert_ne!(set, EffectSet::new(&vec![a]));
    assert!(set.contains(a) && set.contains(b));
    assert!(!set.contains(EffectKind::Wol));
}

#[test]
fn no_effects_are_the_default() {
    assert_eq!(EffectSet::new(&vec![]), EffectSet::default());
    assert!(!EffectSet::default().contains(EffectKind::Session));
    assert!(EffectSet::all().contains(EffectKind::Custom));
}
