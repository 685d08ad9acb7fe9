use sentinel_agent::severity::Severity;
use std::cmp::Ordering;

#[test]
fn levels_run_from_one_to_four() {
    assert_eq!(Severity::Low.level(), 1);
    assert_eq!(Severity::Medium.level(), 2);
    assert_eq!(Severity::High.level(), 3);
    assert_eq!(Severity::Critical.level(), 4);
}

#[test]
fn from_level_inverts_level() {
    for label in [Severity::Low, Severity::Medium, Severity::High, Severity::Critical] {
        assert_eq!(Severity::from_level(label.level()), Some(label));
    }
    assert_eq!(Severity::from_level(0), None);
    assert_eq!(Severity::from_level(5), None);
    assert_eq!(Severity::from_level(255), None);
}

#[test]
fn labels_are_totally_ordered() {
    assert!(Severity::Low < Severity::Medium);
    assert!(Severity::Medium < Severity::High);
    assert!(Severity::High < Severity::Critical);
    assert!(Severity::Low < Severity::Critical);
    assert!(Severity::Critical > Severity::Low);
    assert!(Severity::High >= Severity::High);
    assert!(Severity::High <= Severity::High);
    assert!(!(Severity::High < Severity::High));
    assert!(!(Severity::Critical < Severity::Medium));
}

#[test]
fn partial_cmp_follows_the_levels() {
    let all = [Severity::Low, Severity::Medium, Severity::High, Severity::Critical];
    for a in all {
        for b in all {
            assert_eq!(a.partial_cmp(&b), Some(a.level().cmp(&b.level())));
            assert_eq!(a == b, a.partial_cmp(&b) == Some(Ordering::Equal));
        }
    }
}
