use soundpool::pressure::{clamp_permille, ram_usage, usage_of_sample, usage_permille};

#[test]
fn clamp_negative_is_zero() {
    assert_eq!(clamp_permille(-1), 0);
    assert_eq!(clamp_permille(-1_000_000), 0);
}

#[test]
fn clamp_above_full_is_full() {
    assert_eq!(clamp_permille(1001), 1000);
    assert_eq!(clamp_permille(1_000_000), 1000);
}

#[test]
fn clamp_in_range_unchanged() {
    assert_eq!(clamp_permille(0), 0);
    assert_eq!(clamp_permille(700), 700);
    assert_eq!(clamp_permille(1000), 1000);
}

#[test]
fn usage_of_broken_probe_is_neutral() {
    assert_eq!(usage_permille(123, 0), 500);
}

#[test]
fn usage_exact_fractions() {
    assert_eq!(usage_permille(500, 1000), 500);
    assert_eq!(usage_permille(0, 4), 1000);
    assert_eq!(usage_permille(3, 4), 250);
    assert_eq!(usage_permille(1000, 1000), 0);
    // More available than total: clamps at the floor.
    assert_eq!(usage_permille(2000, 1000), 0);
}

#[test]
fn failed_probe_yields_the_neutral_value() {
    assert_eq!(usage_of_sample(None), 500);
}

#[test]
fn successful_probe_yields_its_usage() {
    assert_eq!(usage_of_sample(Some((1, 4))), 750);
    assert_eq!(usage_of_sample(Some((4, 4))), 0);
}

#[test]
fn ram_usage_is_in_range() {
    let r = ram_usage();
    assert!((0..=1000).contains(&r));
}
