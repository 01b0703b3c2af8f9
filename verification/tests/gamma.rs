use hub75::gamma::{gamma8, GAMMA8};

#[test]
fn gamma_never_decreases() {
    for level in 0u8..255 {
        assert!(gamma8(level) <= gamma8(level + 1), "at level {}", level);
    }
}

#[test]
fn gamma_keeps_the_ends() {
    assert_eq!(gamma8(0), 0);
    assert_eq!(gamma8(255), 255);
}

#[test]
fn gamma_of_half_level_is_36() {
    assert_eq!(gamma8(127), 36);
    assert_eq!(gamma8(128), 37);
}

#[test]
fn gamma_is_the_table() {
    assert_eq!(GAMMA8.len(), 256);
    for level in 0u8..=255 {
        assert_eq!(gamma8(level), GAMMA8[level as usize]);
    }
    assert_eq!(gamma8(27), 0);
    assert_eq!(gamma8(28), 1);
    assert_eq!(gamma8(64), 5);
    assert_eq!(gamma8(200), 129);
    assert_eq!(gamma8(202), 133);
    assert_eq!(gamma8(254), 252);
}
