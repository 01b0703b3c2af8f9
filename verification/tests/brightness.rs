use hub75::brightness::threshold;
use hub75::Hub75;

#[test]
fn count_is_two_to_the_bits_minus_one() {
    for bits in 1u8..=8 {
        let hub = Hub75::new((), bits);
        assert_eq!(hub.brightness_bits(), bits);
        assert_eq!(hub.brightness_count() as u32, (1u32 << bits) - 1);
    }
}

#[test]
fn step_is_two_to_the_missing_bits() {
    for bits in 1u8..=8 {
        let hub = Hub75::new((), bits);
        assert_eq!(hub.brightness_step() as u32, 1u32 << (8 - bits));
    }
}

#[test]
fn count_and_step_cover_the_range() {
    for bits in 1u8..=8 {
        let hub = Hub75::new((), bits);
        let count = hub.brightness_count() as u32;
        let step = hub.brightness_step() as u32;
        assert_eq!(count * step, 256 - step);
        assert!(count * step <= 255);
        assert!(255 - count * step < step);
    }
}

#[test]
fn derived_constants_at_the_ends() {
    let coarse = Hub75::new((), 1);
    assert_eq!((coarse.brightness_step(), coarse.brightness_count()), (128, 1));
    let usual = Hub75::new((), 3);
    assert_eq!((usual.brightness_step(), usual.brightness_count()), (32, 7));
    let fine = Hub75::new((), 8);
    assert_eq!((fine.brightness_step(), fine.brightness_count()), (1, 255));
}

#[test]
fn threshold_is_a_multiple_of_the_step() {
    assert_eq!(threshold(0, 128), 128);
    assert_eq!(threshold(0, 32), 32);
    assert_eq!(threshold(6, 32), 224);
    assert_eq!(threshold(0, 1), 1);
    assert_eq!(threshold(127, 1), 128);
    assert_eq!(threshold(254, 1), 255);
}

#[test]
fn threshold_saturates_at_255() {
    assert_eq!(threshold(1, 128), 255);
    assert_eq!(threshold(7, 32), 255);
    assert_eq!(threshold(255, 1), 255);
    assert_eq!(threshold(255, 255), 255);
    assert_eq!(threshold(0, 255), 255);
}

#[test]
fn no_threshold_of_a_refresh_saturates() {
    for bits in 1u8..=8 {
        let hub = Hub75::new((), bits);
        let step = hub.brightness_step();
        for subframe in 0..hub.brightness_count() {
            let exact = (subframe as u32 + 1) * step as u32;
            assert!(exact <= 255);
            assert_eq!(threshold(subframe, step) as u32, exact);
        }
    }
}
