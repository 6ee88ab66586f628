use trezor_canvas::backlight::{fade_backlight, Fade, BACKLIGHT_DELAY_MS, BACKLIGHT_STEP};

fn levels(current: i32, target: i32) -> Vec<i32> {
    let mut fade = Fade::new(current, target);
    let mut out = Vec::new();
    while let Some(level) = fade.step() {
        out.push(level);
    }
    assert_eq!(fade.step(), None);
    out
}

#[test]
fn a_rising_fade_starts_at_the_current_level_and_stays_below_the_target() {
    assert_eq!(levels(0, 50), vec![0, 15, 30, 45]);
    assert_eq!(levels(0, 45), vec![0, 15, 30]);
    assert_eq!(levels(10, 11), vec![10]);
    let expected: Vec<i32> = (0..255).step_by(15).collect();
    assert_eq!(levels(0, 255), expected);
}

#[test]
fn a_falling_fade_starts_below_the_current_level_and_stays_at_or_above_the_target() {
    assert_eq!(levels(50, 0), vec![49, 34, 19, 4]);
    assert_eq!(levels(46, 1), vec![45, 30, 15]);
    assert_eq!(levels(45, 0), vec![44, 29, 14]);
    assert_eq!(levels(1, 0), vec![0]);
    let expected: Vec<i32> = (0..255).rev().step_by(15).collect();
    assert_eq!(levels(255, 0), expected);
}

#[test]
fn a_fade_to_the_current_level_sets_nothing() {
    assert_eq!(levels(7, 7), Vec::<i32>::new());
    let fade = Fade::new(7, 7);
    assert_eq!(fade, Fade { target: 7, rising: false, level: None });
}

#[test]
fn a_fade_near_the_ends_of_the_range_does_not_wrap() {
    assert_eq!(levels(i32::MAX - 20, i32::MAX), vec![i32::MAX - 20, i32::MAX - 5]);
    assert_eq!(levels(i32::MIN + 20, i32::MIN), vec![i32::MIN + 19, i32::MIN + 4]);
    assert_eq!((BACKLIGHT_STEP, BACKLIGHT_DELAY_MS), (15, 14));
}

#[test]
fn the_levels_of_a_fade_as_a_list() {
    assert_eq!(fade_backlight(0, 50), vec![0, 15, 30, 45]);
    assert_eq!(fade_backlight(50, 0), vec![49, 34, 19, 4]);
    assert_eq!(fade_backlight(9, 9), Vec::<i32>::new());
    assert_eq!(fade_backlight(3, 40), levels(3, 40));
    assert_eq!(fade_backlight(40, 3), levels(40, 3));
}
