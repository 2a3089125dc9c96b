use mousestats::event::{
    classify, known_code, Bucket, BTN_EXTRA, BTN_LEFT, BTN_MIDDLE, BTN_RIGHT, BTN_SIDE, EV_KEY,
    EV_REL, REL_WHEEL, REL_X, REL_Y,
};

#[test]
fn codes_match_kernel_headers() {
    assert_eq!(EV_KEY, input_linux_sys::EV_KEY);
    assert_eq!(EV_REL, input_linux_sys::EV_REL);
    assert_eq!(REL_X, input_linux_sys::REL_X);
    assert_eq!(REL_Y, input_linux_sys::REL_Y);
    assert_eq!(REL_WHEEL, input_linux_sys::REL_WHEEL);
    assert_eq!(BTN_LEFT, input_linux_sys::BTN_LEFT);
    assert_eq!(BTN_RIGHT, input_linux_sys::BTN_RIGHT);
    assert_eq!(BTN_MIDDLE, input_linux_sys::BTN_MIDDLE);
    assert_eq!(BTN_SIDE, input_linux_sys::BTN_SIDE);
    assert_eq!(BTN_EXTRA, input_linux_sys::BTN_EXTRA);
}

#[test]
fn horizontal_motion_by_sign() {
    assert_eq!(classify(EV_REL, REL_X, 5), Some((Bucket::SwipeRight, 5)));
    assert_eq!(classify(EV_REL, REL_X, -5), Some((Bucket::SwipeLeft, 5)));
    assert_eq!(classify(EV_REL, REL_X, 0), Some((Bucket::SwipeLeft, 0)));
}

#[test]
fn vertical_motion_by_sign() {
    assert_eq!(classify(EV_REL, REL_Y, 7), Some((Bucket::SwipeDown, 7)));
    assert_eq!(classify(EV_REL, REL_Y, -3), Some((Bucket::SwipeUp, 3)));
    assert_eq!(classify(EV_REL, REL_Y, 0), Some((Bucket::SwipeUp, 0)));
}

#[test]
fn wheel_counts_ticks_not_distance() {
    assert_eq!(classify(EV_REL, REL_WHEEL, -1), Some((Bucket::WheelDown, 1)));
    assert_eq!(classify(EV_REL, REL_WHEEL, -4), Some((Bucket::WheelDown, 1)));
    assert_eq!(classify(EV_REL, REL_WHEEL, 3), Some((Bucket::WheelUp, 1)));
    assert_eq!(classify(EV_REL, REL_WHEEL, 0), Some((Bucket::WheelDown, 1)));
}

#[test]
fn extreme_motion_magnitude() {
    assert_eq!(classify(EV_REL, REL_X, i64::MIN), Some((Bucket::SwipeLeft, 1u64 << 63)));
    assert_eq!(classify(EV_REL, REL_Y, i64::MAX), Some((Bucket::SwipeDown, i64::MAX as u64)));
}

#[test]
fn button_presses() {
    assert_eq!(classify(EV_KEY, BTN_LEFT, 1), Some((Bucket::Left, 1)));
    assert_eq!(classify(EV_KEY, BTN_RIGHT, 1), Some((Bucket::Right, 1)));
    assert_eq!(classify(EV_KEY, BTN_MIDDLE, 1), Some((Bucket::Middle, 1)));
    assert_eq!(classify(EV_KEY, BTN_SIDE, 2), Some((Bucket::Side, 1)));
    assert_eq!(classify(EV_KEY, BTN_EXTRA, 1), Some((Bucket::Extra, 1)));
}

#[test]
fn button_release_ignored() {
    assert_eq!(classify(EV_KEY, BTN_LEFT, 0), None);
    assert_eq!(classify(EV_KEY, BTN_EXTRA, 0), None);
}

#[test]
fn other_event_types_ignored() {
    assert_eq!(classify(0, 0, 0), None);
    assert_eq!(classify(3, 0, 17), None);
    assert!(known_code(3, 12345));
}

#[test]
fn known_codes() {
    assert!(known_code(EV_REL, REL_WHEEL));
    assert!(!known_code(EV_REL, 6));
    assert!(known_code(EV_KEY, BTN_SIDE));
    assert!(!known_code(EV_KEY, 0));
    assert!(!known_code(EV_KEY, REL_X));
}
