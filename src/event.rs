//! Classification of raw input events into counter buckets.
use vstd::prelude::*;

verus! {

/// Event type of key and button events (linux/input-event-codes.h).
pub const EV_KEY: i32 = 0x01;

/// Event type of relative axis events.
pub const EV_REL: i32 = 0x02;

/// Relative horizontal motion.
pub const REL_X: i32 = 0x00;

/// Relative vertical motion.
pub const REL_Y: i32 = 0x01;

/// Vertical scroll wheel.
pub const REL_WHEEL: i32 = 0x08;

pub const BTN_LEFT: i32 = 0x110;

pub const BTN_RIGHT: i32 = 0x111;

pub const BTN_MIDDLE: i32 = 0x112;

pub const BTN_SIDE: i32 = 0x113;

pub const BTN_EXTRA: i32 = 0x114;

/// One of the eleven statistics counters.
#[derive(Clone, Copy, Debug, PartialEq, Eq, Structural)]
pub enum Bucket {
    Left,
    Right,
    Middle,
    Side,
    Extra,
    WheelUp,
    WheelDown,
    SwipeRight,
    SwipeLeft,
    SwipeUp,
    SwipeDown,
}

/// Whether `code` is one that the classifier knows for the event type `kind`.
/// Types other than `EV_REL` and `EV_KEY` accept every code (they are ignored).
pub open spec fn code_known(kind: i32, code: i32) -> bool {
    if kind == EV_REL {
        code == REL_X || code == REL_Y || code == REL_WHEEL
    } else if kind == EV_KEY {
        code == BTN_LEFT || code == BTN_RIGHT || code == BTN_MIDDLE || code == BTN_SIDE
            || code == BTN_EXTRA
    } else {
        true
    }
}

/// Magnitude of a signed value.
pub open spec fn magnitude(value: i64) -> u64 {
    if value >= 0 {
        value as u64
    } else {
        (-(value as int)) as u64
    }
}

/// The bucket and delta that an event contributes, if any.
pub open spec fn classification(kind: i32, code: i32, value: i64) -> Option<(Bucket, u64)> {
    if kind == EV_REL {
        if code == REL_X {
            if value > 0 {
                Some((Bucket::SwipeRight, magnitude(value)))
            } else {
                Some((Bucket::SwipeLeft, magnitude(value)))
            }
        } else if code == REL_Y {
            if value > 0 {
                Some((Bucket::SwipeDown, magnitude(value)))
            } else {
                Some((Bucket::SwipeUp, magnitude(value)))
            }
        } else {
            if value > 0 {
                Some((Bucket::WheelUp, 1u64))
            } else {
                Some((Bucket::WheelDown, 1u64))
            }
        }
    } else if kind == EV_KEY && value != 0 {
        if code == BTN_LEFT {
            Some((Bucket::Left, 1u64))
        } else if code == BTN_RIGHT {
            Some((Bucket::Right, 1u64))
        } else if code == BTN_MIDDLE {
            Some((Bucket::Middle, 1u64))
        } else if code == BTN_SIDE {
            Some((Bucket::Side, 1u64))
        } else {
            Some((Bucket::Extra, 1u64))
        }
    } else {
        None
    }
}

/// Tells whether `code` is known for the event type `kind`; an event with an
/// unknown code under `EV_REL` or `EV_KEY` must not be classified.
pub fn known_code(kind: i32, code: i32) -> (r: bool)
    ensures
        r == code_known(kind, code),
{
    if kind == EV_REL {
        code == REL_X || code == REL_Y || code == REL_WHEEL
    } else if kind == EV_KEY {
        code == BTN_LEFT || code == BTN_RIGHT || code == BTN_MIDDLE || code == BTN_SIDE
            || code == BTN_EXTRA
    } else {
        true
    }
}

/// Maps a raw event to the bucket it counts in and the amount it adds.
/// Motion adds its distance, a wheel tick or a button press adds one; a
/// button release and every other event type are ignored.
pub fn classify(kind: i32, code: i32, value: i64) -> (r: Option<(Bucket, u64)>)
    requires
        code_known(kind, code),
    ensures
        r == classification(kind, code, value),
{
    let dist: u64 = if value >= 0 {
        value as u64
    } else {
        (-(value + 1)) as u64 + 1
    };
    if kind == EV_REL {
        if code == REL_X {
            if value > 0 {
                Some((Bucket::SwipeRight, dist))
            } else {
                Some((Bucket::SwipeLeft, dist))
            }
        } else if code == REL_Y {
            if value > 0 {
                Some((Bucket::SwipeDown, dist))
            } else {
                Some((Bucket::SwipeUp, dist))
            }
        } else if value > 0 {
            Some((Bucket::WheelUp, 1))
        } else {
            Some((Bucket::WheelDown, 1))
        }
    } else if kind == EV_KEY && value != 0 {
        if code == BTN_LEFT {
            Some((Bucket::Left, 1))
        } else if code == BTN_RIGHT {
            Some((Bucket::Right, 1))
        } else if code == BTN_MIDDLE {
            Some((Bucket::Middle, 1))
        } else if code == BTN_SIDE {
            Some((Bucket::Side, 1))
        } else {
            Some((Bucket::Extra, 1))
        }
    } else {
        None
    }
}

} // verus!
