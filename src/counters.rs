//! The counter set, and what a run of events makes of it.
use vstd::prelude::*;

use crate::event::{classification, Bucket};

verus! {

/// Eleven independent counters: clicks per button, wheel ticks per direction,
/// and motion distance per direction in device units.
#[derive(Clone, Copy, Debug, PartialEq, Eq, Structural)]
pub struct Data {
    pub left: u64,
    pub right: u64,
    pub middle: u64,
    pub side: u64,
    pub extra: u64,
    pub wheel_up: u64,
    pub wheel_down: u64,
    pub swipe_right: u64,
    pub swipe_left: u64,
    pub swipe_up: u64,
    pub swipe_down: u64,
}

/// A raw event as the device reports it: type, code and value.
pub struct RawEvent {
    pub kind: i32,
    pub code: i32,
    pub value: i64,
}

/// The fresh counter set: every counter at zero.
pub open spec fn zero_counts() -> Data {
    Data {
        left: 0,
        right: 0,
        middle: 0,
        side: 0,
        extra: 0,
        wheel_up: 0,
        wheel_down: 0,
        swipe_right: 0,
        swipe_left: 0,
        swipe_up: 0,
        swipe_down: 0,
    }
}

impl Data {
    /// The value of one counter.
    pub open spec fn count(self, b: Bucket) -> u64 {
        match b {
            Bucket::Left => self.left,
            Bucket::Right => self.right,
            Bucket::Middle => self.middle,
            Bucket::Side => self.side,
            Bucket::Extra => self.extra,
            Bucket::WheelUp => self.wheel_up,
            Bucket::WheelDown => self.wheel_down,
            Bucket::SwipeRight => self.swipe_right,
            Bucket::SwipeLeft => self.swipe_left,
            Bucket::SwipeUp => self.swipe_up,
            Bucket::SwipeDown => self.swipe_down,
        }
    }

    /// Whether `delta` can be added to counter `b` without overflow.
    pub open spec fn has_room(self, b: Bucket, delta: u64) -> bool {
        self.count(b) + delta <= u64::MAX
    }

    /// The counters with `delta` added to counter `b` and the others kept.
    pub open spec fn added(self, b: Bucket, delta: u64) -> Data {
        let v = (self.count(b) + delta) as u64;
        match b {
            Bucket::Left => Data { left: v, ..self },
            Bucket::Right => Data { right: v, ..self },
            Bucket::Middle => Data { middle: v, ..self },
            Bucket::Side => Data { side: v, ..self },
            Bucket::Extra => Data { extra: v, ..self },
            Bucket::WheelUp => Data { wheel_up: v, ..self },
            Bucket::WheelDown => Data { wheel_down: v, ..self },
            Bucket::SwipeRight => Data { swipe_right: v, ..self },
            Bucket::SwipeLeft => Data { swipe_left: v, ..self },
            Bucket::SwipeUp => Data { swipe_up: v, ..self },
            Bucket::SwipeDown => Data { swipe_down: v, ..self },
        }
    }

    /// Whether the event's delta, if any, fits in its counter.
    pub open spec fn fits(self, e: RawEvent) -> bool {
        match classification(e.kind, e.code, e.value) {
            Some((b, d)) => self.has_room(b, d),
            None => true,
        }
    }

    /// The counters after one event.
    pub open spec fn after(self, e: RawEvent) -> Data {
        match classification(e.kind, e.code, e.value) {
            Some((b, d)) => self.added(b, d),
            None => self,
        }
    }

    /// The counters after a run of events, applied in order.
    pub open spec fn after_all(self, es: Seq<RawEvent>) -> Data
        decreases es.len(),
    {
        if es.len() == 0 {
            self
        } else {
            self.after(es[0]).after_all(es.drop_first())
        }
    }

    /// Whether no counter overflows while the events are applied in order.
    pub open spec fn fits_all(self, es: Seq<RawEvent>) -> bool
        decreases es.len(),
    {
        es.len() == 0 || (self.fits(es[0]) && self.after(es[0]).fits_all(es.drop_first()))
    }

    /// All counters at zero.
    pub fn zero() -> (r: Data)
        ensures
            r == zero_counts(),
            forall|b: Bucket| r.count(b) == 0,
    {
        Data {
            left: 0,
            right: 0,
            middle: 0,
            side: 0,
            extra: 0,
            wheel_up: 0,
            wheel_down: 0,
            swipe_right: 0,
            swipe_left: 0,
            swipe_up: 0,
            swipe_down: 0,
        }
    }

    /// The value of counter `b`.
    pub fn get(&self, b: Bucket) -> (r: u64)
        ensures
            r == self.count(b),
    {
        match b {
            Bucket::Left => self.left,
            Bucket::Right => self.right,
            Bucket::Middle => self.middle,
            Bucket::Side => self.side,
            Bucket::Extra => self.extra,
            Bucket::WheelUp => self.wheel_up,
            Bucket::WheelDown => self.wheel_down,
            Bucket::SwipeRight => self.swipe_right,
            Bucket::SwipeLeft => self.swipe_left,
            Bucket::SwipeUp => self.swipe_up,
            Bucket::SwipeDown => self.swipe_down,
        }
    }

    /// Adds `delta` to counter `b`.
    pub fn add(&mut self, b: Bucket, delta: u64)
        requires
            old(self).has_room(b, delta),
        ensures
            *final(self) == old(self).added(b, delta),
    {
        match b {
            Bucket::Left => self.left = self.left + delta,
            Bucket::Right => self.right = self.right + delta,
            Bucket::Middle => self.middle = self.middle + delta,
            Bucket::Side => self.side = self.side + delta,
            Bucket::Extra => self.extra = self.extra + delta,
            Bucket::WheelUp => self.wheel_up = self.wheel_up + delta,
            Bucket::WheelDown => self.wheel_down = self.wheel_down + delta,
            Bucket::SwipeRight => self.swipe_right = self.swipe_right + delta,
            Bucket::SwipeLeft => self.swipe_left = self.swipe_left + delta,
            Bucket::SwipeUp => self.swipe_up = self.swipe_up + delta,
            Bucket::SwipeDown => self.swipe_down = self.swipe_down + delta,
        }
    }
}

/// What the classifier assigns to counter `b` over a run of events, summed.
pub open spec fn bucket_total(b: Bucket, es: Seq<RawEvent>) -> int
    decreases es.len(),
{
    if es.len() == 0 {
        0
    } else {
        let here: int = match classification(es[0].kind, es[0].code, es[0].value) {
            Some((b0, d)) => if b0 == b {
                d as int
            } else {
                0
            },
            None => 0,
        };
        here + bucket_total(b, es.drop_first())
    }
}

/// Adding to one counter leaves the others as they were.
pub proof fn lemma_added_count(d: Data, b: Bucket, delta: u64, c: Bucket)
    requires
        d.has_room(b, delta),
    ensures
        d.added(b, delta).count(c) == if c == b {
            d.count(b) + delta
        } else {
            d.count(c) as int
        },
{
}

/// Every counter after a run of events is its starting value plus the sum of
/// the deltas that the classifier assigns to it, event by event.
pub proof fn lemma_counts_are_sums(d: Data, es: Seq<RawEvent>, b: Bucket)
    requires
        d.fits_all(es),
    ensures
        d.after_all(es).count(b) == d.count(b) + bucket_total(b, es),
    decreases es.len(),
{
    if es.len() > 0 {
        let e = es[0];
        match classification(e.kind, e.code, e.value) {
            Some((b0, delta)) => lemma_added_count(d, b0, delta, b),
            None => {},
        }
        lemma_counts_are_sums(d.after(e), es.drop_first(), b);
    }
}

/// No counter ever decreases while events are applied.
pub proof fn lemma_counts_never_decrease(d: Data, es: Seq<RawEvent>, b: Bucket)
    requires
        d.fits_all(es),
    ensures
        d.after_all(es).count(b) >= d.count(b),
    decreases es.len(),
{
    if es.len() > 0 {
        let e = es[0];
        match classification(e.kind, e.code, e.value) {
            Some((b0, delta)) => lemma_added_count(d, b0, delta, b),
            None => {},
        }
        lemma_counts_never_decrease(d.after(e), es.drop_first(), b);
    }
}

} // verus!
