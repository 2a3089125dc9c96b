//! The statistics store: counters, their backing file, and when to write it.
use vstd::prelude::*;

use crate::codec::{decode, decoded, encode, fields_of, pretty_json_object};
use crate::counters::{bucket_total, lemma_counts_are_sums, zero_counts, Data, RawEvent};
use crate::event::{classification, classify, code_known, Bucket};

verus! {

/// Least time between two writes of the file while events come in, in
/// milliseconds.
pub const EXPORT_INTERVAL_MS: u64 = 100;

/// Whether a write is due at time `now`, given the time of the last one.
pub open spec fn export_due(last: Option<u64>, now: u64) -> bool {
    match last {
        None => true,
        Some(t) => now >= t && now - t >= EXPORT_INTERVAL_MS,
    }
}

/// The counters of one device, the path of their backing file and the time of
/// the last write of it.
pub struct Database {
    pub data: Data,
    pub path: String,
    pub last_export: Option<u64>,
}

impl Database {
    /// The store after an event that came in at time `now`, and whether the
    /// file is then to be written.
    pub open spec fn step(self, e: RawEvent, now: u64) -> (Database, bool) {
        if classification(e.kind, e.code, e.value) is Some {
            let due = export_due(self.last_export, now);
            (
                Database {
                    data: self.data.after(e),
                    path: self.path,
                    last_export: if due {
                        Some(now)
                    } else {
                        self.last_export
                    },
                },
                due,
            )
        } else {
            (self, false)
        }
    }

    /// The store after a run of events, each with the time at which it came in.
    pub open spec fn after_run(self, run: Seq<(RawEvent, u64)>) -> Database
        decreases run.len(),
    {
        if run.len() == 0 {
            self
        } else {
            self.step(run[0].0, run[0].1).0.after_run(run.drop_first())
        }
    }

    /// The times at which the file is to be written over a run of events.
    pub open spec fn exports(self, run: Seq<(RawEvent, u64)>) -> Seq<u64>
        decreases run.len(),
    {
        if run.len() == 0 {
            Seq::empty()
        } else {
            let (next, due) = self.step(run[0].0, run[0].1);
            if due {
                seq![run[0].1] + next.exports(run.drop_first())
            } else {
                next.exports(run.drop_first())
            }
        }
    }

    /// A store for the file at `path` whose text is `json`. Text that does not
    /// hold the counters gives fresh counters, all zero.
    pub fn new(path: &str, json: &str) -> (r: Database)
        ensures
            r.data == (match decoded(json@) {
                Some(d) => d,
                None => zero_counts(),
            }),
            r.path@ == path@,
            r.last_export == None::<u64>,
    {
        let data = match decode(json) {
            Some(d) => d,
            None => Data::zero(),
        };
        Database { data, path: path.to_owned(), last_export: None }
    }

    /// The path of the backing file.
    pub fn path(&self) -> (r: &str)
        ensures
            r@ == self.path@,
    {
        self.path.as_str()
    }

    /// Whether the event can be counted without overflowing its counter.
    pub fn has_room(&self, kind: i32, code: i32, value: i64) -> (r: bool)
        requires
            code_known(kind, code),
        ensures
            r == self.data.fits((RawEvent { kind, code, value })),
    {
        match classify(kind, code, value) {
            Some((b, delta)) => self.data.get(b) <= u64::MAX - delta,
            None => true,
        }
    }

    /// Counts one event that came in at time `now` (milliseconds on a
    /// monotonic clock). Returns whether the file is to be written now: after
    /// a counted event, when it was never written or at least
    /// `EXPORT_INTERVAL_MS` have passed since the last write. An ignored event
    /// changes nothing.
    pub fn modify(&mut self, kind: i32, code: i32, value: i64, now: u64) -> (r: bool)
        requires
            code_known(kind, code),
            old(self).data.fits((RawEvent { kind, code, value })),
        ensures
            (*final(self), r) == old(self).step((RawEvent { kind, code, value }), now),
            final(self).data == old(self).data.after((RawEvent { kind, code, value })),
            final(self).path@ == old(self).path@,
            classification(kind, code, value) is None ==> !r && final(self).last_export
                == old(self).last_export,
            classification(kind, code, value) is Some ==> r == export_due(
                old(self).last_export,
                now,
            ) && final(self).last_export == if r {
                Some(now)
            } else {
                old(self).last_export
            },
    {
        match classify(kind, code, value) {
            Some((b, delta)) => {
                self.data.add(b, delta);
                let due = match self.last_export {
                    None => true,
                    Some(t) => now >= t && now - t >= EXPORT_INTERVAL_MS,
                };
                if due {
                    self.last_export = Some(now);
                }
                due
            },
            None => false,
        }
    }

    /// The text to write to the backing file; loading it gives the counters
    /// back.
    pub fn export(&self) -> (r: String)
        ensures
            r@ == pretty_json_object(fields_of(self.data)),
            decoded(r@) == Some(self.data),
    {
        encode(&self.data)
    }

    /// Ends the store: the text of the final write of the backing file, due
    /// whatever time has passed since the last one.
    pub fn shutdown(self) -> (r: String)
        ensures
            r@ == pretty_json_object(fields_of(self.data)),
            decoded(r@) == Some(self.data),
    {
        encode(&self.data)
    }
}

/// The events of a run, without their times.
pub open spec fn events_of(run: Seq<(RawEvent, u64)>) -> Seq<RawEvent> {
    run.map_values(|p: (RawEvent, u64)| p.0)
}

/// Over a run of events, every counter of the store grows by the sum of the
/// deltas that the classifier assigns to it.
pub proof fn lemma_run_counts(db: Database, run: Seq<(RawEvent, u64)>, b: Bucket)
    requires
        db.data.fits_all(events_of(run)),
    ensures
        db.after_run(run).data == db.data.after_all(events_of(run)),
        db.after_run(run).data.count(b) == db.data.count(b) + bucket_total(b, events_of(run)),
    decreases run.len(),
{
    let es = events_of(run);
    if run.len() > 0 {
        assert(es[0] == run[0].0);
        assert(es.drop_first() =~= events_of(run.drop_first()));
        lemma_run_counts(db.step(run[0].0, run[0].1).0, run.drop_first(), b);
    }
    lemma_counts_are_sums(db.data, es, b);
}

/// While events come in, two writes of the file are at least
/// `EXPORT_INTERVAL_MS` apart, and the first comes at least that long after
/// the write before them.
pub proof fn lemma_exports_spaced(db: Database, run: Seq<(RawEvent, u64)>)
    ensures
        forall|k: int|
            0 <= k < db.exports(run).len() - 1 ==> db.exports(run)[k] + EXPORT_INTERVAL_MS
                <= #[trigger] db.exports(run)[k + 1],
        db.last_export is Some && db.exports(run).len() > 0 ==> db.last_export.unwrap()
            + EXPORT_INTERVAL_MS <= db.exports(run)[0],
    decreases run.len(),
{
    if run.len() > 0 {
        let rest = run.drop_first();
        let now = run[0].1;
        let (next, due) = db.step(run[0].0, now);
        lemma_exports_spaced(next, rest);
        if due {
            let s = db.exports(run);
            let tail = next.exports(rest);
            assert(s == seq![now] + tail);
            assert forall|k: int| 0 <= k < s.len() - 1 implies s[k] + EXPORT_INTERVAL_MS
                <= #[trigger] s[k + 1] by {
                if k > 0 {
                    assert(s[k] == tail[k - 1]);
                    assert(s[k + 1] == tail[k]);
                    assert(tail[k - 1] + EXPORT_INTERVAL_MS <= tail[(k - 1) + 1]);
                } else {
                    assert(s[1] == tail[0]);
                }
            }
        } else {
            assert(db.exports(run) == next.exports(rest));
        }
    }
}

} // verus!
