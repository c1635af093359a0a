//! One checkpoint of a run and the best times recorded for it.

use crate::time::Duration;
use vstd::prelude::*;

verus! {

/// The best of a best time so far and a new time: the new time where there was
/// no best or the new time is strictly shorter, the old best otherwise.
pub open spec fn improved(best: Option<Duration>, time: Duration) -> Option<Duration> {
    match best {
        Some(b) => if time.nanos < b.nanos {
            Some(time)
        } else {
            Some(b)
        },
        None => Some(time),
    }
}

/// The best after a sequence of times has been recorded one by one.
pub open spec fn improved_by_all(best: Option<Duration>, times: Seq<Duration>) -> Option<Duration>
    decreases times.len(),
{
    if times.len() == 0 {
        best
    } else {
        improved(improved_by_all(best, times.drop_last()), times.last())
    }
}

/// Whether `time` betters `best`: there was no best, or the time is strictly
/// shorter.
pub open spec fn betters(time: Duration, best: Option<Duration>) -> bool {
    match best {
        Some(b) => time.nanos < b.nanos,
        None => true,
    }
}

/// Whether `later` is at least as good a best time as `earlier`: a best, once
/// set, stays set and does not grow.
pub open spec fn at_least_as_good(later: Option<Duration>, earlier: Option<Duration>) -> bool {
    match earlier {
        Some(e) => later matches Some(l) && l.nanos <= e.nanos,
        None => true,
    }
}

/// What a segment holds.
pub struct SegmentView {
    pub title: Seq<char>,
    /// The time at which each attempt reached the checkpoint, in the order of
    /// the attempts.
    pub history: Seq<Duration>,
    /// The shortest time in which the checkpoint was ever reached.
    pub best_time: Option<Duration>,
    /// The shortest time ever taken from the checkpoint before to this one.
    pub best_segment: Option<Duration>,
}

impl SegmentView {
    /// The segment after an attempt reached the checkpoint at `time`.
    pub open spec fn add_time(self, time: Duration) -> SegmentView {
        SegmentView {
            best_time: improved(self.best_time, time),
            history: self.history.push(time),
            ..self
        }
    }

    /// The segment after an attempt took `time` from the checkpoint before.
    pub open spec fn add_segment_time(self, time: Duration) -> SegmentView {
        SegmentView { best_segment: improved(self.best_segment, time), ..self }
    }
}

/// A checkpoint of a run, with the times recorded for it.
#[derive(Debug, Clone)]
pub struct Segment {
    pub(crate) title: String,
    pub(crate) history: Vec<Duration>,
    pub(crate) best_time: Option<Duration>,
    pub(crate) best_segment: Option<Duration>,
}

impl View for Segment {
    type V = SegmentView;

    closed spec fn view(&self) -> SegmentView {
        SegmentView {
            title: self.title@,
            history: self.history@,
            best_time: self.best_time,
            best_segment: self.best_segment,
        }
    }
}

impl Segment {
    /// A segment for which nothing has been recorded.
    pub fn new(name: &str) -> (segment: Segment)
        ensures
            segment@ == (SegmentView {
                title: name@,
                history: Seq::empty(),
                best_time: None,
                best_segment: None,
            }),
    {
        Segment { title: name.to_owned(), history: Vec::new(), best_time: None, best_segment: None }
    }

    /// A segment with the times given, which are taken as they are.
    pub fn load(
        title: String,
        history: Vec<Duration>,
        best_time: Option<Duration>,
        best_segment: Option<Duration>,
    ) -> (segment: Segment)
        ensures
            segment@ == (SegmentView {
                title: title@,
                history: history@,
                best_time,
                best_segment,
            }),
    {
        Segment { title, history, best_time, best_segment }
    }

    pub fn history(&self) -> (history: &[Duration])
        ensures
            history@ == self@.history,
    {
        self.history.as_slice()
    }

    pub fn title(&self) -> (title: &str)
        ensures
            title@ == self@.title,
    {
        self.title.as_str()
    }

    pub fn best_time(&self) -> (best: Option<Duration>)
        ensures
            best == self@.best_time,
    {
        self.best_time
    }

    pub fn best_segment(&self) -> (best: Option<Duration>)
        ensures
            best == self@.best_segment,
    {
        self.best_segment
    }

    /// Records that an attempt reached the checkpoint at `time`: the time joins
    /// the history, and becomes the best time where it is strictly shorter than
    /// the best so far, or the first.
    pub fn add_time(&mut self, time: Duration)
        ensures
            final(self)@ == old(self)@.add_time(time),
    {
        match self.best_time {
            Some(best) => {
                if time.nanos < best.nanos {
                    self.best_time = Some(time);
                }
            },
            None => {
                self.best_time = Some(time);
            },
        }
        self.history.push(time);
    }

    /// Records that an attempt took `time` from the checkpoint before to this
    /// one: it becomes the best segment time where it is strictly shorter than
    /// the best so far, or the first. The history is left alone.
    pub fn add_segment_time(&mut self, time: Duration)
        ensures
            final(self)@ == old(self)@.add_segment_time(time),
    {
        match self.best_segment {
            Some(best) => {
                if time.nanos < best.nanos {
                    self.best_segment = Some(time);
                }
            },
            None => {
                self.best_segment = Some(time);
            },
        }
    }
}

/// One recording for a segment.
pub enum SegmentRecord {
    /// An attempt reached the checkpoint at this time.
    Time(Duration),
    /// An attempt took this time from the checkpoint before.
    SegmentTime(Duration),
}

impl SegmentView {
    /// The segment after one recording.
    pub open spec fn record(self, record: SegmentRecord) -> SegmentView {
        match record {
            SegmentRecord::Time(time) => self.add_time(time),
            SegmentRecord::SegmentTime(time) => self.add_segment_time(time),
        }
    }

    /// The segment after each of `records`, in order.
    pub open spec fn record_all(self, records: Seq<SegmentRecord>) -> SegmentView
        decreases records.len(),
    {
        if records.len() == 0 {
            self
        } else {
            self.record_all(records.drop_last()).record(records.last())
        }
    }
}

/// A best time never gets worse: after a time is recorded the best is set and
/// no longer than before, and it changes only where the new time is strictly
/// shorter than the old best, or the first.
pub proof fn lemma_improved_is_monotone(best: Option<Duration>, time: Duration)
    ensures
        at_least_as_good(improved(best, time), best),
        improved(best, time) is Some,
        improved(best, time)->0.nanos <= time.nanos,
        improved(best, time) != best <==> betters(time, best),
        improved(best, time) != best ==> improved(best, time) == Some(time),
{
}

/// Over any sequence of recordings, of either kind, neither best of a segment
/// gets worse from one recording to the next, and a best changes only to a
/// time that is strictly shorter than the best before it, or the first.
pub proof fn lemma_record_all_is_monotone(
    segment: SegmentView,
    records: Seq<SegmentRecord>,
    i: int,
)
    requires
        0 < i <= records.len(),
    ensures
        ({
            let before = segment.record_all(records.take(i - 1));
            let after = segment.record_all(records.take(i));
            &&& at_least_as_good(after.best_time, before.best_time)
            &&& at_least_as_good(after.best_segment, before.best_segment)
            &&& after.best_time != before.best_time ==> records[i - 1] == SegmentRecord::Time(
                after.best_time->0,
            ) && betters(after.best_time->0, before.best_time)
            &&& after.best_segment != before.best_segment ==> records[i - 1]
                == SegmentRecord::SegmentTime(after.best_segment->0) && betters(
                after.best_segment->0,
                before.best_segment,
            )
        }),
{
    assert(records.take(i).drop_last() == records.take(i - 1));
    assert(records.take(i).last() == records[i - 1]);
}

/// Where there was no best, the best after a sequence of times is the shortest
/// of them: it is one of them and none is shorter.
pub proof fn lemma_best_is_shortest(times: Seq<Duration>)
    requires
        times.len() > 0,
    ensures
        improved_by_all(None, times) matches Some(best) && times.contains(best) && forall|k: int|
            0 <= k < times.len() ==> best.nanos <= (#[trigger] times[k]).nanos,
    decreases times.len(),
{
    let front = times.drop_last();
    if front.len() == 0 {
        assert(improved_by_all(None, front) == None::<Duration>);
        assert(times[times.len() - 1] == times.last());
    } else {
        lemma_best_is_shortest(front);
        let before = improved_by_all(None, front)->0;
        let best = improved_by_all(None, times)->0;
        let k0 = choose|k: int| 0 <= k < front.len() && front[k] == before;
        assert(times[k0] == before);
        assert(times[times.len() - 1] == times.last());
        assert forall|k: int| 0 <= k < times.len() implies best.nanos <= (#[trigger] times[k]).nanos by {
            if k < front.len() {
                assert(front[k] == times[k]);
            }
        }
    }
}

/// A segment that starts without a history and without a best time keeps, over
/// any sequence of recordings, as its best time the best over its history: the
/// shortest time in it, by `lemma_best_is_shortest`.
pub proof fn lemma_best_time_is_best_of_history(segment: SegmentView, records: Seq<SegmentRecord>)
    requires
        segment.history.len() == 0,
        segment.best_time is None,
    ensures
        segment.record_all(records).best_time == improved_by_all(
            None,
            segment.record_all(records).history,
        ),
        segment.record_all(records).title == segment.title,
    decreases records.len(),
{
    if records.len() > 0 {
        lemma_best_time_is_best_of_history(segment, records.drop_last());
        let before = segment.record_all(records.drop_last());
        match records.last() {
            SegmentRecord::Time(time) => {
                assert(before.history.push(time).drop_last() == before.history);
            },
            SegmentRecord::SegmentTime(_) => {},
        }
    }
}

} // verus!
