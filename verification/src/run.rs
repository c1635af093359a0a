//! A run: its segments in order, and the rule by which the splits of an
//! attempt are folded into them.

use crate::segment::{at_least_as_good, Segment, SegmentView};
use crate::time::Duration;
use crate::timer::Split;
use vstd::prelude::*;

verus! {

/// The views of a sequence of segments.
pub open spec fn segment_views(segments: Seq<Segment>) -> Seq<SegmentView> {
    Seq::new(segments.len(), |i: int| segments[i]@)
}

/// The time of the checkpoint before position `i` of an attempt: zero, the
/// attempt's start, before the first split; the time of the split before where
/// that was recorded; unknown where it was skipped.
pub open spec fn previous_checkpoint(splits: Seq<Split>, i: int) -> Option<Duration> {
    if i == 0 {
        Some(Duration { nanos: 0 })
    } else {
        match splits[i - 1] {
            Split::Split(time) => Some(time),
            Split::Skipped => None,
        }
    }
}

/// The time that an attempt took for the segment at position `i`: known where
/// the split there was recorded strictly later than a known checkpoint before
/// it.
pub open spec fn segment_duration(splits: Seq<Split>, i: int) -> Option<Duration> {
    match (previous_checkpoint(splits, i), splits[i]) {
        (Some(last), Split::Split(time)) => if last.nanos < time.nanos {
            Some(Duration { nanos: (time.nanos - last.nanos) as u128 })
        } else {
            None
        },
        _ => None,
    }
}

/// The segment after the time of `split`, if it has one, has been recorded.
pub open spec fn with_time(segment: SegmentView, split: Split) -> SegmentView {
    match split {
        Split::Split(time) => segment.add_time(time),
        Split::Skipped => segment,
    }
}

/// The segment at position `i` after the time that the attempt took for it, if
/// that is known, has been recorded.
pub open spec fn with_duration(segment: SegmentView, splits: Seq<Split>, i: int) -> SegmentView {
    match segment_duration(splits, i) {
        Some(duration) => segment.add_segment_time(duration),
        None => segment,
    }
}

/// The segments after the time of each split has been recorded for the segment
/// at its position. Segments without a split stay as they are.
pub open spec fn with_times(segments: Seq<SegmentView>, splits: Seq<Split>) -> Seq<SegmentView> {
    Seq::new(
        segments.len(),
        |i: int|
            if i < splits.len() {
                with_time(segments[i], splits[i])
            } else {
                segments[i]
            },
    )
}

/// The segments after the time taken for each has been recorded where it is
/// known. Segments without a split stay as they are.
pub open spec fn with_durations(segments: Seq<SegmentView>, splits: Seq<Split>) -> Seq<
    SegmentView,
> {
    Seq::new(
        segments.len(),
        |i: int|
            if i < splits.len() {
                with_duration(segments[i], splits, i)
            } else {
                segments[i]
            },
    )
}

/// What a run holds.
pub struct RunView {
    pub title: Seq<char>,
    pub segments: Seq<SegmentView>,
}

impl RunView {
    /// The run after the splits of an attempt have been folded into it.
    pub open spec fn update(self, splits: Seq<Split>) -> RunView {
        RunView { segments: with_durations(with_times(self.segments, splits), splits), ..self }
    }

    /// The best time of the whole run: that of its last segment.
    pub open spec fn best_time(self) -> Option<Duration> {
        if self.segments.len() == 0 {
            None
        } else {
            self.segments.last().best_time
        }
    }
}

/// The two passes of a fold do not depend on each other: recording the times
/// and recording the durations give the same segments in either order, the
/// best times come from the first alone and the best segment times from the
/// second alone.
pub proof fn lemma_passes_are_independent(segments: Seq<SegmentView>, splits: Seq<Split>)
    ensures
        with_durations(with_times(segments, splits), splits) == with_times(
            with_durations(segments, splits),
            splits,
        ),
        forall|i: int|
            0 <= i < segments.len() ==> {
                let folded = #[trigger] with_durations(with_times(segments, splits), splits)[i];
                &&& folded.best_time == with_times(segments, splits)[i].best_time
                &&& folded.history == with_times(segments, splits)[i].history
                &&& folded.best_segment == with_durations(segments, splits)[i].best_segment
                &&& folded.title == segments[i].title
            },
{
    assert(with_durations(with_times(segments, splits), splits) =~= with_times(
        with_durations(segments, splits),
        splits,
    ));
}

/// A fold keeps the segments in number and in name, and no best gets worse by
/// it. The history of a segment grows by the time of its split where that was
/// recorded, and stays as it is otherwise.
pub proof fn lemma_update_never_worsens(run: RunView, splits: Seq<Split>, i: int)
    requires
        0 <= i < run.segments.len(),
    ensures
        run.update(splits).title == run.title,
        run.update(splits).segments.len() == run.segments.len(),
        run.update(splits).segments[i].title == run.segments[i].title,
        at_least_as_good(run.update(splits).segments[i].best_time, run.segments[i].best_time),
        at_least_as_good(run.update(splits).segments[i].best_segment, run.segments[i].best_segment),
        run.update(splits).segments[i].history == if i < splits.len() && splits[i] is Split {
            run.segments[i].history.push(splits[i]->0)
        } else {
            run.segments[i].history
        },
{
}

/// A skipped checkpoint leaves its own segment as it was and breaks the chain:
/// the segment after it keeps its best segment time, whatever its split.
pub proof fn lemma_skip_breaks_chain(run: RunView, splits: Seq<Split>, i: int)
    requires
        0 <= i < run.segments.len(),
        i < splits.len(),
        splits[i] is Skipped,
    ensures
        run.update(splits).segments[i] == run.segments[i],
        i + 1 < run.segments.len() ==> run.update(splits).segments[i + 1].best_segment
            == run.segments[i + 1].best_segment,
{
}

/// A run: a title and the segments in the order in which they are passed.
pub struct Run {
    title: String,
    segments: Vec<Segment>,
}

impl View for Run {
    type V = RunView;

    closed spec fn view(&self) -> RunView {
        RunView { title: self.title@, segments: segment_views(self.segments@) }
    }
}

impl Run {
    pub fn new(title: String, segments: Vec<Segment>) -> (run: Run)
        ensures
            run@ == (RunView { title: title@, segments: segment_views(segments@) }),
    {
        Run { title, segments }
    }

    /// Adds a segment at the end.
    pub fn add_segment(&mut self, segment: Segment)
        ensures
            final(self)@ == (RunView {
                segments: old(self)@.segments.push(segment@),
                ..old(self)@
            }),
    {
        self.segments.push(segment);
        assert(segment_views(self.segments@) == segment_views(old(self).segments@).push(segment@));
    }

    /// Folds the splits of an attempt into the segments, each split into the
    /// segment at its position. A recorded split adds its time to the segment's
    /// history and may better the segment's best time; where the checkpoint
    /// before is known and strictly earlier, the time between the two may
    /// better the best segment time. Splits without a segment, and segments
    /// without a split, are left out.
    pub fn update(&mut self, splits: &[Split])
        ensures
            final(self)@ == old(self)@.update(splits@),
    {
        let mut i: usize = 0;
        while i < self.segments.len() && i < splits.len()
            invariant
                self.title == old(self).title,
                self.segments@.len() == old(self).segments@.len(),
                forall|k: int|
                    0 <= k < i ==> (#[trigger] self.segments@[k])@ == with_time(
                        old(self).segments@[k]@,
                        splits@[k],
                    ),
                forall|k: int|
                    i <= k < self.segments@.len() ==> #[trigger] self.segments@[k] == old(
                        self,
                    ).segments@[k],
                i <= self.segments@.len(),
                i <= splits@.len(),
            decreases self.segments.len() - i,
        {
            if let Split::Split(time) = splits[i] {
                self.segments[i].add_time(time);
            }
            i += 1;
        }
        assert(segment_views(self.segments@) == with_times(old(self)@.segments, splits@));
        self.update_segments(splits);
    }

    /// Records, for each segment with a split, the time that the attempt took
    /// for it, where that is known.
    fn update_segments(&mut self, splits: &[Split])
        ensures
            final(self)@ == (RunView {
                segments: with_durations(old(self)@.segments, splits@),
                ..old(self)@
            }),
    {
        let mut last_time = Some(Duration::zero());
        let mut i: usize = 0;
        while i < self.segments.len() && i < splits.len()
            invariant
                self.title == old(self).title,
                self.segments@.len() == old(self).segments@.len(),
                forall|k: int|
                    0 <= k < i ==> (#[trigger] self.segments@[k])@ == with_duration(
                        old(self).segments@[k]@,
                        splits@,
                        k,
                    ),
                forall|k: int|
                    i <= k < self.segments@.len() ==> #[trigger] self.segments@[k] == old(
                        self,
                    ).segments@[k],
                i <= self.segments@.len(),
                i <= splits@.len(),
                last_time == previous_checkpoint(splits@, i as int),
            decreases self.segments.len() - i,
        {
            if let Split::Split(time) = splits[i] {
                if let Some(last) = last_time {
                    if last.nanos < time.nanos {
                        self.segments[i].add_segment_time(time.saturating_sub(last));
                    }
                }
                last_time = Some(time);
            } else {
                last_time = None;
            }
            i += 1;
        }
        assert(segment_views(self.segments@) == with_durations(old(self)@.segments, splits@));
    }

    pub fn segments(&self) -> (segments: &[Segment])
        ensures
            segment_views(segments@) == self@.segments,
    {
        self.segments.as_slice()
    }

    pub fn title(&self) -> (title: &str)
        ensures
            title@ == self@.title,
    {
        self.title.as_str()
    }

    /// The best time of the whole run: the best time of its last segment.
    pub fn best_time(&self) -> (best: Option<Duration>)
        ensures
            best == self@.best_time(),
    {
        let n = self.segments.len();
        if n == 0 {
            None
        } else {
            self.segments[n - 1].best_time()
        }
    }

    /// The number of segments.
    pub fn len(&self) -> (len: usize)
        ensures
            len == self@.segments.len(),
    {
        self.segments.len()
    }
}

} // verus!
