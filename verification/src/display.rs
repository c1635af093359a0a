//! What a run and the attempt under way show, row by row: for each segment a
//! time and how that time compares with the segment's best.

use crate::run::Run;
use crate::segment::SegmentView;
use crate::time::Duration;
use crate::timer::{Split, Timer, TimerModel};
use vstd::prelude::*;

verus! {

/// How a time compares with the best time of its segment.
#[derive(Clone, Copy, Debug, PartialEq, Eq, Structural)]
pub enum Pace {
    /// Shorter than the best.
    Ahead,
    /// Equal to the best.
    Level,
    /// Longer than the best.
    Behind,
}

/// How `time` compares with `best`.
pub open spec fn pace_of(time: Duration, best: Duration) -> Pace {
    if time.nanos < best.nanos {
        Pace::Ahead
    } else if time.nanos == best.nanos {
        Pace::Level
    } else {
        Pace::Behind
    }
}

/// What is shown for one segment.
#[derive(Clone, Copy, Debug, PartialEq, Eq, Structural)]
pub struct Row {
    /// The time shown, if any.
    pub time: Option<Duration>,
    /// The segment's best time, against which the time shown is held.
    pub best: Option<Duration>,
    /// How the time shown compares with the best, where there are both.
    pub pace: Option<Pace>,
}

/// The time shown for the segment at position `i` while the attempt's time is
/// `current`: the time of its split where the attempt has passed it, and none
/// where it was skipped; the attempt's time where the attempt is heading for
/// it; the segment's best time where the attempt has not come to it.
pub open spec fn shown_time(
    segment: SegmentView,
    timer: TimerModel,
    i: int,
    current: Duration,
) -> Option<Duration> {
    if i < timer.splits.len() {
        match timer.splits[i] {
            Split::Split(time) => Some(time),
            Split::Skipped => None,
        }
    } else if timer.current_index() == Some(i as nat) {
        Some(current)
    } else {
        segment.best_time
    }
}

/// The row of the segment at position `i`.
pub open spec fn row_at(segment: SegmentView, timer: TimerModel, i: int, current: Duration) -> Row {
    let time = shown_time(segment, timer, i, current);
    Row {
        time,
        best: segment.best_time,
        pace: match (time, segment.best_time) {
            (Some(t), Some(b)) => Some(pace_of(t, b)),
            _ => None,
        },
    }
}

/// How `time` compares with `best`.
pub fn pace(time: Duration, best: Duration) -> (pace: Pace)
    ensures
        pace == pace_of(time, best),
{
    if time.nanos < best.nanos {
        Pace::Ahead
    } else if time.nanos == best.nanos {
        Pace::Level
    } else {
        Pace::Behind
    }
}

/// The rows of a run, one for each segment in order, for the attempt that
/// `timer` holds and whose time is `current`.
pub fn rows(run: &Run, timer: &Timer, current: Duration) -> (rows: Vec<Row>)
    ensures
        rows@ == Seq::new(
            run@.segments.len(),
            |i: int| row_at(run@.segments[i], timer@, i, current),
        ),
{
    let segments = run.segments();
    let splits = timer.splits();
    let live = timer.current_index();
    let mut rows: Vec<Row> = Vec::new();
    let mut i: usize = 0;
    while i < segments.len()
        invariant
            i <= segments@.len(),
            segments@.len() == run@.segments.len(),
            forall|k: int| 0 <= k < segments@.len() ==> (#[trigger] segments@[k])@ == run@.segments[k],
            splits@ == timer@.splits,
            timer@.current_index() == match live {
                Some(l) => Some(l as nat),
                None => None,
            },
            rows@.len() == i,
            forall|k: int|
                0 <= k < i ==> #[trigger] rows@[k] == row_at(run@.segments[k], timer@, k, current),
        decreases segments.len() - i,
    {
        let best = segments[i].best_time();
        let time = if i < splits.len() {
            match splits[i] {
                Split::Split(time) => Some(time),
                Split::Skipped => None,
            }
        } else {
            match live {
                Some(l) if l == i => Some(current),
                _ => best,
            }
        };
        let pace = match (time, best) {
            (Some(t), Some(b)) => Some(pace(t, b)),
            _ => None,
        };
        rows.push(Row { time, best, pace });
        i += 1;
    }
    rows
}

} // verus!
