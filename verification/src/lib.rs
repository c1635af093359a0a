//! A speedrun timing engine.
//!
//! A [`Timer`] turns clock readings and the runner's actions into the splits of
//! one attempt, a [`Segment`] keeps the best times of one checkpoint, and a
//! [`Run`] folds the splits of an attempt into its segments.

pub mod app;
pub mod display;
pub mod run;
pub mod segment;
pub mod time;
pub mod timer;

pub use app::{App, AppView};
pub use display::{Pace, Row};
pub use run::{Run, RunView};
pub use segment::{Segment, SegmentRecord, SegmentView};
pub use time::{Duration, Instant, StdTime, TimeProvider};
pub use timer::{Split, Timer, TimerAction, TimerModel, TimerState};
