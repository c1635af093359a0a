//! The timer of one attempt: a state machine that turns clock readings and the
//! runner's actions into a sequence of splits.

use crate::time::{Duration, Instant, StdTime, TimeProvider};
use itertools::Itertools;
use vstd::prelude::*;

verus! {

/// Where an attempt stands.
#[derive(Copy, Clone, Debug, PartialEq, Eq, Structural)]
pub enum TimerState {
    /// No attempt is under way and no time has passed.
    NotStarted,
    /// The clock is counting.
    Running,
    /// The clock has stood still since the instant held.
    Paused(Instant),
    /// Every checkpoint has been passed; the time is that of the last split.
    Finished,
}

/// What happened at one checkpoint of an attempt.
#[derive(Copy, Clone, Debug, PartialEq, Eq, Structural)]
pub enum Split {
    /// The checkpoint was passed over without a time.
    Skipped,
    /// The checkpoint was reached at this time, counted from the attempt's start.
    Split(Duration),
}

impl Split {
    /// The time of a recorded split.
    pub fn unwrap_time(self) -> (time: Duration)
        requires
            self is Split,
        ensures
            self == Split::Split(time),
    {
        match self {
            Split::Split(time) => time,
            Split::Skipped => Duration::zero(),
        }
    }
}

/// The time between two neighbouring checkpoints, known only where both were
/// recorded; zero where the second time is not the later one.
pub open spec fn segment_time(first: Split, second: Split) -> Option<Duration> {
    match (first, second) {
        (Split::Split(a), Split::Split(b)) => Some(b.spec_saturating_sub(a)),
        _ => None,
    }
}

/// The times between each split and the next.
pub open spec fn segment_times(splits: Seq<Split>) -> Seq<Option<Duration>> {
    Seq::new(
        if splits.len() == 0 {
            0
        } else {
            (splits.len() - 1) as nat
        },
        |i: int| segment_time(splits[i], splits[i + 1]),
    )
}

/// What a timer is, apart from the clock it reads.
pub struct TimerModel {
    /// The number of checkpoints of the run.
    pub target: nat,
    /// The instant at which the attempt began.
    pub start: Instant,
    /// The time spent paused, summed over all pauses that have ended.
    pub paused: Duration,
    /// The checkpoints passed so far, in order.
    pub splits: Seq<Split>,
    pub state: TimerState,
}

impl TimerModel {
    /// A timer that has not started, for a run of `target` checkpoints.
    pub open spec fn new(target: nat) -> TimerModel {
        TimerModel {
            target,
            start: Instant { nanos: 0 },
            paused: Duration { nanos: 0 },
            splits: Seq::empty(),
            state: TimerState::NotStarted,
        }
    }

    /// What every timer satisfies: nothing is recorded before the start, a
    /// finished attempt has all its splits and ends on a recorded one, and an
    /// attempt under way still has a checkpoint ahead of it.
    pub open spec fn wf(self) -> bool {
        &&& self.state is NotStarted ==> self.splits.len() == 0
        &&& self.state is Finished ==> {
            &&& self.splits.len() == self.target
            &&& self.splits.len() > 0
            &&& self.splits.last() is Split
        }
        &&& (self.state is Running || self.state is Paused) && self.target > 0
            ==> self.splits.len() < self.target
    }

    /// The attempt's time when the clock reads `now`.
    pub open spec fn current_time(self, now: Instant) -> Duration {
        match self.state {
            TimerState::NotStarted => Duration { nanos: 0 },
            TimerState::Running => now.spec_duration_since(self.start).spec_saturating_sub(
                self.paused,
            ),
            TimerState::Paused(paused_at) => paused_at.spec_duration_since(
                self.start,
            ).spec_saturating_sub(self.paused),
            TimerState::Finished => match self.splits.last() {
                Split::Split(time) => time,
                Split::Skipped => Duration { nanos: 0 },
            },
        }
    }

    pub open spec fn start(self, now: Instant) -> TimerModel {
        if self.state is NotStarted {
            TimerModel { start: now, state: TimerState::Running, ..self }
        } else {
            self
        }
    }

    pub open spec fn split(self, now: Instant) -> TimerModel {
        if self.state is Running {
            let splits = self.splits.push(Split::Split(self.current_time(now)));
            TimerModel {
                splits,
                state: if splits.len() == self.target {
                    TimerState::Finished
                } else {
                    TimerState::Running
                },
                ..self
            }
        } else {
            self
        }
    }

    pub open spec fn skip(self) -> TimerModel {
        if (self.state is Running || self.state is Paused) && self.splits.len() != self.target
            - 1 {
            TimerModel { splits: self.splits.push(Split::Skipped), ..self }
        } else {
            self
        }
    }

    pub open spec fn pause(self, now: Instant) -> TimerModel {
        if self.state is Running {
            TimerModel { state: TimerState::Paused(now), ..self }
        } else {
            self
        }
    }

    pub open spec fn unpause(self, now: Instant) -> TimerModel {
        match self.state {
            TimerState::Paused(paused_at) => TimerModel {
                paused: self.paused.spec_saturating_add(now.spec_duration_since(paused_at)),
                state: TimerState::Running,
                ..self
            },
            _ => self,
        }
    }

    pub open spec fn toggle_pause(self, now: Instant) -> TimerModel {
        match self.state {
            TimerState::Running => self.pause(now),
            TimerState::Paused(_) => self.unpause(now),
            _ => self,
        }
    }

    pub open spec fn start_split_or_unpause(self, now: Instant) -> TimerModel {
        match self.state {
            TimerState::NotStarted => self.start(now),
            TimerState::Running => self.split(now),
            TimerState::Paused(_) => self.unpause(now),
            TimerState::Finished => self,
        }
    }

    pub open spec fn undo(self) -> TimerModel {
        if !(self.state is NotStarted) && self.splits.len() > 0 {
            TimerModel {
                splits: self.splits.drop_last(),
                state: if self.state is Finished {
                    TimerState::Running
                } else {
                    self.state
                },
                ..self
            }
        } else {
            self
        }
    }

    pub open spec fn reset(self) -> TimerModel {
        TimerModel { splits: Seq::empty(), state: TimerState::NotStarted, ..self }
    }

    /// The checkpoint that the attempt is heading for.
    pub open spec fn current_index(self) -> Option<nat> {
        if self.state is NotStarted {
            None
        } else {
            Some(self.splits.len())
        }
    }
}

/// One action on a timer, with the clock reading at which it is taken where
/// the action reads the clock.
pub enum TimerAction {
    Start(Instant),
    Split(Instant),
    Skip,
    Pause(Instant),
    Unpause(Instant),
    TogglePause(Instant),
    StartSplitOrUnpause(Instant),
    Undo,
    Reset,
}

impl TimerModel {
    /// The timer after `action`.
    pub open spec fn apply(self, action: TimerAction) -> TimerModel {
        match action {
            TimerAction::Start(now) => self.start(now),
            TimerAction::Split(now) => self.split(now),
            TimerAction::Skip => self.skip(),
            TimerAction::Pause(now) => self.pause(now),
            TimerAction::Unpause(now) => self.unpause(now),
            TimerAction::TogglePause(now) => self.toggle_pause(now),
            TimerAction::StartSplitOrUnpause(now) => self.start_split_or_unpause(now),
            TimerAction::Undo => self.undo(),
            TimerAction::Reset => self.reset(),
        }
    }

    /// A new timer for `target` checkpoints after `actions`, taken in order.
    pub open spec fn after(target: nat, actions: Seq<TimerAction>) -> TimerModel
        decreases actions.len(),
    {
        if actions.len() == 0 {
            TimerModel::new(target)
        } else {
            TimerModel::after(target, actions.drop_last()).apply(actions.last())
        }
    }

    /// Whether the attempt is complete: it has a split for every checkpoint and
    /// the last of them is a recorded one.
    pub open spec fn complete(self) -> bool {
        &&& self.splits.len() == self.target
        &&& self.splits.len() > 0
        &&& self.splits.last() is Split
    }

    /// No action leads out of the well-formed timers.
    pub proof fn lemma_apply_preserves_wf(self, action: TimerAction)
        requires
            self.wf(),
        ensures
            self.apply(action).wf(),
    {
    }

    /// Every timer that a sequence of actions can reach from a new one is
    /// well-formed, and is still a timer for as many checkpoints.
    pub proof fn lemma_after_wf(target: nat, actions: Seq<TimerAction>)
        ensures
            TimerModel::after(target, actions).wf(),
            TimerModel::after(target, actions).target == target,
        decreases actions.len(),
    {
        if actions.len() > 0 {
            TimerModel::lemma_after_wf(target, actions.drop_last());
            TimerModel::after(target, actions.drop_last()).lemma_apply_preserves_wf(actions.last());
        }
    }

    /// A well-formed timer for a run with at least one checkpoint never holds
    /// more splits than the run has checkpoints.
    pub proof fn lemma_splits_within_target(self)
        requires
            self.wf(),
            self.target > 0,
        ensures
            self.splits.len() <= self.target,
    {
    }

    /// Whatever is done to a timer for a run with at least one checkpoint, it
    /// never holds more splits than the run has checkpoints.
    pub proof fn lemma_after_splits_within_target(target: nat, actions: Seq<TimerAction>)
        requires
            target > 0,
        ensures
            TimerModel::after(target, actions).splits.len() <= target,
    {
        TimerModel::lemma_after_wf(target, actions);
    }

    /// A well-formed timer is finished exactly when the attempt is complete.
    pub proof fn lemma_finished_iff_complete(self)
        requires
            self.wf(),
        ensures
            self.state is Finished <==> self.complete(),
    {
    }

    /// Whatever is done to a timer, it is finished exactly when the attempt is
    /// complete.
    pub proof fn lemma_after_finished_iff_complete(target: nat, actions: Seq<TimerAction>)
        ensures
            TimerModel::after(target, actions).state is Finished <==> TimerModel::after(
                target,
                actions,
            ).complete(),
    {
        TimerModel::lemma_after_wf(target, actions);
    }

    /// The last checkpoint cannot be skipped: with one checkpoint to go, a skip
    /// changes nothing.
    pub proof fn lemma_skip_rejected_at_last_checkpoint(self)
        requires
            self.splits.len() == self.target - 1,
        ensures
            self.skip() == self,
    {
    }

    /// In a well-formed timer that holds a split for every checkpoint of a run
    /// with at least one, the last split is a recorded one.
    pub proof fn lemma_last_split_is_recorded(self)
        requires
            self.wf(),
            self.target > 0,
            self.splits.len() == self.target,
        ensures
            self.splits.last() is Split,
    {
    }

    /// Undoing a split of a running timer gives the timer back as it was, also
    /// where the split finished the attempt.
    pub proof fn lemma_undo_reverts_split(self, now: Instant)
        requires
            self.wf(),
            self.state is Running,
        ensures
            self.split(now).undo() == self,
            self.start_split_or_unpause(now).undo() == self,
    {
        assert(self.splits.push(Split::Split(self.current_time(now))).drop_last() == self.splits);
    }

    /// Undoing a skip that was taken gives the timer back as it was.
    pub proof fn lemma_undo_reverts_skip(self)
        requires
            self.wf(),
            self.skip() != self,
        ensures
            self.skip().undo() == self,
    {
        assert(self.splits.push(Split::Skipped).drop_last() == self.splits);
    }

    /// Undo does not take back a start: a timer that has just started holds no
    /// split, and undo leaves it running.
    pub proof fn lemma_undo_keeps_start(self, now: Instant)
        requires
            self.wf(),
            self.state is NotStarted,
        ensures
            self.start(now).undo() == self.start(now),
            self.start_split_or_unpause(now).undo() == self.start(now),
            self.start(now).state is Running,
            self.start(now).splits == self.splits,
    {
    }

    /// Undo never takes a timer back to before its start, and a finished timer
    /// is running again after it.
    pub proof fn lemma_undo_keeps_started(self)
        requires
            self.wf(),
        ensures
            self.state is NotStarted <==> self.undo().state is NotStarted,
            self.state is Finished ==> self.undo().state is Running,
            self.undo().target == self.target,
            self.undo().start == self.start,
            self.undo().paused == self.paused,
    {
    }

    /// A timer comes to be paused, or finished, only from running.
    pub proof fn lemma_paused_and_finished_come_from_running(self, action: TimerAction)
        requires
            self.wf(),
        ensures
            self.apply(action).state is Paused && !(self.state is Paused) ==> self.state is Running,
            self.apply(action).state is Finished && !(self.state is Finished)
                ==> self.state is Running,
    {
    }

    /// The time spent paused never shrinks, and it changes only as a paused
    /// timer is resumed.
    pub proof fn lemma_paused_time_only_grows(self, action: TimerAction)
        requires
            self.wf(),
        ensures
            self.apply(action).paused.nanos >= self.paused.nanos,
            self.apply(action).paused != self.paused ==> self.state is Paused && self.apply(
                action,
            ).state is Running,
            self.apply(action).target == self.target,
    {
    }

    /// While a timer is paused its time stands still, whatever the clock reads.
    pub proof fn lemma_paused_time_stands_still(self, now: Instant, later: Instant)
        requires
            self.state is Paused,
        ensures
            self.current_time(now) == self.current_time(later),
            self.skip().current_time(now) == self.current_time(later),
    {
    }

    /// A pause leaves no trace in the attempt's time. Where a running timer is
    /// paused at `paused_at` and resumed at `resumed_at`, on a clock that does
    /// not run backwards, the time spent paused grows by the length of the
    /// pause; the time at the moment of resuming is the time at which the timer
    /// was paused, and from then on it grows with the clock.
    pub proof fn lemma_pause_is_left_out(self, paused_at: Instant, resumed_at: Instant, now: Instant)
        requires
            self.state is Running,
            self.start.nanos + self.paused.nanos <= paused_at.nanos,
            paused_at.nanos <= resumed_at.nanos,
            resumed_at.nanos <= now.nanos,
        ensures
            self.pause(paused_at).unpause(resumed_at).state is Running,
            self.pause(paused_at).unpause(resumed_at).paused.nanos == self.paused.nanos + (
            resumed_at.nanos - paused_at.nanos),
            self.pause(paused_at).unpause(resumed_at).current_time(resumed_at)
                == self.current_time(paused_at),
            self.pause(paused_at).unpause(resumed_at).current_time(now).nanos == self.current_time(
                paused_at,
            ).nanos + (now.nanos - resumed_at.nanos),
    {
    }

    /// Over two pauses of a running timer, on a clock that does not run
    /// backwards, the time spent paused grows by the lengths of both.
    pub proof fn lemma_pauses_add_up(
        self,
        first_pause: Instant,
        first_resume: Instant,
        second_pause: Instant,
        second_resume: Instant,
    )
        requires
            self.state is Running,
            self.start.nanos + self.paused.nanos <= first_pause.nanos,
            first_pause.nanos <= first_resume.nanos,
            first_resume.nanos <= second_pause.nanos,
            second_pause.nanos <= second_resume.nanos,
        ensures
            self.pause(first_pause).unpause(first_resume).pause(second_pause).unpause(
                second_resume,
            ).paused.nanos == self.paused.nanos + (first_resume.nanos - first_pause.nanos) + (
            second_resume.nanos - second_pause.nanos),
            self.pause(first_pause).unpause(first_resume).pause(second_pause).unpause(
                second_resume,
            ).current_time(second_resume).nanos == self.current_time(first_pause).nanos + (
            second_pause.nanos - first_resume.nanos),
    {
        let resumed = self.pause(first_pause).unpause(first_resume);
        self.lemma_pause_is_left_out(first_pause, first_resume, second_pause);
        resumed.lemma_pause_is_left_out(second_pause, second_resume, second_resume);
    }
}

/// The timer of one attempt at a run.
pub struct Timer {
    clock: StdTime,
    start_time: Instant,
    paused_time: Duration,
    num_splits: usize,
    splits: Vec<Split>,
    state: TimerState,
}

impl View for Timer {
    type V = TimerModel;

    closed spec fn view(&self) -> TimerModel {
        TimerModel {
            target: self.num_splits as nat,
            start: self.start_time,
            paused: self.paused_time,
            splits: self.splits@,
            state: self.state,
        }
    }
}

impl Timer {
    /// A timer for a run of `num_splits` checkpoints. Its clock counts from now.
    pub fn new(num_splits: usize) -> (timer: Timer)
        ensures
            timer@ == TimerModel::new(num_splits as nat),
            timer@.wf(),
    {
        Timer {
            clock: StdTime::new(),
            num_splits,
            start_time: Instant::from_nanos(0),
            paused_time: Duration::zero(),
            splits: Vec::new(),
            state: TimerState::NotStarted,
        }
    }

    pub fn state(&self) -> (state: TimerState)
        ensures
            state == self@.state,
    {
        self.state
    }

    /// The attempt's time when the clock reads `now`.
    pub fn current_time_at(&self, now: Instant) -> (time: Duration)
        requires
            self@.wf(),
        ensures
            time == self@.current_time(now),
    {
        match self.state {
            TimerState::NotStarted => Duration::zero(),
            TimerState::Running => now.duration_since(self.start_time).saturating_sub(
                self.paused_time,
            ),
            TimerState::Paused(paused_at) => paused_at.duration_since(
                self.start_time,
            ).saturating_sub(self.paused_time),
            TimerState::Finished => self.splits[self.splits.len() - 1].unwrap_time(),
        }
    }

    /// The attempt's time by the timer's own clock.
    pub fn current_time(&self) -> (time: Duration)
        requires
            self@.wf(),
        ensures
            exists|now: Instant| time == #[trigger] self@.current_time(now),
    {
        let now = self.clock.now();
        self.current_time_at(now)
    }

    /// Starts the attempt at the clock reading `now`, if it has not started.
    pub fn start_at(&mut self, now: Instant)
        requires
            old(self)@.wf(),
        ensures
            final(self)@ == old(self)@.start(now),
            final(self)@.wf(),
    {
        if self.state == TimerState::NotStarted {
            self.start_time = now;
            self.state = TimerState::Running;
        }
    }

    /// Starts the attempt now, if it has not started.
    pub fn start(&mut self)
        requires
            old(self)@.wf(),
        ensures
            exists|now: Instant| final(self)@ == #[trigger] old(self)@.start(now),
            final(self)@.wf(),
    {
        let now = self.clock.now();
        self.start_at(now);
    }

    /// Stops the clock at the reading `now`, if it is counting.
    pub fn pause_at(&mut self, now: Instant)
        requires
            old(self)@.wf(),
        ensures
            final(self)@ == old(self)@.pause(now),
            final(self)@.wf(),
    {
        if self.state == TimerState::Running {
            self.state = TimerState::Paused(now);
        }
    }

    /// Stops the clock now, if it is counting.
    pub fn pause(&mut self)
        requires
            old(self)@.wf(),
        ensures
            exists|now: Instant| final(self)@ == #[trigger] old(self)@.pause(now),
            final(self)@.wf(),
    {
        let now = self.clock.now();
        self.pause_at(now);
    }

    /// Lets the clock count again from the reading `now`, if it stands still,
    /// and adds the time it stood still to the time spent paused.
    pub fn unpause_at(&mut self, now: Instant)
        requires
            old(self)@.wf(),
        ensures
            final(self)@ == old(self)@.unpause(now),
            final(self)@.wf(),
    {
        if let TimerState::Paused(paused_at) = self.state {
            self.paused_time = self.paused_time.saturating_add(now.duration_since(paused_at));
            self.state = TimerState::Running;
        }
    }

    /// Lets the clock count again from now, if it stands still.
    pub fn unpause(&mut self)
        requires
            old(self)@.wf(),
        ensures
            exists|now: Instant| final(self)@ == #[trigger] old(self)@.unpause(now),
            final(self)@.wf(),
    {
        let now = self.clock.now();
        self.unpause_at(now);
    }

    /// Pauses a running timer and resumes a paused one, at the clock reading
    /// `now`.
    pub fn toggle_pause_at(&mut self, now: Instant)
        requires
            old(self)@.wf(),
        ensures
            final(self)@ == old(self)@.toggle_pause(now),
            final(self)@.wf(),
    {
        match self.state {
            TimerState::Running => self.pause_at(now),
            TimerState::Paused(_) => self.unpause_at(now),
            _ => {},
        }
    }

    /// Pauses a running timer and resumes a paused one.
    pub fn toggle_pause(&mut self)
        requires
            old(self)@.wf(),
        ensures
            exists|now: Instant| final(self)@ == #[trigger] old(self)@.toggle_pause(now),
            final(self)@.wf(),
    {
        let now = self.clock.now();
        self.toggle_pause_at(now);
    }

    /// Records a split at the clock reading `now`.
    pub fn split_at(&mut self, now: Instant)
        requires
            old(self)@.wf(),
        ensures
            final(self)@ == old(self)@.split(now),
            final(self)@.wf(),
    {
        if self.state == TimerState::Running {
            let time = self.current_time_at(now);
            self.splits.push(Split::Split(time));
            if self.splits.len() == self.num_splits {
                self.state = TimerState::Finished;
            }
        }
    }

    /// Records a split now.
    pub fn split(&mut self)
        requires
            old(self)@.wf(),
        ensures
            exists|now: Instant| final(self)@ == #[trigger] old(self)@.split(now),
            final(self)@.wf(),
    {
        let now = self.clock.now();
        self.split_at(now);
    }

    /// The one action of the runner's main key at the clock reading `now`: it
    /// starts a timer that has not started, splits a running one, resumes a
    /// paused one and leaves a finished one alone.
    pub fn start_split_or_unpause_at(&mut self, now: Instant)
        requires
            old(self)@.wf(),
        ensures
            final(self)@ == old(self)@.start_split_or_unpause(now),
            final(self)@.wf(),
    {
        match self.state {
            TimerState::NotStarted => self.start_at(now),
            TimerState::Running => self.split_at(now),
            TimerState::Paused(_) => self.unpause_at(now),
            TimerState::Finished => {},
        }
    }

    /// The one action of the runner's main key.
    pub fn start_split_or_unpause(&mut self)
        requires
            old(self)@.wf(),
        ensures
            exists|now: Instant| final(self)@ == #[trigger] old(self)@.start_split_or_unpause(now),
            final(self)@.wf(),
    {
        let now = self.clock.now();
        self.start_split_or_unpause_at(now);
    }

    /// Passes over the next checkpoint, unless it is the last one.
    pub fn skip(&mut self)
        requires
            old(self)@.wf(),
        ensures
            final(self)@ == old(self)@.skip(),
            final(self)@.wf(),
    {
        let under_way = match self.state {
            TimerState::Running => true,
            TimerState::Paused(_) => true,
            _ => false,
        };
        if under_way && (self.num_splits == 0 || self.splits.len() != self.num_splits - 1) {
            self.splits.push(Split::Skipped);
        }
    }

    /// Takes back the last split. A finished attempt is under way again.
    pub fn undo(&mut self)
        requires
            old(self)@.wf(),
        ensures
            final(self)@ == old(self)@.undo(),
            final(self)@.wf(),
    {
        if self.state != TimerState::NotStarted && self.splits.len() > 0 {
            if self.state == TimerState::Finished {
                self.state = TimerState::Running;
            }
            self.splits.pop();
        }
    }

    /// Drops the attempt: the splits go and the timer has not started.
    pub fn reset(&mut self)
        ensures
            final(self)@ == old(self)@.reset(),
            final(self)@.wf(),
    {
        self.state = TimerState::NotStarted;
        self.splits.clear();
    }

    /// The checkpoint that the attempt is heading for, counted from zero.
    pub fn current_index(&self) -> (index: Option<usize>)
        ensures
            self@.current_index() == match index {
                Some(i) => Some(i as nat),
                None => None,
            },
    {
        if self.state == TimerState::NotStarted {
            None
        } else {
            Some(self.splits.len())
        }
    }

    /// The time taken between each split and the next.
    pub fn get_segment_times(&self) -> (times: Vec<Option<Duration>>)
        ensures
            times@ == segment_times(self@.splits),
    {
        let pairs = adjacent_pairs(&self.splits);
        let mut times: Vec<Option<Duration>> = Vec::new();
        let mut i: usize = 0;
        while i < pairs.len()
            invariant
                i <= pairs.len(),
                pairs@.len() == segment_times(self@.splits).len(),
                forall|k: int|
                    0 <= k < pairs@.len() ==> pairs@[k] == (
                        #[trigger] self@.splits[k],
                        self@.splits[k + 1],
                    ),
                times@ == segment_times(self@.splits).take(i as int),
            decreases pairs.len() - i,
        {
            let time = match pairs[i] {
                (Split::Split(first), Split::Split(second)) => Some(second.saturating_sub(first)),
                _ => None,
            };
            times.push(time);
            i += 1;
        }
        times
    }

    /// The splits of the attempt so far.
    pub fn splits(&self) -> (splits: &[Split])
        ensures
            splits@ == self@.splits,
    {
        self.splits.as_slice()
    }
}

/// Calls `Itertools::tuple_windows` of the itertools crate on the splits, which
/// yields each split together with its successor, in order, and nothing where
/// there are fewer than two splits.
#[verifier::external_body]
fn adjacent_pairs(splits: &Vec<Split>) -> (pairs: Vec<(Split, Split)>)
    ensures
        pairs@.len() == if splits@.len() == 0 {
            0
        } else {
            splits@.len() - 1
        },
        forall|k: int| 0 <= k < pairs@.len() ==> pairs@[k] == (#[trigger] splits@[k], splits@[k + 1]),
{
    splits.iter().copied().tuple_windows().collect()
}

} // verus!
