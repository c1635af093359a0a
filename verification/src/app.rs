//! A session at the timer: a run, the timer of the attempt under way, and the
//! keys that drive them.

use crate::run::{Run, RunView};
use crate::time::Instant;
use crate::timer::{Timer, TimerModel};
use vstd::prelude::*;

verus! {

/// What a session holds.
pub struct AppView {
    pub timer: TimerModel,
    pub run: RunView,
    pub should_exit: bool,
}

impl AppView {
    /// The session after the key `c` was pressed when the clock read `now`:
    /// `q` asks to leave, the space bar starts, splits or resumes, `s` skips,
    /// `p` pauses or resumes, `u` undoes, and `r` folds the attempt into the
    /// run. Every other key is ignored.
    pub open spec fn on_key(self, c: char, now: Instant) -> AppView {
        if c == 'q' {
            AppView { should_exit: true, ..self }
        } else if c == ' ' {
            AppView { timer: self.timer.start_split_or_unpause(now), ..self }
        } else if c == 's' {
            AppView { timer: self.timer.skip(), ..self }
        } else if c == 'p' {
            AppView { timer: self.timer.toggle_pause(now), ..self }
        } else if c == 'u' {
            AppView { timer: self.timer.undo(), ..self }
        } else if c == 'r' {
            AppView { run: self.run.update(self.timer.splits), ..self }
        } else {
            self
        }
    }

    /// The session after the run has been stored: the attempt is dropped.
    pub open spec fn saved(self) -> AppView {
        AppView { timer: self.timer.reset(), ..self }
    }
}

/// A session at the timer.
pub struct App {
    pub timer: Timer,
    pub run: Run,
    pub should_exit: bool,
}

impl View for App {
    type V = AppView;

    open spec fn view(&self) -> AppView {
        AppView { timer: self.timer@, run: self.run@, should_exit: self.should_exit }
    }
}

impl App {
    /// A session for `run`, with a timer for as many checkpoints as the run has
    /// segments.
    pub fn new(run: Run) -> (app: App)
        ensures
            app@ == (AppView {
                timer: TimerModel::new(run@.segments.len()),
                run: run@,
                should_exit: false,
            }),
            app@.timer.wf(),
    {
        App { timer: Timer::new(run.len()), run, should_exit: false }
    }

    /// Handles the key `c`, pressed when the clock read `now`. Returns whether
    /// the run has changed and is to be stored; once it has been stored,
    /// `saved` drops the attempt.
    pub fn on_key_at(&mut self, c: char, now: Instant) -> (save: bool)
        requires
            old(self)@.timer.wf(),
        ensures
            final(self)@ == old(self)@.on_key(c, now),
            save == (c == 'r'),
            final(self)@.timer.wf(),
    {
        if c == 'q' {
            self.should_exit = true;
        } else if c == ' ' {
            self.timer.start_split_or_unpause_at(now);
        } else if c == 's' {
            self.timer.skip();
        } else if c == 'p' {
            self.timer.toggle_pause_at(now);
        } else if c == 'u' {
            self.timer.undo();
        } else if c == 'r' {
            self.run.update(self.timer.splits());
            return true;
        }
        false
    }

    /// Handles the key `c`, pressed now. Returns whether the run has changed
    /// and is to be stored; once it has been stored, `saved` drops the attempt.
    pub fn on_key(&mut self, c: char) -> (save: bool)
        requires
            old(self)@.timer.wf(),
        ensures
            exists|now: Instant| final(self)@ == #[trigger] old(self)@.on_key(c, now),
            save == (c == 'r'),
            final(self)@.timer.wf(),
    {
        if c == ' ' {
            self.timer.start_split_or_unpause();
            proof {
                let now = choose|now: Instant|
                    self.timer@ == #[trigger] old(self).timer@.start_split_or_unpause(now);
                assert(self@ == old(self)@.on_key(c, now));
            }
            false
        } else if c == 'p' {
            self.timer.toggle_pause();
            proof {
                let now = choose|now: Instant|
                    self.timer@ == #[trigger] old(self).timer@.toggle_pause(now);
                assert(self@ == old(self)@.on_key(c, now));
            }
            false
        } else {
            let save = self.on_key_at(c, Instant::from_nanos(0));
            assert(self@ == old(self)@.on_key(c, Instant { nanos: 0 }));
            save
        }
    }

    /// Drops the attempt after the run has been stored.
    pub fn saved(&mut self)
        ensures
            final(self)@ == old(self)@.saved(),
            final(self)@.timer.wf(),
    {
        self.timer.reset();
    }
}

} // verus!
