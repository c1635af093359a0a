use splits_core::{Duration, Instant, Split, Timer, TimerState};

fn at(nanos: u128) -> Instant {
    Instant::from_nanos(nanos)
}

fn ns(nanos: u128) -> Duration {
    Duration::from_nanos(nanos)
}

#[test]
fn splits() {
    let mut timer = Timer::new(3);
    assert_eq!(timer.state(), TimerState::NotStarted);
    timer.start();
    assert_eq!(timer.state(), TimerState::Running);
    timer.split();
    assert_eq!(timer.state(), TimerState::Running);
    timer.split();
    assert_eq!(timer.state(), TimerState::Running);
    timer.split();
    assert_eq!(timer.state(), TimerState::Finished);
}

#[test]
fn test() {
    let mut timer = Timer::new(5);
    timer.start();
    for _ in 0..100 {
        println!("{:?}", timer.current_time());
    }
}

#[test]
fn new_timer_has_not_started() {
    let timer = Timer::new(3);
    assert_eq!(timer.state(), TimerState::NotStarted);
    assert!(timer.splits().is_empty());
    assert_eq!(timer.current_index(), None);
    assert_eq!(timer.current_time(), Duration::zero());
    assert_eq!(timer.current_time_at(at(123_456)), Duration::zero());
    assert!(timer.get_segment_times().is_empty());
}

#[test]
fn actions_before_the_start_do_nothing() {
    let mut timer = Timer::new(3);
    timer.split_at(at(5));
    timer.skip();
    timer.pause_at(at(6));
    timer.unpause_at(at(7));
    timer.toggle_pause_at(at(8));
    timer.undo();
    assert_eq!(timer.state(), TimerState::NotStarted);
    assert!(timer.splits().is_empty());
    assert_eq!(timer.current_time_at(at(100)), Duration::zero());
}

#[test]
fn a_whole_attempt_on_a_given_clock() {
    let mut timer = Timer::new(3);
    timer.start_at(at(1_000));
    assert_eq!(timer.state(), TimerState::Running);
    assert_eq!(timer.current_index(), Some(0));
    assert_eq!(timer.current_time_at(at(1_000)), ns(0));
    assert_eq!(timer.current_time_at(at(1_250)), ns(250));

    timer.split_at(at(1_300));
    assert_eq!(timer.state(), TimerState::Running);
    assert_eq!(timer.current_index(), Some(1));
    timer.split_at(at(1_700));
    assert_eq!(timer.current_index(), Some(2));
    timer.split_at(at(2_500));
    assert_eq!(timer.state(), TimerState::Finished);
    assert_eq!(timer.current_index(), Some(3));
    assert_eq!(
        timer.splits(),
        &[Split::Split(ns(300)), Split::Split(ns(700)), Split::Split(ns(1_500))]
    );
    // A finished attempt shows the time of its last split, whatever the clock reads.
    assert_eq!(timer.current_time_at(at(9_999_999)), ns(1_500));
    assert_eq!(timer.current_time(), ns(1_500));
    assert_eq!(timer.get_segment_times(), vec![Some(ns(400)), Some(ns(800))]);
}

#[test]
fn a_second_start_does_not_move_the_start() {
    let mut timer = Timer::new(2);
    timer.start_at(at(100));
    timer.start_at(at(400));
    assert_eq!(timer.current_time_at(at(500)), ns(400));
}

#[test]
fn a_finished_timer_ignores_further_actions() {
    let mut timer = Timer::new(1);
    timer.start_at(at(0));
    timer.split_at(at(10));
    assert_eq!(timer.state(), TimerState::Finished);
    timer.split_at(at(20));
    timer.skip();
    timer.pause_at(at(30));
    timer.unpause_at(at(40));
    timer.toggle_pause_at(at(50));
    timer.start_at(at(60));
    timer.start_split_or_unpause_at(at(70));
    assert_eq!(timer.state(), TimerState::Finished);
    assert_eq!(timer.splits(), &[Split::Split(ns(10))]);
}

#[test]
fn splits_never_exceed_the_target() {
    let mut timer = Timer::new(3);
    timer.start_at(at(0));
    for step in 1..40u128 {
        match step % 4 {
            0 => timer.skip(),
            1 => timer.split_at(at(step * 10)),
            2 => timer.start_split_or_unpause_at(at(step * 10)),
            _ => timer.toggle_pause_at(at(step * 10)),
        }
        assert!(timer.splits().len() <= 3);
        let complete = timer.splits().len() == 3
            && matches!(timer.splits().last(), Some(Split::Split(_)));
        assert_eq!(timer.state() == TimerState::Finished, complete);
    }
    // The last checkpoint is still ahead: it cannot be skipped, and every
    // split fell into a pause.
    assert_eq!(timer.splits().len(), 2);
    assert_eq!(timer.state(), TimerState::Paused(at(390)));
    timer.unpause_at(at(400));
    timer.split_at(at(410));
    assert_eq!(timer.state(), TimerState::Finished);
    for step in 42..60u128 {
        match step % 4 {
            0 => timer.skip(),
            1 => timer.split_at(at(step * 10)),
            2 => timer.start_split_or_unpause_at(at(step * 10)),
            _ => timer.toggle_pause_at(at(step * 10)),
        }
        assert_eq!(timer.splits().len(), 3);
        assert_eq!(timer.state(), TimerState::Finished);
    }
}

#[test]
fn the_last_checkpoint_cannot_be_skipped() {
    let mut timer = Timer::new(3);
    timer.start_at(at(0));
    timer.skip();
    timer.skip();
    assert_eq!(timer.splits(), &[Split::Skipped, Split::Skipped]);
    timer.skip();
    assert_eq!(timer.splits().len(), 2);
    assert_eq!(timer.state(), TimerState::Running);
    timer.pause_at(at(5));
    timer.skip();
    assert_eq!(timer.splits().len(), 2);
    assert_eq!(timer.state(), TimerState::Paused(at(5)));
    timer.unpause_at(at(5));
    timer.split_at(at(9));
    assert_eq!(timer.state(), TimerState::Finished);
    assert_eq!(
        timer.splits(),
        &[Split::Skipped, Split::Skipped, Split::Split(ns(9))]
    );
}

#[test]
fn a_single_checkpoint_cannot_be_skipped() {
    let mut timer = Timer::new(1);
    timer.start_at(at(0));
    timer.skip();
    assert!(timer.splits().is_empty());
    timer.split_at(at(4));
    assert_eq!(timer.state(), TimerState::Finished);
}

#[test]
fn skip_while_paused() {
    let mut timer = Timer::new(3);
    timer.start_at(at(0));
    timer.pause_at(at(10));
    timer.skip();
    assert_eq!(timer.splits(), &[Split::Skipped]);
    assert_eq!(timer.state(), TimerState::Paused(at(10)));
    assert_eq!(timer.current_index(), Some(1));
}

#[test]
fn undo_takes_back_a_split() {
    let mut timer = Timer::new(3);
    timer.start_at(at(0));
    timer.split_at(at(10));
    let before = timer.splits().to_vec();
    timer.split_at(at(20));
    timer.undo();
    assert_eq!(timer.splits(), before.as_slice());
    assert_eq!(timer.state(), TimerState::Running);
}

#[test]
fn undo_takes_back_a_skip() {
    let mut timer = Timer::new(3);
    timer.start_at(at(0));
    timer.split_at(at(10));
    timer.pause_at(at(15));
    timer.skip();
    timer.undo();
    assert_eq!(timer.splits(), &[Split::Split(ns(10))]);
    assert_eq!(timer.state(), TimerState::Paused(at(15)));
}

#[test]
fn undo_of_the_finishing_split_runs_on() {
    let mut timer = Timer::new(2);
    timer.start_at(at(0));
    timer.split_at(at(10));
    timer.split_at(at(30));
    assert_eq!(timer.state(), TimerState::Finished);
    timer.undo();
    assert_eq!(timer.state(), TimerState::Running);
    assert_eq!(timer.splits(), &[Split::Split(ns(10))]);
    // The clock was never stopped: the time goes on from the start.
    assert_eq!(timer.current_time_at(at(50)), ns(50));
    timer.split_at(at(60));
    assert_eq!(timer.state(), TimerState::Finished);
    assert_eq!(timer.splits(), &[Split::Split(ns(10)), Split::Split(ns(60))]);
}

#[test]
fn undo_never_goes_back_before_the_start() {
    let mut timer = Timer::new(2);
    timer.start_split_or_unpause_at(at(0));
    assert_eq!(timer.state(), TimerState::Running);
    timer.undo();
    assert_eq!(timer.state(), TimerState::Running);
    assert!(timer.splits().is_empty());
    timer.split_at(at(5));
    timer.undo();
    timer.undo();
    assert_eq!(timer.state(), TimerState::Running);
    assert!(timer.splits().is_empty());
}

#[test]
fn time_stands_still_while_paused() {
    let mut timer = Timer::new(2);
    timer.start_at(at(100));
    timer.pause_at(at(400));
    assert_eq!(timer.state(), TimerState::Paused(at(400)));
    for now in [0u128, 400, 401, 10_000, u128::MAX] {
        assert_eq!(timer.current_time_at(at(now)), ns(300));
    }
    assert_eq!(timer.current_time(), ns(300));
    // A paused timer takes no split.
    timer.split_at(at(500));
    assert!(timer.splits().is_empty());
}

#[test]
fn pauses_add_up() {
    let mut timer = Timer::new(2);
    timer.start_at(at(100));
    timer.pause_at(at(400));
    timer.unpause_at(at(1_000));
    // 600 were spent paused.
    assert_eq!(timer.state(), TimerState::Running);
    assert_eq!(timer.current_time_at(at(1_000)), ns(300));
    assert_eq!(timer.current_time_at(at(1_050)), ns(350));
    timer.split_at(at(1_100));
    timer.toggle_pause_at(at(1_200));
    assert_eq!(timer.current_time_at(at(77_777)), ns(500));
    timer.toggle_pause_at(at(2_000));
    // 600 + 800 were spent paused.
    assert_eq!(timer.current_time_at(at(2_000)), ns(500));
    timer.start_split_or_unpause_at(at(2_100));
    assert_eq!(timer.state(), TimerState::Finished);
    assert_eq!(timer.splits(), &[Split::Split(ns(400)), Split::Split(ns(600))]);
    assert_eq!(timer.get_segment_times(), vec![Some(ns(200))]);
}

#[test]
fn the_main_key_starts_splits_and_resumes() {
    let mut timer = Timer::new(2);
    timer.start_split_or_unpause_at(at(10));
    assert_eq!(timer.state(), TimerState::Running);
    assert!(timer.splits().is_empty());
    timer.start_split_or_unpause_at(at(30));
    assert_eq!(timer.splits(), &[Split::Split(ns(20))]);
    timer.pause_at(at(40));
    timer.start_split_or_unpause_at(at(90));
    assert_eq!(timer.state(), TimerState::Running);
    assert_eq!(timer.splits().len(), 1);
    assert_eq!(timer.current_time_at(at(90)), ns(30));
    timer.start_split_or_unpause_at(at(100));
    assert_eq!(timer.state(), TimerState::Finished);
    timer.start_split_or_unpause_at(at(110));
    assert_eq!(timer.state(), TimerState::Finished);
    assert_eq!(timer.splits(), &[Split::Split(ns(20)), Split::Split(ns(40))]);
}

#[test]
fn toggle_pause_leaves_other_states_alone() {
    let mut timer = Timer::new(1);
    timer.toggle_pause_at(at(5));
    assert_eq!(timer.state(), TimerState::NotStarted);
    timer.start_at(at(5));
    timer.split_at(at(6));
    timer.toggle_pause_at(at(7));
    assert_eq!(timer.state(), TimerState::Finished);
}

#[test]
fn reset_drops_the_attempt() {
    let mut timer = Timer::new(2);
    timer.start_at(at(0));
    timer.split_at(at(10));
    timer.pause_at(at(20));
    timer.reset();
    assert_eq!(timer.state(), TimerState::NotStarted);
    assert!(timer.splits().is_empty());
    assert_eq!(timer.current_index(), None);
    assert_eq!(timer.current_time_at(at(1_000)), Duration::zero());
    timer.reset();
    assert_eq!(timer.state(), TimerState::NotStarted);
    timer.start_at(at(50));
    assert_eq!(timer.state(), TimerState::Running);
    timer.split_at(at(60));
    timer.split_at(at(75));
    assert_eq!(timer.state(), TimerState::Finished);
    assert_eq!(timer.splits(), &[Split::Split(ns(10)), Split::Split(ns(25))]);
}

#[test]
fn time_paused_outlasts_a_reset() {
    let mut timer = Timer::new(1);
    timer.start_at(at(0));
    timer.pause_at(at(10));
    timer.unpause_at(at(110));
    timer.reset();
    timer.start_at(at(1_000));
    // The 100 spent paused still count: the time stays at zero until they have passed.
    assert_eq!(timer.current_time_at(at(1_050)), ns(0));
    assert_eq!(timer.current_time_at(at(1_100)), ns(0));
    assert_eq!(timer.current_time_at(at(1_130)), ns(30));
}

#[test]
fn a_clock_reading_before_the_start_gives_no_time() {
    let mut timer = Timer::new(2);
    timer.start_at(at(500));
    assert_eq!(timer.current_time_at(at(100)), ns(0));
    timer.pause_at(at(100));
    assert_eq!(timer.current_time_at(at(900)), ns(0));
    timer.unpause_at(at(50));
    assert_eq!(timer.current_time_at(at(700)), ns(200));
}

#[test]
fn time_paused_stops_at_the_longest_span() {
    let mut timer = Timer::new(2);
    timer.start_at(at(0));
    timer.pause_at(at(0));
    timer.unpause_at(at(u128::MAX));
    timer.pause_at(at(0));
    timer.unpause_at(at(5));
    assert_eq!(timer.state(), TimerState::Running);
    assert_eq!(timer.current_time_at(at(u128::MAX)), ns(0));
}

#[test]
fn segment_times_between_neighbours() {
    let mut timer = Timer::new(6);
    timer.start_at(at(0));
    assert!(timer.get_segment_times().is_empty());
    timer.split_at(at(10));
    assert!(timer.get_segment_times().is_empty());
    timer.split_at(at(25));
    assert_eq!(timer.get_segment_times(), vec![Some(ns(15))]);
    timer.skip();
    timer.split_at(at(70));
    timer.split_at(at(100));
    assert_eq!(
        timer.splits(),
        &[
            Split::Split(ns(10)),
            Split::Split(ns(25)),
            Split::Skipped,
            Split::Split(ns(70)),
            Split::Split(ns(100)),
        ]
    );
    assert_eq!(
        timer.get_segment_times(),
        vec![Some(ns(15)), None, None, Some(ns(30))]
    );
}

#[test]
fn segment_times_of_splits_that_go_back() {
    let mut timer = Timer::new(3);
    timer.start_at(at(0));
    timer.split_at(at(100));
    timer.split_at(at(40));
    assert_eq!(timer.splits(), &[Split::Split(ns(100)), Split::Split(ns(40))]);
    assert_eq!(timer.get_segment_times(), vec![Some(Duration::zero())]);
}

#[test]
fn a_timer_without_checkpoints_never_finishes() {
    let mut timer = Timer::new(0);
    timer.start_at(at(0));
    assert_eq!(timer.state(), TimerState::Running);
    timer.split_at(at(10));
    assert_eq!(timer.state(), TimerState::Running);
    timer.skip();
    assert_eq!(timer.splits(), &[Split::Split(ns(10)), Split::Skipped]);
    assert_eq!(timer.state(), TimerState::Running);
    timer.undo();
    timer.undo();
    assert!(timer.splits().is_empty());
}

#[test]
fn unwrap_time_of_a_recorded_split() {
    assert_eq!(Split::Split(ns(42)).unwrap_time(), ns(42));
    assert_eq!(Split::Split(Duration::zero()).unwrap_time(), Duration::zero());
}

#[test]
fn the_timer_on_its_own_clock() {
    let mut timer = Timer::new(2);
    timer.start();
    let first = timer.current_time();
    let second = timer.current_time();
    assert!(second.as_nanos() >= first.as_nanos());
    timer.split();
    timer.pause();
    assert!(matches!(timer.state(), TimerState::Paused(_)));
    let paused = timer.current_time();
    assert_eq!(timer.current_time(), paused);
    assert_eq!(timer.current_time(), paused);
    timer.skip();
    assert_eq!(timer.splits().len(), 1);
    timer.unpause();
    assert_eq!(timer.state(), TimerState::Running);
    assert!(timer.current_time().as_nanos() >= paused.as_nanos());
    timer.toggle_pause();
    assert!(matches!(timer.state(), TimerState::Paused(_)));
    timer.toggle_pause();
    timer.start_split_or_unpause();
    assert_eq!(timer.state(), TimerState::Finished);
    let times = timer.splits().to_vec();
    assert!(times[1].unwrap_time().as_nanos() >= times[0].unwrap_time().as_nanos());
    assert_eq!(timer.current_time(), times[1].unwrap_time());
    timer.undo();
    assert_eq!(timer.state(), TimerState::Running);
    timer.reset();
    assert_eq!(timer.state(), TimerState::NotStarted);
}
