use splits_core::{Duration, Segment};

#[test]
fn add_time() {
    let mut segment = Segment::new("test");
    assert_eq!(segment.best_time(), None);
    segment.add_time(Duration::from_secs(3));
    assert_eq!(segment.best_time(), Some(Duration::from_secs(3)));
    segment.add_time(Duration::from_secs(5));
    assert_eq!(segment.best_time(), Some(Duration::from_secs(3)));
    segment.add_time(Duration::from_secs(2));
    assert_eq!(segment.best_time(), Some(Duration::from_secs(2)));
}

#[test]
fn new_segment_is_empty() {
    let segment = Segment::new("start");
    assert_eq!(segment.title(), "start");
    assert!(segment.history().is_empty());
    assert_eq!(segment.best_time(), None);
    assert_eq!(segment.best_segment(), None);
}

#[test]
fn load_takes_the_values_as_they_are() {
    let history = vec![Duration::from_secs(9), Duration::from_secs(4)];
    let segment = Segment::load(
        "loaded".to_string(),
        history.clone(),
        Some(Duration::from_secs(7)),
        Some(Duration::from_millis(1200)),
    );
    assert_eq!(segment.title(), "loaded");
    assert_eq!(segment.history(), history.as_slice());
    assert_eq!(segment.best_time(), Some(Duration::from_secs(7)));
    assert_eq!(segment.best_segment(), Some(Duration::from_millis(1200)));
}

#[test]
fn add_time_appends_every_time_to_the_history() {
    let mut segment = Segment::new("test");
    segment.add_time(Duration::from_secs(3));
    segment.add_time(Duration::from_secs(5));
    segment.add_time(Duration::from_secs(3));
    segment.add_time(Duration::from_secs(2));
    assert_eq!(
        segment.history(),
        &[
            Duration::from_secs(3),
            Duration::from_secs(5),
            Duration::from_secs(3),
            Duration::from_secs(2),
        ]
    );
    assert_eq!(segment.best_segment(), None);
}

#[test]
fn best_time_never_grows() {
    let times: [u64; 8] = [40, 55, 40, 39, 39, 70, 12, 13];
    let mut segment = Segment::new("test");
    let mut previous: Option<Duration> = None;
    let mut least = u64::MAX;
    for t in times {
        segment.add_time(Duration::from_millis(t));
        least = least.min(t);
        let best = segment.best_time().unwrap();
        if let Some(p) = previous {
            assert!(best.as_nanos() <= p.as_nanos());
            if best != p {
                assert_eq!(best, Duration::from_millis(t));
                assert!(t * 1_000_000 < p.as_nanos() as u64);
            }
        }
        assert_eq!(best, Duration::from_millis(least));
        previous = Some(best);
    }
    assert_eq!(segment.history().len(), times.len());
}

#[test]
fn a_tie_does_not_change_the_best() {
    let mut segment = Segment::load(
        "tie".to_string(),
        Vec::new(),
        Some(Duration::from_secs(3)),
        Some(Duration::from_secs(1)),
    );
    segment.add_time(Duration::from_secs(3));
    segment.add_segment_time(Duration::from_secs(1));
    assert_eq!(segment.best_time(), Some(Duration::from_secs(3)));
    assert_eq!(segment.best_segment(), Some(Duration::from_secs(1)));
    assert_eq!(segment.history(), &[Duration::from_secs(3)]);
}

#[test]
fn add_segment_time_keeps_the_shortest_and_leaves_the_history() {
    let mut segment = Segment::new("test");
    assert_eq!(segment.best_segment(), None);
    segment.add_segment_time(Duration::from_secs(4));
    assert_eq!(segment.best_segment(), Some(Duration::from_secs(4)));
    segment.add_segment_time(Duration::from_secs(6));
    assert_eq!(segment.best_segment(), Some(Duration::from_secs(4)));
    segment.add_segment_time(Duration::from_millis(3999));
    assert_eq!(segment.best_segment(), Some(Duration::from_millis(3999)));
    assert!(segment.history().is_empty());
    assert_eq!(segment.best_time(), None);
}

#[test]
fn best_time_and_best_segment_are_kept_apart() {
    let mut segment = Segment::new("test");
    segment.add_time(Duration::from_secs(10));
    segment.add_segment_time(Duration::from_secs(2));
    segment.add_time(Duration::from_secs(1));
    assert_eq!(segment.best_time(), Some(Duration::from_secs(1)));
    assert_eq!(segment.best_segment(), Some(Duration::from_secs(2)));
}

#[test]
fn segment_clone_is_equal_in_every_part() {
    let mut segment = Segment::new("test");
    segment.add_time(Duration::from_secs(10));
    segment.add_segment_time(Duration::from_secs(2));
    let copy = segment.clone();
    assert_eq!(copy.title(), segment.title());
    assert_eq!(copy.history(), segment.history());
    assert_eq!(copy.best_time(), segment.best_time());
    assert_eq!(copy.best_segment(), segment.best_segment());
}
