use audio_fx::error::ConfigError;
use audio_fx::queue::SampleQueue;
use audio_fx::ring::MAX_FRAMES;

#[test]
fn queue_keeps_arrival_order() {
    let mut q = SampleQueue::new(3).unwrap();
    assert!(q.try_push(10));
    assert!(q.try_push(20));
    assert!(q.try_push(30));
    assert_eq!(q.len(), 3);
    assert_eq!(q.try_pop(), Some(10));
    assert_eq!(q.try_pop(), Some(20));
    assert_eq!(q.try_pop(), Some(30));
    assert_eq!(q.try_pop(), None);
}

#[test]
fn queue_refuses_a_capacity_beyond_the_limit() {
    assert!(matches!(SampleQueue::new(MAX_FRAMES + 1), Err(ConfigError::TooLong)));
}

#[test]
fn new_queue_is_empty_and_reports_its_capacity() {
    let q = SampleQueue::new(7).unwrap();
    assert_eq!(q.capacity(), 7);
    assert_eq!(q.len(), 0);
    assert!(q.is_empty());
    assert!(!q.is_full());
}

#[test]
fn queue_never_reports_more_than_its_capacity() {
    let mut q = SampleQueue::new(4).unwrap();
    let mut next: u32 = 0;
    for round in 0..50usize {
        for _ in 0..(round % 7) {
            q.try_push(next);
            next += 1;
            assert!(q.len() <= 4);
        }
        for _ in 0..(round % 3) {
            q.try_pop();
            assert!(q.len() <= 4);
        }
    }
}

#[test]
fn pop_from_an_empty_queue_gives_nothing() {
    let mut q = SampleQueue::new(2).unwrap();
    assert_eq!(q.try_pop(), None);
    assert!(q.try_push(5));
    assert_eq!(q.try_pop(), Some(5));
    assert_eq!(q.try_pop(), None);
    assert_eq!(q.try_pop(), None);
    assert!(q.is_empty());
}

#[test]
fn one_push_too_many_drops_the_newest() {
    let n: usize = 5;
    let mut q = SampleQueue::new(n).unwrap();
    for i in 0..n {
        assert!(q.try_push(100 + i as u32));
    }
    assert!(q.is_full());
    assert!(!q.try_push(999));
    assert_eq!(q.len(), n);
    for i in 0..n {
        assert_eq!(q.try_pop(), Some(100 + i as u32));
    }
    assert_eq!(q.try_pop(), None);
}

#[test]
fn queue_of_no_capacity_takes_nothing() {
    let mut q = SampleQueue::new(0).unwrap();
    assert!(q.is_full());
    assert!(q.is_empty());
    assert!(!q.try_push(1));
    assert_eq!(q.try_pop(), None);
}

#[test]
fn queue_wraps_around_its_storage() {
    let mut q = SampleQueue::new(3).unwrap();
    for i in 0..20u32 {
        assert!(q.try_push(i));
        assert!(q.try_push(i + 1000));
        assert_eq!(q.try_pop(), Some(i));
        assert_eq!(q.try_pop(), Some(i + 1000));
    }
    assert!(q.is_empty());
}

#[test]
fn config_errors_say_what_is_wrong() {
    assert_eq!(ConfigError::ZeroLength.describe(), "a delay line must hold at least one sample");
    assert_eq!(
        ConfigError::TooLong.describe(),
        "more samples were asked for than a ring can hold"
    );
}
