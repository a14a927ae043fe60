use tapi::pool::{HashWorkerPool, PoolStep, DEFAULT_CONCURRENCY};

#[test]
fn default_cap_is_three() {
    assert_eq!(DEFAULT_CONCURRENCY, 3);
    let pool = HashWorkerPool::with_default_cap(10);
    assert_eq!(pool.in_flight(), 0);
    assert_eq!(pool.next_step(), PoolStep::Spawn);
}

#[test]
fn a_pool_without_room_is_refused() {
    assert!(HashWorkerPool::new(0, 5).is_none());
    assert!(HashWorkerPool::new(1, 5).is_some());
}

#[test]
fn never_more_than_the_cap_in_flight() {
    let mut pool = HashWorkerPool::new(3, 10).unwrap();
    assert!(pool.try_start());
    assert!(pool.try_start());
    assert!(pool.try_start());
    assert_eq!(pool.next_step(), PoolStep::AwaitOne);
    assert!(!pool.try_start());
    assert_eq!(pool.in_flight(), 3);
    assert!(pool.finish_one());
    assert_eq!(pool.next_step(), PoolStep::Spawn);
    assert!(pool.try_start());
    assert_eq!(pool.in_flight(), 3);
}

#[test]
fn following_the_steps_hashes_every_candidate() {
    for (cap, candidates) in [(3usize, 10usize), (1, 4), (5, 2), (3, 0)] {
        let mut pool = HashWorkerPool::new(cap, candidates).unwrap();
        let mut started = 0;
        let mut ended = 0;
        let mut steps = 0;
        loop {
            match pool.next_step() {
                PoolStep::Spawn => {
                    assert!(pool.try_start());
                    started += 1;
                }
                PoolStep::AwaitOne => {
                    assert!(pool.finish_one());
                    ended += 1;
                }
                PoolStep::Done => break,
            }
            assert!(pool.in_flight() <= cap);
            steps += 1;
        }
        assert_eq!(started, candidates);
        assert_eq!(ended, candidates);
        assert_eq!(steps, 2 * candidates);
    }
}

#[test]
fn finishing_with_nothing_under_way_changes_nothing() {
    let mut pool = HashWorkerPool::new(2, 0).unwrap();
    assert!(!pool.finish_one());
    assert!(!pool.try_start());
    assert_eq!(pool.next_step(), PoolStep::Done);
}
