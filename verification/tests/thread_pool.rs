use m3u8downloader::thread_pool::{Next, ThreadPool};

#[test]
fn workers_are_numbered() {
    let pool: ThreadPool<u32> = ThreadPool::new(3);
    let ids: Vec<usize> = pool.workers.iter().map(|w| w.id).collect();
    assert_eq!(ids, [0, 1, 2]);
    assert!(pool.accepts());
    let none: ThreadPool<u32> = ThreadPool::new(0);
    assert!(!none.accepts());
}

#[test]
fn jobs_are_taken_in_order() {
    let mut pool: ThreadPool<u32> = ThreadPool::new(2);
    assert!(matches!(pool.next(), Next::Wait));
    pool.execute(1);
    pool.execute(2);
    assert!(matches!(pool.next(), Next::Run(1)));
    pool.execute(3);
    assert!(matches!(pool.next(), Next::Run(2)));
    assert!(matches!(pool.next(), Next::Run(3)));
    assert!(matches!(pool.next(), Next::Wait));
}

#[test]
fn a_pool_that_is_shut_down_hands_out_what_waits() {
    let mut pool: ThreadPool<u32> = ThreadPool::new(1);
    pool.execute(1);
    pool.shut_down();
    assert!(!pool.accepts());
    assert!(matches!(pool.next(), Next::Run(1)));
    assert!(matches!(pool.next(), Next::Stop));
    assert!(matches!(pool.next(), Next::Stop));
}

#[test]
fn a_pool_without_workers_takes_no_jobs() {
    let mut pool: ThreadPool<u32> = ThreadPool::new(2);
    pool.lose_worker();
    assert!(pool.accepts());
    pool.lose_worker();
    assert!(!pool.accepts());
}
