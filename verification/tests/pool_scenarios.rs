use workpool::pool::{ThreadPool, Worker, WorkerState};

fn sorted(mut v: Vec<usize>) -> Vec<usize> {
    v.sort();
    v
}

#[test]
fn construction_produces_n_workers() {
    let one: ThreadPool<usize> = ThreadPool::new(1);
    assert_eq!(one.worker_count(), 1);
    assert!(one.worker_is_waiting(0));

    let five: ThreadPool<usize> = ThreadPool::new(5);
    assert_eq!(five.worker_count(), 5);
    for i in 0..5 {
        assert!(five.worker_is_waiting(i));
        assert!(!five.worker_is_terminated(i));
    }
}

#[test]
fn worker_new_starts_waiting() {
    let w: Worker<usize> = Worker::new(3);
    assert_eq!(w.id, 3);
    assert!(matches!(w.state, WorkerState::Waiting));
}

#[test]
fn pool_concrete_scenario() {
    // Two workers, four items; after shutdown the completion record holds
    // all four indices, each exactly once.
    let mut pool: ThreadPool<usize> = ThreadPool::new(2);
    for i in 0..4 {
        pool.execute(i);
    }
    pool.run_to_completion();
    assert_eq!(pool.completed.len(), 4);
    assert_eq!(sorted(pool.completed.clone()), vec![0, 1, 2, 3]);
    for i in 0..2 {
        assert!(pool.worker_is_terminated(i));
    }
    assert_eq!(pool.queue.len(), 0);
}

#[test]
fn idle_pool_teardown() {
    // A pool with nothing submitted shuts down cleanly: no waiting forever,
    // nothing completed, every worker exited.
    let mut pool: ThreadPool<u64> = ThreadPool::new(3);
    pool.run_to_completion();
    assert_eq!(pool.completed.len(), 0);
    assert_eq!(pool.queue.len(), 0);
    for i in 0..3 {
        assert!(pool.worker_is_terminated(i));
    }
}

#[test]
fn interleaved_steps_run_each_item_once() {
    // Drive the workers by hand in a scrambled order; every item still runs
    // exactly once.
    let mut pool: ThreadPool<usize> = ThreadPool::new(2);
    pool.execute(10);
    pool.execute(20);
    pool.worker_receive(1);
    pool.execute(30);
    pool.worker_receive(0);
    pool.worker_finish(0);
    pool.worker_receive(0);
    pool.worker_finish(1);
    pool.execute(40);
    pool.run_to_completion();
    assert_eq!(sorted(pool.completed.clone()), vec![10, 20, 30, 40]);
}

#[test]
fn delivery_follows_submission_order() {
    // With one worker the completion record is exactly the submission order.
    let mut pool: ThreadPool<usize> = ThreadPool::new(1);
    pool.execute(7);
    pool.execute(8);
    pool.execute(9);
    pool.run_to_completion();
    assert_eq!(pool.completed, vec![7, 8, 9]);
}

#[test]
fn failed_worker_loses_only_its_item() {
    // A worker dying on its item consumes that item alone; the survivor
    // drains the rest at shutdown.
    let mut pool: ThreadPool<usize> = ThreadPool::new(2);
    pool.execute(1);
    pool.execute(2);
    pool.execute(3);
    pool.worker_receive(0);
    pool.worker_fail(0);
    pool.run_to_completion();
    assert!(pool.worker_is_terminated(0));
    assert!(pool.worker_is_terminated(1));
    assert_eq!(sorted(pool.completed.clone()), vec![2, 3]);
}

#[test]
fn dead_pool_drains_nothing() {
    // Once every worker has died, submitted work sits in the queue forever;
    // shutdown still returns, leaving the queue as it was.
    let mut pool: ThreadPool<usize> = ThreadPool::new(1);
    pool.execute(5);
    pool.worker_receive(0);
    pool.worker_fail(0);
    pool.execute(6);
    pool.run_to_completion();
    assert_eq!(pool.completed.len(), 0);
    assert_eq!(pool.queue, vec![6]);
    assert!(pool.worker_is_terminated(0));
}
