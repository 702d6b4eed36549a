use bank_system::priority_async_channel::ChannelError;
use bank_system::threadpool::Inbox;
use bank_system::threadpool::Message;
use bank_system::threadpool::Pool;
use bank_system::threadpool::PoolError;
use bank_system::threadpool::Worker;

fn work<J>(worker: &mut Worker, inbox: &Inbox<J>) -> Vec<J> {
    let mut jobs = Vec::new();
    while worker.is_running() {
        if let Some(job) = worker.serve(inbox).unwrap() {
            jobs.push(job);
        }
    }
    jobs
}

#[test]
fn a_pool_needs_a_worker() {
    assert!(matches!(Pool::<u8>::new(0), Err(PoolError::InvalidPoolConfig)));
    assert_eq!(
        PoolError::InvalidPoolConfig.message(),
        "max_workers must be greater than zero!"
    );
    let (pool, _inbox) = Pool::<u8>::new(4).unwrap();
    assert_eq!(pool.max_workers(), 4);
}

#[test]
fn one_worker_runs_normal_jobs_in_submission_order() {
    let (mut pool, inbox) = Pool::new(1).unwrap();
    pool.execute(1, false).unwrap();
    pool.execute(2, false).unwrap();
    pool.execute(3, false).unwrap();
    pool.shutdown().unwrap();
    let mut worker = Worker::new(0);
    assert_eq!(work(&mut worker, &inbox), vec![1, 2, 3]);
    assert!(!worker.is_running());
}

#[test]
fn shutdown_stops_every_worker_after_the_queued_jobs() {
    let (mut pool, inbox) = Pool::new(3).unwrap();
    pool.execute("a", false).unwrap();
    pool.execute("b", true).unwrap();
    pool.execute("c", false).unwrap();
    pool.shutdown().unwrap();
    let mut taken = Vec::new();
    for id in 0..3 {
        let mut worker = Worker::new(id);
        assert_eq!(worker.id(), id);
        taken.extend(work(&mut worker, &inbox.clone()));
        assert!(!worker.is_running());
    }
    assert_eq!(taken, vec!["b", "a", "c"]);
    drop(pool);
    assert!(matches!(inbox.next_message(), Err(ChannelError::NoSender)));
}

#[test]
fn a_worker_stops_on_the_first_farewell() {
    let mut worker = Worker::new(7);
    assert!(worker.is_running());
    assert_eq!(worker.handle(Message::NewJob(5)), Some(5));
    assert!(worker.is_running());
    assert_eq!(worker.handle(Message::<i32>::ByeBye), None);
    assert!(!worker.is_running());
    assert_eq!(worker.id(), 7);
}

#[test]
fn a_worker_without_a_pool_keeps_running() {
    let (pool, inbox) = Pool::<u8>::new(1).unwrap();
    drop(pool);
    let mut worker = Worker::new(0);
    assert_eq!(worker.serve(&inbox), Err(ChannelError::NoSender));
    assert!(worker.is_running());
}

#[test]
fn the_clones_of_an_inbox_take_from_one_queue() {
    let (mut pool, inbox) = Pool::new(2).unwrap();
    let other = inbox.clone();
    pool.execute(1, false).unwrap();
    pool.execute(2, false).unwrap();
    assert!(matches!(other.next_message(), Ok(Message::NewJob(1))));
    assert!(matches!(inbox.next_message(), Ok(Message::NewJob(2))));
    pool.shutdown().unwrap();
    assert!(matches!(other.next_message(), Ok(Message::ByeBye)));
    assert!(matches!(inbox.next_message(), Ok(Message::ByeBye)));
}

#[test]
fn execute_without_a_receiver_is_refused() {
    let (mut pool, inbox) = Pool::new(2).unwrap();
    drop(inbox);
    assert_eq!(pool.execute(1, false), Err(ChannelError::NoReceiver));
    assert_eq!(pool.shutdown(), Err(ChannelError::NoReceiver));
}

#[test]
fn jobs_are_closures_that_the_worker_runs() {
    let (mut pool, inbox) = Pool::<Box<dyn FnOnce() -> i32>>::new(1).unwrap();
    pool.execute(Box::new(|| 1), false).unwrap();
    pool.execute(Box::new(|| 2), true).unwrap();
    pool.shutdown().unwrap();
    let mut worker = Worker::new(0);
    let results: Vec<i32> = work(&mut worker, &inbox).into_iter().map(|job| job()).collect();
    assert_eq!(results, vec![2, 1]);
}

#[test]
fn four_workers_take_each_of_ten_mixed_jobs_once() {
    let (mut pool, inbox) = Pool::new(4).unwrap();
    for i in 0..10 {
        pool.execute(i, i % 2 == 0).unwrap();
    }
    pool.shutdown().unwrap();
    let mut taken = Vec::new();
    for id in 0..4 {
        let mut worker = Worker::new(id);
        taken.extend(work(&mut worker, &inbox));
        assert!(!worker.is_running());
    }
    assert_eq!(taken, vec![8, 6, 4, 2, 0, 1, 3, 5, 7, 9]);
    taken.sort();
    assert_eq!(taken, vec![0, 1, 2, 3, 4, 5, 6, 7, 8, 9]);
    drop(pool);
    assert!(matches!(inbox.next_message(), Err(ChannelError::NoSender)));
}

#[test]
fn shutdown_queues_one_normal_farewell_for_each_worker_behind_the_jobs() {
    let (mut pool, inbox) = Pool::new(3).unwrap();
    pool.execute('a', false).unwrap();
    pool.shutdown().unwrap();
    pool.execute('b', true).unwrap();
    assert!(matches!(inbox.next_message(), Ok(Message::NewJob('b'))));
    assert!(matches!(inbox.next_message(), Ok(Message::NewJob('a'))));
    for _ in 0..3 {
        assert!(matches!(inbox.next_message(), Ok(Message::ByeBye)));
    }
    drop(pool);
    assert!(matches!(inbox.next_message(), Err(ChannelError::NoSender)));
}
