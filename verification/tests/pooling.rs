use multiverse9core::pooling::{Claim, Pool};

fn run(claim: Claim<u32>) -> u32 {
    match claim {
        Claim::Run(job) => job,
        _ => panic!("a job waits and a worker is free"),
    }
}

#[test]
fn new_pool_is_open_and_empty() {
    let mut pool: Pool<u32> = Pool::new(3);
    assert_eq!(pool.size(), 3);
    assert!(!pool.drained());
    assert!(matches!(pool.claim(), Claim::Wait));
}

#[test]
fn jobs_are_handed_out_in_the_order_of_submission() {
    let mut pool: Pool<u32> = Pool::new(4);
    for job in [10, 20, 30] {
        assert_eq!(pool.execute(job), Ok(()));
    }
    assert_eq!(run(pool.claim()), 10);
    assert_eq!(run(pool.claim()), 20);
    assert_eq!(run(pool.claim()), 30);
    assert!(matches!(pool.claim(), Claim::Wait));
}

#[test]
fn every_job_is_run_exactly_once() {
    let mut pool: Pool<u32> = Pool::new(2);
    let submitted: Vec<u32> = (0..7).collect();
    for job in &submitted {
        assert_eq!(pool.execute(*job), Ok(()));
    }
    pool.close();
    let mut ran: Vec<u32> = vec![];
    let mut busy = 0;
    loop {
        match pool.claim() {
            Claim::Run(job) => {
                ran.push(job);
                busy += 1;
                assert!(busy <= 2);
            }
            Claim::Wait => {
                pool.finish();
                busy -= 1;
            }
            Claim::Exit => break,
        }
    }
    assert_eq!(ran, submitted);
    while busy > 0 {
        assert!(!pool.drained());
        pool.finish();
        busy -= 1;
    }
    assert!(pool.drained());
}

#[test]
fn no_more_jobs_run_than_there_are_workers() {
    let mut pool: Pool<u32> = Pool::new(1);
    assert_eq!(pool.execute(1), Ok(()));
    assert_eq!(pool.execute(2), Ok(()));
    assert_eq!(run(pool.claim()), 1);
    assert!(matches!(pool.claim(), Claim::Wait));
    pool.finish();
    assert_eq!(run(pool.claim()), 2);
}

#[test]
fn closed_pool_hands_a_job_back() {
    let mut pool: Pool<u32> = Pool::new(2);
    assert_eq!(pool.execute(1), Ok(()));
    pool.close();
    assert_eq!(pool.execute(2), Err(2));
    assert_eq!(run(pool.claim()), 1);
    assert!(matches!(pool.claim(), Claim::Exit));
}

#[test]
fn teardown_waits_for_the_jobs_in_flight() {
    let mut pool: Pool<u32> = Pool::new(2);
    assert_eq!(pool.execute(1), Ok(()));
    assert_eq!(pool.execute(2), Ok(()));
    assert_eq!(run(pool.claim()), 1);
    pool.close();
    assert!(!pool.drained());
    assert_eq!(run(pool.claim()), 2);
    assert!(!pool.drained());
    pool.finish();
    assert!(!pool.drained());
    pool.finish();
    assert!(pool.drained());
    assert!(matches!(pool.claim(), Claim::Exit));
}

#[test]
fn finish_without_a_job_changes_nothing() {
    let mut pool: Pool<u32> = Pool::new(2);
    pool.finish();
    assert_eq!(pool.execute(5), Ok(()));
    assert_eq!(run(pool.claim()), 5);
    assert_eq!(pool.size(), 2);
}
