use tinyserve::error::PoolError;
use tinyserve::pool::{PoolCore, Step, WorkerState};

fn take(p: &mut PoolCore<u32>, w: usize) -> Option<u32> {
    match p.next_job(w) {
        Step::Run(j) => Some(j),
        _ => None,
    }
}

#[test]
fn new_pool_has_size_idle_workers() {
    for size in 1..=8usize {
        let p: PoolCore<u32> = PoolCore::new(size).ok().unwrap();
        assert_eq!(p.size(), size);
        assert!(p.is_open());
        assert_eq!(p.pending(), 0);
        for w in 0..size {
            assert_eq!(p.worker_state(w), WorkerState::Idle);
        }
    }
}

#[test]
fn zero_workers_is_invalid() {
    let r: Result<PoolCore<u32>, PoolError> = PoolCore::new(0);
    assert!(matches!(r, Err(PoolError::InvalidPoolSize)));
}

#[test]
fn each_job_runs_exactly_once() {
    let n: u32 = 20;
    let mut p: PoolCore<u32> = PoolCore::new(3).ok().unwrap();
    for j in 0..n {
        assert_eq!(p.submit(j), Ok(()));
    }
    let mut runs = vec![0u32; n as usize];
    let mut counter = 0u32;
    loop {
        let mut progressed = false;
        for w in 0..3 {
            if let Some(j) = take(&mut p, w) {
                runs[j as usize] += 1;
                counter += 1;
                p.finish(w, false);
                progressed = true;
            }
        }
        if !progressed {
            break;
        }
    }
    assert_eq!(counter, n);
    assert!(runs.iter().all(|&r| r == 1));
}

#[test]
fn single_worker_takes_jobs_in_submission_order() {
    let mut p: PoolCore<u32> = PoolCore::new(1).ok().unwrap();
    for j in [7u32, 3, 9, 1] {
        p.submit(j).unwrap();
    }
    let mut order = Vec::new();
    while let Some(j) = take(&mut p, 0) {
        order.push(j);
        p.finish(0, false);
    }
    assert_eq!(order, vec![7, 3, 9, 1]);
}

#[test]
fn two_workers_can_hold_two_jobs_at_once() {
    let mut p: PoolCore<u32> = PoolCore::new(2).ok().unwrap();
    p.submit(1).unwrap();
    p.submit(2).unwrap();
    assert_eq!(take(&mut p, 0), Some(1));
    assert_eq!(take(&mut p, 1), Some(2));
    // The second job may finish first.
    p.finish(1, false);
    assert_eq!(p.worker_state(1), WorkerState::Idle);
    assert_eq!(p.worker_state(0), WorkerState::Busy);
    p.finish(0, false);
}

#[test]
fn submit_after_close_is_refused() {
    let mut p: PoolCore<u32> = PoolCore::new(2).ok().unwrap();
    p.submit(1).unwrap();
    assert!(p.close());
    assert_eq!(p.submit(2), Err(PoolError::PoolClosed));
    assert_eq!(p.pending(), 1);
    assert!(!p.close());
}

#[test]
fn close_lets_queued_and_running_jobs_finish() {
    let mut p: PoolCore<u32> = PoolCore::new(2).ok().unwrap();
    p.submit(10).unwrap();
    p.submit(11).unwrap();
    assert_eq!(take(&mut p, 0), Some(10));
    p.close();
    // The queued job is still handed out after closing.
    assert_eq!(take(&mut p, 1), Some(11));
    assert!(!p.is_drained());
    p.finish(1, false);
    assert!(matches!(p.next_job(1), Step::Stop));
    assert!(!p.is_drained());
    p.finish(0, false);
    assert!(matches!(p.next_job(0), Step::Stop));
    assert!(p.is_drained());
}

#[test]
fn idle_worker_waits_on_empty_open_queue() {
    let mut p: PoolCore<u32> = PoolCore::new(2).ok().unwrap();
    assert!(matches!(p.next_job(0), Step::Wait));
    assert_eq!(p.worker_state(0), WorkerState::Idle);
}

#[test]
fn four_workers_eight_jobs() {
    let mut p: PoolCore<u32> = PoolCore::new(4).ok().unwrap();
    for j in 0..8u32 {
        p.submit(j).unwrap();
    }
    let mut done = [false; 8];
    let mut counter = 0u32;
    let mut running: Vec<Option<u32>> = vec![None; 4];
    p.close();
    while !p.is_drained() {
        for w in 0..4 {
            if let Some(j) = running[w].take() {
                assert!(!done[j as usize]);
                done[j as usize] = true;
                counter += 1;
                p.finish(w, false);
            }
            if p.worker_state(w) == WorkerState::Idle {
                match p.next_job(w) {
                    Step::Run(j) => running[w] = Some(j),
                    Step::Wait => {}
                    Step::Stop => {}
                }
            }
        }
    }
    assert_eq!(counter, 8);
    assert!(done.iter().all(|&d| d));
}

#[test]
fn faulty_job_does_not_cost_a_worker() {
    let mut p: PoolCore<u32> = PoolCore::new(2).ok().unwrap();
    p.submit(1).unwrap();
    p.submit(2).unwrap();
    assert_eq!(take(&mut p, 0), Some(1));
    p.finish(0, true);
    assert_eq!(p.faults(), 1);
    assert_eq!(p.worker_state(0), WorkerState::Idle);
    assert_eq!(take(&mut p, 0), Some(2));
    p.finish(0, false);
    assert_eq!(p.faults(), 1);
    assert_eq!(p.pending(), 0);
}

#[test]
fn at_most_size_jobs_run_at_once() {
    let mut p: PoolCore<u32> = PoolCore::new(3).ok().unwrap();
    for j in 0..4u32 {
        p.submit(j).unwrap();
    }
    for w in 0..3 {
        assert_eq!(take(&mut p, w), Some(w as u32));
    }
    assert_eq!(p.pending(), 1);
    assert_eq!(p.size(), 3);
    p.finish(2, false);
    assert_eq!(take(&mut p, 2), Some(3));
}
