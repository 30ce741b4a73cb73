use mini_std::thread_pool::{SharedData, WorkerAction};

#[test]
fn new_state_has_no_jobs_and_is_running() {
    let d: SharedData<u32> = SharedData::new();
    assert!(d.jobs.is_empty());
    assert!(!d.is_dead);
}

#[test]
fn empty_running_queue_waits() {
    let mut d: SharedData<u32> = SharedData::new();
    assert!(matches!(d.next_action(), WorkerAction::Wait));
    assert!(d.jobs.is_empty());
}

#[test]
fn jobs_run_in_order() {
    let mut d: SharedData<u32> = SharedData::new();
    d.push_job(1);
    d.push_job(2);
    d.push_job(3);
    assert!(matches!(d.next_action(), WorkerAction::Run(1)));
    d.push_job(4);
    assert!(matches!(d.next_action(), WorkerAction::Run(2)));
    assert!(matches!(d.next_action(), WorkerAction::Run(3)));
    assert!(matches!(d.next_action(), WorkerAction::Run(4)));
    assert!(matches!(d.next_action(), WorkerAction::Wait));
}

#[test]
fn shutdown_wins_over_queued_jobs() {
    let mut d: SharedData<u32> = SharedData::new();
    d.push_job(1);
    d.is_dead = true;
    assert!(matches!(d.next_action(), WorkerAction::Exit));
    assert!(matches!(d.next_action(), WorkerAction::Exit));
    assert_eq!(d.jobs.len(), 1);
}

#[test]
fn queued_closures_run_in_order() {
    let mut d: SharedData<Box<dyn FnOnce(usize) -> usize>> = SharedData::new();
    d.push_job(Box::new(|id| id + 10));
    d.push_job(Box::new(|id| id * 10));
    let mut results = Vec::new();
    while let WorkerAction::Run(job) = d.next_action() {
        results.push(job(3));
    }
    assert_eq!(results, vec![13, 30]);
}
