use rust_scanner::{IpAddress, PortState, ScanEntry, ScanResults, WorkQueue, WorkerStep};

fn taken(step: WorkerStep<u32>) -> Option<u32> {
    match step {
        WorkerStep::Run(task) => Some(task),
        _ => None,
    }
}

#[test]
fn a_new_queue_is_open_and_empty() {
    let queue: WorkQueue<u32> = WorkQueue::new(4);
    assert_eq!(queue.worker_count(), 4);
    assert_eq!(queue.pending_tasks(), 0);
    assert_eq!(queue.running_tasks(), 0);
    assert!(!queue.is_closed());
    assert!(queue.is_drained());
}

#[test]
fn tasks_start_in_the_order_they_came() {
    let mut queue = WorkQueue::new(8);
    for task in [5u32, 3, 9, 3, 1] {
        assert_eq!(queue.submit(task), Ok(()));
    }
    assert_eq!(queue.pending_tasks(), 5);
    let mut started = Vec::new();
    while let Some(task) = taken(queue.next()) {
        started.push(task);
    }
    assert_eq!(started, vec![5, 3, 9, 3, 1]);
    assert_eq!(queue.pending_tasks(), 0);
    assert_eq!(queue.running_tasks(), 5);
}

#[test]
fn no_more_tasks_run_than_the_pool_has_workers() {
    let mut queue = WorkQueue::new(4);
    for task in 0..10u32 {
        assert_eq!(queue.submit(task), Ok(()));
    }
    for task in 0..4u32 {
        assert_eq!(taken(queue.next()), Some(task));
    }
    assert_eq!(queue.running_tasks(), 4);
    assert!(matches!(queue.next(), WorkerStep::Wait));
    assert!(matches!(queue.next(), WorkerStep::Wait));
    assert_eq!(queue.running_tasks(), 4);
    assert_eq!(queue.pending_tasks(), 6);
    queue.finish();
    assert_eq!(queue.running_tasks(), 3);
    assert_eq!(taken(queue.next()), Some(4));
    assert!(matches!(queue.next(), WorkerStep::Wait));
    assert_eq!(queue.running_tasks(), 4);
}

#[test]
fn all_submitted_tasks_are_run() {
    let workers = 3;
    let mut queue = WorkQueue::new(workers);
    for task in 0..20u32 {
        assert_eq!(queue.submit(task), Ok(()));
    }
    let mut running = 0;
    let mut done = Vec::new();
    let mut in_hand = Vec::new();
    while !queue.is_drained() {
        match queue.next() {
            WorkerStep::Run(task) => {
                in_hand.push(task);
                running += 1;
                assert!(running <= workers);
                assert_eq!(queue.running_tasks(), running);
            }
            WorkerStep::Wait => {
                done.push(in_hand.remove(0));
                queue.finish();
                running -= 1;
            }
            WorkerStep::Exit => panic!("the pool was not closed"),
        }
    }
    assert_eq!(done, (0..20).collect::<Vec<u32>>());
    assert_eq!(queue.running_tasks(), 0);
}

#[test]
fn a_single_worker_runs_one_task_at_a_time() {
    let mut queue = WorkQueue::new(1);
    assert_eq!(queue.submit(1u32), Ok(()));
    assert_eq!(queue.submit(2u32), Ok(()));
    assert_eq!(taken(queue.next()), Some(1));
    assert!(matches!(queue.next(), WorkerStep::Wait));
    queue.finish();
    assert_eq!(taken(queue.next()), Some(2));
    queue.finish();
    assert!(matches!(queue.next(), WorkerStep::Wait));
    assert!(queue.is_drained());
}

#[test]
fn workers_wait_while_the_pool_is_open() {
    let mut queue: WorkQueue<u32> = WorkQueue::new(2);
    assert!(matches!(queue.next(), WorkerStep::Wait));
    assert_eq!(queue.submit(7), Ok(()));
    assert_eq!(taken(queue.next()), Some(7));
    assert!(matches!(queue.next(), WorkerStep::Wait));
}

#[test]
fn a_closed_pool_lets_its_workers_go_once_nothing_is_pending() {
    let mut queue = WorkQueue::new(2);
    for task in 0..3u32 {
        assert_eq!(queue.submit(task), Ok(()));
    }
    queue.close();
    assert!(queue.is_closed());
    assert_eq!(taken(queue.next()), Some(0));
    assert_eq!(taken(queue.next()), Some(1));
    assert!(matches!(queue.next(), WorkerStep::Wait));
    queue.finish();
    assert_eq!(taken(queue.next()), Some(2));
    assert!(matches!(queue.next(), WorkerStep::Exit));
    queue.finish();
    queue.finish();
    assert!(matches!(queue.next(), WorkerStep::Exit));
    assert!(queue.is_drained());
}

#[test]
fn a_closed_pool_hands_a_task_back() {
    let mut queue = WorkQueue::new(2);
    assert_eq!(queue.submit(1u32), Ok(()));
    queue.close();
    assert_eq!(queue.submit(2u32), Err(2));
    assert_eq!(queue.pending_tasks(), 1);
    assert_eq!(taken(queue.next()), Some(1));
    assert!(matches!(queue.next(), WorkerStep::Exit));
}

#[test]
fn finishing_when_nothing_runs_changes_nothing() {
    let mut queue = WorkQueue::new(2);
    queue.finish();
    assert_eq!(queue.running_tasks(), 0);
    assert_eq!(queue.submit(1u32), Ok(()));
    queue.finish();
    assert_eq!(queue.pending_tasks(), 1);
    assert_eq!(queue.running_tasks(), 0);
    assert!(!queue.is_drained());
}

#[test]
fn a_state_is_recorded_once() {
    let address = IpAddress::V4(0x0A00_0005);
    let mut results = ScanResults::new();
    assert_eq!(results.get(address, 443), None);
    assert!(results.record(address, 443, PortState::Opened));
    assert_eq!(results.get(address, 443), Some(PortState::Opened));
    assert!(!results.record(address, 443, PortState::Closed));
    assert_eq!(results.get(address, 443), Some(PortState::Opened));
    assert_eq!(results.entries().len(), 1);
}

#[test]
fn pairings_are_told_apart_by_address_and_port() {
    let v4 = IpAddress::V4(5);
    let v6 = IpAddress::V6(5);
    let mut results = ScanResults::new();
    assert!(results.record(v4, 80, PortState::Opened));
    assert!(results.record(v4, 81, PortState::Closed));
    assert!(results.record(v6, 80, PortState::Filtered));
    assert_eq!(results.get(v4, 80), Some(PortState::Opened));
    assert_eq!(results.get(v4, 81), Some(PortState::Closed));
    assert_eq!(results.get(v6, 80), Some(PortState::Filtered));
    assert_eq!(results.get(v6, 81), None);
    assert_eq!(results.get(IpAddress::V4(6), 80), None);
    assert_eq!(
        results.entries(),
        &vec![
            ScanEntry { address: v4, port: 80, state: PortState::Opened },
            ScanEntry { address: v4, port: 81, state: PortState::Closed },
            ScanEntry { address: v6, port: 80, state: PortState::Filtered },
        ]
    );
}

#[test]
fn results_do_not_depend_on_the_order_of_arrival() {
    let found = [
        (IpAddress::V4(1), 22, PortState::Opened),
        (IpAddress::V4(1), 80, PortState::Closed),
        (IpAddress::V4(2), 22, PortState::Filtered),
        (IpAddress::V6(1), 22, PortState::Closed),
    ];
    let mut forward = ScanResults::new();
    for (address, port, state) in found {
        assert!(forward.record(address, port, state));
    }
    let mut backward = ScanResults::new();
    for (address, port, state) in found.iter().rev() {
        assert!(backward.record(*address, *port, *state));
    }
    for (address, port, state) in found {
        assert_eq!(forward.get(address, port), Some(state));
        assert_eq!(backward.get(address, port), Some(state));
    }
}
