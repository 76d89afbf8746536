use authpool::queue::{JobQueue, PoolStep};
use authpool::role::{parse_role, role_from_text, serialize_role, Role};

#[test]
fn roles_serialize_to_their_names() {
    assert_eq!(serialize_role(Role::ADMIN), "ADMIN");
    assert_eq!(serialize_role(Role::USER), "USER");
}

#[test]
fn parse_role_recognises_exact_names_only() {
    assert_eq!(parse_role(&"ADMIN".to_string()), Some(Role::ADMIN));
    assert_eq!(parse_role(&"USER".to_string()), Some(Role::USER));
    assert_eq!(parse_role(&"admin".to_string()), None);
    assert_eq!(parse_role(&"ROOT".to_string()), None);
}

#[test]
fn unknown_role_text_falls_back_to_user() {
    assert_eq!(role_from_text(&Some("BOGUS_ROLE".to_string())), Role::USER);
    assert_eq!(role_from_text(&None), Role::USER);
    assert_eq!(role_from_text(&Some("ADMIN".to_string())), Role::ADMIN);
}

#[test]
fn queue_hands_jobs_out_in_fifo_order_exactly_once() {
    // More jobs than workers lose nothing: every submitted job comes
    // back out, each exactly once, in submission order.
    let mut q: JobQueue<u64> = JobQueue::new();
    for j in 0..10u64 {
        q.submit(j);
    }
    assert_eq!(q.len(), 10);
    let mut seen: Vec<u64> = Vec::new();
    loop {
        match q.next_step() {
            PoolStep::Run(j) => seen.push(j),
            PoolStep::Wait => break,
            PoolStep::Exit => unreachable!(),
        }
    }
    assert_eq!(seen, (0..10u64).collect::<Vec<u64>>());
    assert_eq!(q.len(), 0);
}

#[test]
fn closed_and_drained_queue_tells_workers_to_exit() {
    let mut q: JobQueue<u64> = JobQueue::new();
    q.submit(1);
    q.close();
    assert!(matches!(q.next_step(), PoolStep::Run(1)));
    assert!(matches!(q.next_step(), PoolStep::Exit));
}

#[test]
fn open_empty_queue_tells_workers_to_wait() {
    let mut q: JobQueue<u64> = JobQueue::new();
    assert!(matches!(q.next_step(), PoolStep::Wait));
}
