use btc::actor::commons::{AddrReqId, SchedulerError, SchedulerResponse};
use btc::actor::scheduler::{Dispatch, ReplyTable, Scheduler};

fn register(s: &mut Scheduler) -> usize {
    match s.register() {
        SchedulerResponse::RegisterResponse(Ok(id)) => id,
        other => panic!("unexpected {:?}", other),
    }
}

#[test]
fn registrations_get_fresh_numbers() {
    let mut s = Scheduler::new(3);
    assert_eq!(register(&mut s), 0);
    assert_eq!(register(&mut s), 1);
    assert!(s.is_registered(0));
    assert!(matches!(s.unregister(0), SchedulerResponse::UnregisterResponse(Ok(()))));
    assert!(!s.is_registered(0));
    assert!(matches!(
        s.unregister(0),
        SchedulerResponse::UnregisterResponse(Err(SchedulerError::NotRegistered))
    ));
    assert_eq!(register(&mut s), 2);
}

#[test]
fn workers_fill_up_to_max_tasks() {
    let mut s = Scheduler::new(2);
    let a = register(&mut s);
    assert_eq!(s.dispatch(AddrReqId(a, 1)), Ok(Dispatch { worker: 0, spawned: true }));
    assert_eq!(s.dispatch(AddrReqId(a, 2)), Ok(Dispatch { worker: 0, spawned: false }));
    assert_eq!(s.dispatch(AddrReqId(a, 3)), Ok(Dispatch { worker: 1, spawned: true }));
    assert_eq!(s.dispatch(AddrReqId(a, 4)), Ok(Dispatch { worker: 1, spawned: false }));
    assert_eq!(s.workers(), 2);
    assert_eq!(s.load(0), 2);
    assert_eq!(s.load(1), 2);
    // Worker 0 answers one request: the next goes to it, the least loaded.
    assert_eq!(s.respond(AddrReqId(a, 2)), Ok(0));
    assert_eq!(s.dispatch(AddrReqId(a, 5)), Ok(Dispatch { worker: 0, spawned: false }));
}

#[test]
fn zero_max_tasks_spawns_every_time() {
    let mut s = Scheduler::new(0);
    let a = register(&mut s);
    assert_eq!(s.dispatch(AddrReqId(a, 1)), Ok(Dispatch { worker: 0, spawned: true }));
    assert_eq!(s.dispatch(AddrReqId(a, 2)), Ok(Dispatch { worker: 1, spawned: true }));
    assert_eq!(s.load(0), 1);
}

#[test]
fn dispatch_errors() {
    let mut s = Scheduler::new(3);
    assert_eq!(s.dispatch(AddrReqId(0, 1)), Err(SchedulerError::NotRegistered));
    let a = register(&mut s);
    assert!(s.dispatch(AddrReqId(a, 1)).is_ok());
    assert_eq!(s.dispatch(AddrReqId(a, 1)), Err(SchedulerError::DuplicateRequest));
    assert_eq!(s.load(0), 1);
}

#[test]
fn respond_undoes_dispatch() {
    let mut s = Scheduler::new(3);
    let a = register(&mut s);
    let b = register(&mut s);
    assert!(s.dispatch(AddrReqId(a, 1)).is_ok());
    assert!(s.dispatch(AddrReqId(b, 1)).is_ok());
    assert_eq!(s.load(0), 2);
    assert_eq!(s.respond(AddrReqId(b, 1)), Ok(0));
    assert_eq!(s.load(0), 1);
    assert_eq!(s.respond(AddrReqId(b, 1)), Err(SchedulerError::NotPending));
    assert_eq!(s.respond(AddrReqId(a, 1)), Ok(0));
    assert_eq!(s.load(0), 0);
    assert_eq!(s.workers(), 1);
}

#[test]
fn register_then_unregister_another() {
    let mut s = Scheduler::new(3);
    let a = register(&mut s);
    let b = register(&mut s);
    assert!(matches!(s.unregister(a), SchedulerResponse::UnregisterResponse(Ok(()))));
    assert!(s.is_registered(b));
    assert!(!s.is_registered(a));
    assert_eq!(s.workers(), 0);
}

#[test]
fn replies_go_to_the_requester() {
    let mut s = Scheduler::new(3);
    let a = register(&mut s);
    let b = register(&mut s);
    let mut replies: ReplyTable<&str> = ReplyTable::new();
    assert!(s.dispatch(AddrReqId(a, 1)).is_ok());
    replies.insert(AddrReqId(a, 1), "a1");
    assert!(s.dispatch(AddrReqId(b, 1)).is_ok());
    replies.insert(AddrReqId(b, 1), "b1");
    assert!(s.dispatch(AddrReqId(a, 2)).is_ok());
    replies.insert(AddrReqId(a, 2), "a2");
    assert_eq!(s.respond(AddrReqId(b, 1)), Ok(0));
    assert_eq!(replies.take(AddrReqId(b, 1)), Some("b1"));
    assert_eq!(replies.take(AddrReqId(b, 1)), None);
    replies.insert(AddrReqId(a, 2), "a2 again");
    assert_eq!(replies.take(AddrReqId(a, 2)), Some("a2 again"));
    replies.forget_actor(a);
    assert_eq!(replies.take(AddrReqId(a, 1)), None);
}
