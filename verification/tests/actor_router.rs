use btc::actor::commons::{
    PeerRequest, RouterToPeerRequestAndPriority, WorkerToRouterRequest, WorkerToRouterResponse,
};
use btc::actor::router::{Router, RouterAction};
use btc::codec::commons::net_addr::SocketAddress;

fn addr(last: u8) -> SocketAddress {
    SocketAddress::V4 { ip4: [10, 0, 0, last], port: 8333 }
}

fn dummy() -> Box<RouterToPeerRequestAndPriority> {
    Box::new(RouterToPeerRequestAndPriority(PeerRequest::Dummy, 1))
}

fn listed(router: &mut Router) -> Vec<(usize, SocketAddress)> {
    let out = router.handle(WorkerToRouterRequest::ListPeers, true);
    assert!(matches!(out.action, RouterAction::Nothing));
    match out.reply {
        Some(WorkerToRouterResponse::ListPeers(m)) => {
            let mut v: Vec<(usize, SocketAddress)> = m.into_iter().collect();
            v.sort_by_key(|p| p.0);
            v
        }
        other => panic!("unexpected {:?}", other),
    }
}

#[test]
fn registered_actors_are_listed() {
    let mut router = Router::new();
    assert!(listed(&mut router).is_empty());
    router.register(3, addr(3));
    router.register(5, addr(5));
    assert_eq!(listed(&mut router), vec![(3, addr(3)), (5, addr(5))]);
    router.unregister(3);
    assert_eq!(listed(&mut router), vec![(5, addr(5))]);
}

#[test]
fn message_to_one_peer() {
    let mut router = Router::new();
    router.register(1, addr(1));
    let out = router.handle(WorkerToRouterRequest::MsgToPeer(1, dummy()), false);
    assert!(out.reply.is_none());
    match out.action {
        RouterAction::SendTo(1, RouterToPeerRequestAndPriority(PeerRequest::Dummy, 1)) => {}
        other => panic!("unexpected {:?}", other),
    }
    let out = router.handle(WorkerToRouterRequest::MsgToPeer(2, dummy()), false);
    assert!(matches!(out.action, RouterAction::Nothing));
}

#[test]
fn message_to_all_peers() {
    let mut router = Router::new();
    router.register(1, addr(1));
    let req = Box::new(RouterToPeerRequestAndPriority(PeerRequest::Forward(vec![1, 2, 3]), 100));
    let out = router.handle(WorkerToRouterRequest::MsgToAllPeers(req), false);
    match out.action {
        RouterAction::SendToAll(RouterToPeerRequestAndPriority(PeerRequest::Forward(raw), 100)) => {
            assert_eq!(raw, vec![1, 2, 3])
        }
        other => panic!("unexpected {:?}", other),
    }
}

#[test]
fn removed_peer_unreachable_but_listed() {
    let mut router = Router::new();
    router.register(7, addr(7));
    let bye = Box::new(RouterToPeerRequestAndPriority(PeerRequest::SelfRemove, 255));
    let out = router.handle(WorkerToRouterRequest::PeerRemove(7, bye), true);
    assert!(matches!(out.reply, Some(WorkerToRouterResponse::PeerRemove(true))));
    assert!(matches!(
        out.action,
        RouterAction::SendAndDrop(7, RouterToPeerRequestAndPriority(PeerRequest::SelfRemove, 255))
    ));
    let out = router.handle(WorkerToRouterRequest::MsgToPeer(7, dummy()), false);
    assert!(matches!(out.action, RouterAction::Nothing));
    assert_eq!(listed(&mut router), vec![(7, addr(7))]);

    // Removing it again finds no messenger but still answers true.
    let bye = Box::new(RouterToPeerRequestAndPriority(PeerRequest::SelfRemove, 255));
    let out = router.handle(WorkerToRouterRequest::PeerRemove(7, bye), true);
    assert!(matches!(out.action, RouterAction::Nothing));
    assert!(matches!(out.reply, Some(WorkerToRouterResponse::PeerRemove(true))));
}

#[test]
fn requests_with_wrong_reply_expectation() {
    let mut router = Router::new();
    router.register(1, addr(1));
    let out = router.handle(WorkerToRouterRequest::ListPeers, false);
    assert!(matches!(out.action, RouterAction::LogicError));
    assert!(out.reply.is_none());
    let out = router.handle(WorkerToRouterRequest::MsgToPeer(1, dummy()), true);
    assert!(matches!(out.action, RouterAction::LogicError));
    assert!(out.reply.is_none());
    assert_eq!(listed(&mut router), vec![(1, addr(1))]);
}

#[test]
fn listed_after_registrations_and_removals() {
    let mut router = Router::new();
    router.register(1, addr(1));
    router.register(2, addr(2));
    router.register(1, addr(11));
    router.unregister(2);
    let out = router.handle(WorkerToRouterRequest::PeerRemove(1, dummy()), true);
    assert!(matches!(out.action, RouterAction::SendAndDrop(1, _)));
    router.register(3, addr(3));
    router.unregister(3);
    router.register(3, addr(33));
    assert_eq!(listed(&mut router), vec![(1, addr(11)), (3, addr(33))]);
}
