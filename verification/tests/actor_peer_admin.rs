use btc::actor::admin::{on_command, on_execution_line, welcome, AdminAction, AdminCmd, DebugCmd, PeerCmd};
use btc::actor::commons::{AddrReqId, PeerRequest, WorkerRequest, WorkerResponse};
use btc::actor::peer::{Peer, PeerError, StandbyAction};
use btc::codec::commons::net_addr::{NetAddr, SocketAddress};
use btc::codec::msg::Msg;

#[test]
fn request_numbers_count_up() {
    let mut p: Peer<u8> = Peer::new(9);
    assert_eq!(p.actor_id(), 9);
    assert_eq!(p.next_request_counter(), 1);
    assert_eq!(p.next_request_counter(), 2);
    let c = p.worker_request(WorkerRequest::Hello, 7);
    assert_eq!(c.1, AddrReqId(9, 3));
    assert_eq!((c.0).1, 7);
}

#[test]
fn ignored_responses_dropped_when_arrived() {
    let mut p: Peer<&str> = Peer::new(1);
    p.push_ignored("a");
    p.push_ignored("b");
    p.push_ignored("c");
    assert_eq!(p.self_remove_step(), None);
    p.poll_ignored(&vec![false, true, false]);
    assert_eq!(p.ignored_len(), 2);
    p.poll_ignored(&vec![true, true]);
    assert_eq!(p.ignored_len(), 0);
    assert_eq!(p.self_remove_step(), Some(1));
}

#[test]
fn after_handshake_asks_for_headers() {
    let mut p: Peer<u8> = Peer::new(2);
    let version = Msg::new_version_at(&SocketAddress::V4 { ip4: [1, 2, 3, 4], port: 5 }, 1, 2);
    let req = p.on_handshake_done(version);
    assert!(p.version().is_some());
    assert!(matches!((req.0).0, WorkerRequest::NewGetHeaders));
    assert_eq!((req.0).1, 100);
    assert_eq!(req.1, AddrReqId(2, 1));

    let gh = Msg::new_get_headers();
    let bytes = Peer::<u8>::on_get_headers(WorkerResponse::GetHeaders(gh.clone())).unwrap();
    assert_eq!(bytes, gh.into_bytes().unwrap());
    assert_eq!(
        Peer::<u8>::on_get_headers(WorkerResponse::Empty).err(),
        Some(PeerError::UnexpectedResponse)
    );
}

#[test]
fn standby_requests() {
    assert!(matches!(Peer::<u8>::on_standby_request(PeerRequest::Dummy), StandbyAction::Stay));
    assert!(matches!(Peer::<u8>::on_standby_request(PeerRequest::HandShake(vec![1])), StandbyAction::Stay));
    assert!(matches!(Peer::<u8>::on_standby_request(PeerRequest::SelfRemove), StandbyAction::SelfRemove));
    match Peer::<u8>::on_standby_request(PeerRequest::Forward(vec![4, 5])) {
        StandbyAction::Write(b) => assert_eq!(b, vec![4, 5]),
        other => panic!("unexpected {:?}", other),
    }
}

#[test]
fn admin_commands_become_requests() {
    let mut p: Peer<u8> = Peer::new(4);
    match on_command(&mut p, AdminCmd::Peer(PeerCmd::List)) {
        AdminAction::Request(c) => {
            assert!(matches!((c.0).0, WorkerRequest::ListPeers));
            assert_eq!((c.0).1, 200);
            assert_eq!(c.1, AddrReqId(4, 1));
        }
        other => panic!("unexpected {:?}", other),
    }
    match on_command(&mut p, AdminCmd::Debug(DebugCmd::PeerPrint)) {
        AdminAction::Request(c) => {
            assert!(matches!((c.0).0, WorkerRequest::PeerPrint));
            assert_eq!(c.1, AddrReqId(4, 0));
        }
        other => panic!("unexpected {:?}", other),
    }
    match on_command(&mut p, AdminCmd::Debug(DebugCmd::Wait { delay: 2 })) {
        AdminAction::Request(c) => {
            assert!(matches!((c.0).0, WorkerRequest::Wait { delay: 2 }));
            assert_eq!(c.1, AddrReqId(4, 2));
        }
        other => panic!("unexpected {:?}", other),
    }
    assert!(matches!(on_command(&mut p, AdminCmd::Wallet), AdminAction::Stay));
    match on_command(&mut p, AdminCmd::Exit) {
        AdminAction::Exit(c) => {
            assert!(matches!((c.0).0, WorkerRequest::PeerRemove { actor_id: 4 }));
            assert_eq!(c.1, AddrReqId(4, 3));
        }
        other => panic!("unexpected {:?}", other),
    }
    let addr = SocketAddress::V4 { ip4: [8, 8, 8, 8], port: 8333 };
    match on_command(&mut p, AdminCmd::Peer(PeerCmd::Add { addr, wait_handshake: true })) {
        AdminAction::Request(c) => {
            assert!(matches!((c.0).0, WorkerRequest::PeerAdd { addr: a, wait_handshake: true } if a == addr))
        }
        other => panic!("unexpected {:?}", other),
    }
}

#[test]
fn admin_greeting_and_farewell() {
    assert_eq!(welcome(), b"WELCOME\r\n".to_vec());
    assert_eq!(on_execution_line(b"BYE"), Some(b"HAVE A GOOD ONE".to_vec()));
    assert_eq!(on_execution_line(b"bye"), None);
    assert_eq!(on_execution_line(b""), None);
}

#[test]
fn handshake_requests_and_replies() {
    let mut p: Peer<u8> = Peer::new(6);
    let theirs = NetAddr::from_socket_addr(&SocketAddress::V4 { ip4: [9, 9, 9, 9], port: 18333 });
    let (v, va) = p.version_and_verack_requests(&theirs);
    match (v.0).0 {
        WorkerRequest::NewVersion { addr: SocketAddress::V6 { ip, port } } => {
            assert_eq!(ip[12..], [9, 9, 9, 9]);
            assert_eq!(port, 18333);
        }
        other => panic!("unexpected {:?}", other),
    }
    assert_eq!(v.1, AddrReqId(6, 1));
    assert!(matches!((va.0).0, WorkerRequest::NewVerack));
    assert_eq!(va.1, AddrReqId(6, 2));
    assert_eq!(p.verack_request().1, AddrReqId(6, 3));

    let version = Msg::new_version_at(&SocketAddress::V4 { ip4: [1, 2, 3, 4], port: 5 }, 1, 2);
    let verack = Msg::new_verack();
    let bytes = Peer::<u8>::on_version_and_verack(
        WorkerResponse::Version(version.clone()),
        WorkerResponse::Verack(verack.clone()),
    )
    .unwrap();
    let mut expected = version.into_bytes().unwrap();
    expected.extend(verack.clone().into_bytes().unwrap());
    assert_eq!(bytes, expected);
    assert_eq!(
        Peer::<u8>::on_version_and_verack(WorkerResponse::Empty, WorkerResponse::Verack(verack.clone())).err(),
        Some(PeerError::UnexpectedResponse)
    );
    assert_eq!(Peer::<u8>::on_verack(WorkerResponse::Verack(verack.clone())).unwrap(), verack.into_bytes().unwrap());
    assert_eq!(Peer::<u8>::on_verack(WorkerResponse::Empty).err(), Some(PeerError::UnexpectedResponse));
}

#[test]
fn poll_ignored_keeps_the_pending_in_order() {
    let mut p: Peer<u8> = Peer::new(4);
    for x in [10u8, 20, 30, 40, 50] {
        p.push_ignored(x);
    }
    p.poll_ignored(&vec![true, false, true, false, false]);
    assert_eq!(p.ignored(), &vec![20, 40, 50]);
}
