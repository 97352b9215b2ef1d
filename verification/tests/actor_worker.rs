use std::collections::HashMap;

use btc::actor::commons::{
    AddrReqId, PeerRequest, RouterToPeerRequestAndPriority, WorkerRequest, WorkerRequestContent,
    WorkerRequestPriority, WorkerResponse, WorkerToRouterRequest, WorkerToRouterResponse,
};
use btc::actor::worker::{Worker, WorkerError, WorkerStep};
use btc::codec::commons::net_addr::SocketAddress;
use btc::codec::header::cmd::Cmd;
use btc::codec::msg::Msg;
use btc::codec::payload::Payload;

const PING: [u8; 32] = [
    249, 190, 180, 217, 112, 105, 110, 103, 0, 0, 0, 0, 0, 0, 0, 0, 8, 0, 0, 0, 59, 90, 117, 19, 8,
    7, 6, 5, 4, 3, 2, 1,
];

fn content(req: WorkerRequest, priority: u8, id: usize) -> WorkerRequestContent {
    WorkerRequestContent(WorkerRequestPriority(req, priority), AddrReqId(1, id))
}

#[test]
fn highest_priority_first() {
    let mut w = Worker::new();
    assert!(w.next().is_none());
    w.push(content(WorkerRequest::Hello, 100, 1));
    w.push(content(WorkerRequest::ListPeers, 200, 2));
    w.push(content(WorkerRequest::NewVerack, 150, 3));
    assert_eq!(w.len(), 3);
    assert_eq!(w.next().unwrap().1, AddrReqId(1, 2));
    assert_eq!(w.next().unwrap().1, AddrReqId(1, 3));
    assert_eq!(w.next().unwrap().1, AddrReqId(1, 1));
    assert!(w.next().is_none());
}

#[test]
fn simple_requests_answer_at_once() {
    assert!(matches!(Worker::serve(WorkerRequest::Hello), WorkerStep::Respond(WorkerResponse::Empty)));
    assert!(matches!(Worker::serve(WorkerRequest::PeerPrint), WorkerStep::Respond(WorkerResponse::Empty)));
    assert!(matches!(
        Worker::serve(WorkerRequest::NewGetHeaders),
        WorkerStep::Respond(WorkerResponse::Empty)
    ));
    assert!(matches!(
        Worker::serve(WorkerRequest::Wait { delay: 3 }),
        WorkerStep::SleepThenRespond(3)
    ));
    match Worker::serve(WorkerRequest::NewVerack) {
        WorkerStep::Respond(WorkerResponse::Verack(m)) => {
            assert_eq!(m.header.cmd, Cmd::Verack);
            assert!(m.payload.is_none());
        }
        other => panic!("unexpected {:?}", other),
    }
}

#[test]
fn new_version_for_address() {
    let addr = SocketAddress::V4 { ip4: [192, 168, 0, 9], port: 8333 };
    match Worker::serve(WorkerRequest::NewVersion { addr }) {
        WorkerStep::Respond(WorkerResponse::Version(m)) => match m.payload {
            Some(Payload::Version(v)) => {
                assert_eq!(v.addr_trans.ip[12..], [192, 168, 0, 9]);
                assert_eq!(v.version, 70013);
            }
            other => panic!("unexpected {:?}", other),
        },
        other => panic!("unexpected {:?}", other),
    }
}

#[test]
fn peer_add_connects_with_a_version_handshake() {
    let addr = SocketAddress::V4 { ip4: [192, 168, 0, 9], port: 8333 };
    match Worker::serve(WorkerRequest::PeerAdd { addr, wait_handshake: false }) {
        WorkerStep::Connect { addr: a, handshake } => {
            assert_eq!(a, addr);
            assert_eq!(handshake.1, 100);
            match handshake.0 {
                PeerRequest::HandShake(bytes) => {
                    let m = Msg::new(&bytes).unwrap();
                    assert_eq!(m.header.cmd, Cmd::Version);
                }
                other => panic!("unexpected {:?}", other),
            }
        }
        other => panic!("unexpected {:?}", other),
    }
    assert!(matches!(Worker::on_connected(addr, true), WorkerResponse::PeerAdd(Some(a)) if a == addr));
    assert!(matches!(Worker::on_connected(addr, false), WorkerResponse::PeerAdd(None)));
}

#[test]
fn router_requests_and_replies() {
    let asked = match Worker::serve(WorkerRequest::ListPeers) {
        WorkerStep::AskRouter(q) => q,
        other => panic!("unexpected {:?}", other),
    };
    assert!(matches!(asked, WorkerToRouterRequest::ListPeers));
    let mut peers = HashMap::new();
    peers.insert(4usize, SocketAddress::V4 { ip4: [1, 1, 1, 1], port: 1 });
    match Worker::on_router_reply(&asked, Some(WorkerToRouterResponse::ListPeers(peers))) {
        Ok(WorkerResponse::ListPeers(m)) => assert_eq!(m.len(), 1),
        other => panic!("unexpected {:?}", other),
    }
    assert_eq!(
        Worker::on_router_reply(&asked, None).err(),
        Some(WorkerError::UnexpectedRouterReply)
    );
    assert_eq!(
        Worker::on_router_reply(&asked, Some(WorkerToRouterResponse::PeerRemove(true))).err(),
        Some(WorkerError::UnexpectedRouterReply)
    );

    let asked = match Worker::serve(WorkerRequest::PeerRemove { actor_id: 4 }) {
        WorkerStep::AskRouter(q) => q,
        other => panic!("unexpected {:?}", other),
    };
    match &asked {
        WorkerToRouterRequest::PeerRemove(4, r) => {
            assert!(matches!(**r, RouterToPeerRequestAndPriority(PeerRequest::SelfRemove, 255)))
        }
        other => panic!("unexpected {:?}", other),
    }
    assert!(matches!(
        Worker::on_router_reply(&asked, Some(WorkerToRouterResponse::PeerRemove(true))),
        Ok(WorkerResponse::PeerRemove(true))
    ));
}

#[test]
fn message_from_hex_forwarded_only_when_valid_and_asked() {
    match Worker::serve(WorkerRequest::MsgFromHex { send: true, binary: PING.to_vec() }) {
        WorkerStep::TellRouterThenRespond(WorkerToRouterRequest::MsgToAllPeers(r), WorkerResponse::Empty) => {
            assert_eq!(r.1, 100);
            assert!(matches!(&r.0, PeerRequest::Forward(raw) if raw[..] == PING[..]));
        }
        other => panic!("unexpected {:?}", other),
    }
    assert!(matches!(
        Worker::serve(WorkerRequest::MsgFromHex { send: false, binary: PING.to_vec() }),
        WorkerStep::Respond(WorkerResponse::Empty)
    ));
    assert!(matches!(
        Worker::serve(WorkerRequest::MsgFromHex { send: true, binary: vec![1, 2, 3] }),
        WorkerStep::Respond(WorkerResponse::Empty)
    ));
}

#[test]
fn request_names() {
    assert_eq!(WorkerRequest::ListPeers.describe(), "ListPeers");
    assert_eq!(WorkerRequest::Wait { delay: 1 }.describe(), "Wait");
    assert_eq!(WorkerRequest::Hello.describe(), "some other");
    assert_eq!(WorkerRequest::NewVerack.describe(), "some other");
}
