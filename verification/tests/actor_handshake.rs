use btc::actor::commons::PeerRequest;
use btc::actor::handshake::{HandshakeAction, HandshakeError, HandshakeEvent, Machina};
use btc::codec::commons::net_addr::SocketAddress;
use btc::codec::msg::Msg;

fn their_version() -> Msg {
    Msg::new_version_at(&SocketAddress::V4 { ip4: [5, 6, 7, 8], port: 8333 }, 42, 1_600_000_000)
}

/// A `verack` as it comes from the connection, decoded.
fn received_verack() -> Msg {
    Msg::new(&Msg::new_verack().into_bytes().unwrap()).unwrap()
}

#[test]
fn introducing_ourselves_first() {
    let (s, actions) =
        Machina::Start.step(HandshakeEvent::FromRouter(PeerRequest::Forward(vec![1, 2, 3])));
    assert!(matches!(s, Machina::IntroducedSelf { version: None, verack: None }));
    assert!(matches!(&actions[..], [HandshakeAction::SendRaw(b)] if b == &vec![1, 2, 3]));

    // The verack arrives before the version.
    let (s, actions) = s.step(HandshakeEvent::FromPeer(received_verack()));
    assert!(matches!(s, Machina::IntroducedSelf { version: None, verack: Some(_) }));
    assert!(actions.is_empty());

    let (s, actions) = s.step(HandshakeEvent::FromPeer(their_version()));
    assert!(matches!(s, Machina::Ready { .. }));
    assert!(matches!(&actions[..], [HandshakeAction::SendVerack]));
}

#[test]
fn peer_introduces_itself_first() {
    let (s, actions) = Machina::Start.step(HandshakeEvent::FromPeer(their_version()));
    assert!(matches!(s, Machina::IntroducedByPeer { .. }));
    match &actions[..] {
        [HandshakeAction::SendVersionAndVerack { addr }] => {
            // The address the peer gave as receiving address: this node's.
            assert_eq!(addr.ip[12..], [127, 0, 0, 1]);
            assert_eq!(addr.port, 8333);
        }
        other => panic!("unexpected {:?}", other),
    }
    // Requests from the router are left alone meanwhile.
    let (s, actions) = s.step(HandshakeEvent::FromRouter(PeerRequest::Dummy));
    assert!(matches!(s, Machina::IntroducedByPeer { .. }));
    assert!(actions.is_empty());
    let (s, _) = s.step(HandshakeEvent::FromPeer(received_verack()));
    match s {
        Machina::Ready { version } => assert_eq!(version.header, their_version().header),
        other => panic!("unexpected {:?}", other),
    }
}

#[test]
fn handshake_failures() {
    let (s, _) = Machina::Start.step(HandshakeEvent::FromPeer(received_verack()));
    assert!(matches!(s, Machina::Failed(HandshakeError::WrongMessage)));
    // A `verack` built here carries no payload and is no `verack` to the
    // handshake until it went through the decoder.
    let s = Machina::IntroducedByPeer { version: their_version() };
    let (s, _) = s.step(HandshakeEvent::FromPeer(Msg::new_verack()));
    assert!(matches!(s, Machina::Failed(HandshakeError::WrongMessage)));
    let (s, _) = Machina::Start.step(HandshakeEvent::FromRouter(PeerRequest::Dummy));
    assert!(matches!(s, Machina::Failed(HandshakeError::WrongMessage)));
    let (s, _) = Machina::Start.step(HandshakeEvent::Closed);
    assert!(matches!(s, Machina::Failed(HandshakeError::Aborted)));

    let s = Machina::IntroducedSelf { version: Some(their_version()), verack: None };
    let (s, _) = s.step(HandshakeEvent::FromPeer(their_version()));
    assert!(matches!(s, Machina::Failed(HandshakeError::VersionAlreadyReceived)));

    let (s, _) = Machina::Failed(HandshakeError::Aborted).step(HandshakeEvent::FromPeer(their_version()));
    assert!(matches!(s, Machina::Failed(HandshakeError::Aborted)));
}
