use btc::codec::commons::net_addr::SocketAddress;
use btc::codec::header::cmd::Cmd;
use btc::codec::header::network::Network;
use btc::codec::header::Header;
use btc::codec::msg::Msg;
use btc::codec::msgs::{Msgs, MsgsPoll};
use btc::codec::payload::Payload;
use btc::codec::payload::version::Version;
use btc::codec::wire::CodecError;

const PING_HEX: &str = "f9beb4d970696e670000000000000000080000003b5a75130807060504030201";

fn ping_bytes() -> Vec<u8> {
    vec![
        249, 190, 180, 217, 112, 105, 110, 103, 0, 0, 0, 0, 0, 0, 0, 0, 8, 0, 0, 0, 59, 90, 117, 19,
        8, 7, 6, 5, 4, 3, 2, 1,
    ]
}

#[test]
fn ping_message_decodes() {
    let m = Msg::new(&ping_bytes()).unwrap();
    assert_eq!(m.header.network, Network::Main);
    assert_eq!(m.header.cmd, Cmd::Ping);
    assert_eq!(m.header.payload_len, 8);
    assert_eq!(m.header.payloadchk, 0x1375_5A3B);
    match m.payload {
        Some(Payload::Ping(p)) => assert_eq!(p.nonce, 0x0102_0304_0506_0708),
        other => panic!("unexpected {:?}", other),
    }
    assert_eq!(m.into_bytes().unwrap(), ping_bytes());
}

#[test]
fn checksum_of_payloads() {
    assert_eq!(Msg::chk(&[]), Ok(0xE2E0_F65D));
    assert_eq!(Msg::chk(&[8, 7, 6, 5, 4, 3, 2, 1]), Ok(0x1375_5A3B));
}

#[test]
fn checksum_mismatch_refused() {
    let mut bytes = ping_bytes();
    bytes[20] ^= 1;
    assert_eq!(Msg::new(&bytes).err(), Some(CodecError::ChecksumMismatch));
    let mut bytes = ping_bytes();
    bytes[31] ^= 1;
    assert_eq!(Msg::new(&bytes).err(), Some(CodecError::ChecksumMismatch));
}

#[test]
fn unknown_network_and_command() {
    let mut bytes = ping_bytes();
    bytes[0] = 0;
    assert_eq!(Msg::new(&bytes).err(), Some(CodecError::UnknownNetwork));
    let mut bytes = ping_bytes();
    bytes[4] = b'x';
    assert_eq!(Msg::new(&bytes).err(), Some(CodecError::UnknownCommand));
    assert_eq!(Msg::new(&ping_bytes()[..10]).err(), Some(CodecError::UnknownCommand));
    assert_eq!(Msg::new(&ping_bytes()[..3]).err(), Some(CodecError::UnexpectedEnd));
}

#[test]
fn header_fields() {
    let (h, end) = Header::new(&ping_bytes(), 0).unwrap();
    assert_eq!(end, 24);
    assert_eq!(h.cmd, Cmd::Ping);
    assert_eq!(h.into_bytes().unwrap(), ping_bytes()[..24].to_vec());
    assert_eq!(Cmd::new(b"ping\0\0\0\0\0\0\0\0"), Some(Cmd::Ping));
    assert_eq!(Cmd::Version.value(), *b"version\0\0\0\0\0");
    assert_eq!(Cmd::new(b"nothing\0\0\0\0\0"), None);
}

#[test]
fn message_from_hex() {
    let m = Msg::new_from_hex(PING_HEX).unwrap();
    assert_eq!(m.header.cmd, Cmd::Ping);
    let upper = PING_HEX.to_uppercase();
    assert!(Msg::new_from_hex(&upper).is_ok());
    assert_eq!(Msg::new_from_hex("zz").err(), Some(CodecError::InvalidHex));
    assert_eq!(Msg::new_from_hex("abc").err(), Some(CodecError::InvalidHex));
}

#[test]
fn version_message_reads_back() {
    let addr = SocketAddress::V4 { ip4: [10, 0, 0, 7], port: 8333 };
    let m = Msg::new_version_at(&addr, 0xDEAD_BEEF, 1_600_000_000);
    assert_eq!(m.header.cmd, Cmd::Version);
    assert_eq!(m.header.payload_len, 101);
    let bytes = m.into_bytes().unwrap();
    assert_eq!(bytes.len(), 125);
    let back = Msg::new(&bytes).unwrap();
    assert_eq!(back.header, m.header);
    match back.payload {
        Some(Payload::Version(v)) => {
            assert_eq!(v.version, 70013);
            assert_eq!(v.nonce, 0xDEAD_BEEF);
            assert_eq!(v.timestamp, 1_600_000_000);
            assert_eq!(v.services, 0);
            assert_eq!(v.start_height, 0);
            assert_eq!(v.relay, Some(false));
            assert_eq!(v.user_agent.string(), &b"/Rustbtc:0.0.1/".to_vec());
            assert_eq!(v.addr_trans.ip, vec![0, 0, 0, 0, 0, 0, 0, 0, 0, 0, 0xFF, 0xFF, 10, 0, 0, 7]);
            assert_eq!(v.addr_recv.ip, vec![0, 0, 0, 0, 0, 0, 0, 0, 0, 0, 0xFF, 0xFF, 127, 0, 0, 1]);
            assert_eq!(v.addr_recv.port, 8333);
        }
        other => panic!("unexpected {:?}", other),
    }
}

#[test]
fn version_messages_draw_nonce_and_time() {
    let addr = SocketAddress::V4 { ip4: [10, 0, 0, 7], port: 8333 };
    let a = Msg::new_version(&addr);
    let b = Msg::new_version(&addr);
    match (&a.payload, &b.payload) {
        (Some(Payload::Version(x)), Some(Payload::Version(y))) => {
            assert_ne!(x.nonce, y.nonce);
            assert!(x.timestamp >= 1_577_836_800);
        }
        other => panic!("unexpected {:?}", other),
    }
}

#[test]
fn get_headers_message() {
    let m = Msg::new_get_headers();
    assert_eq!(m.header.cmd, Cmd::GetHeaders);
    assert_eq!(m.header.payload_len, 69);
    let bytes = m.into_bytes().unwrap();
    assert_eq!(bytes.len(), 93);
    assert_eq!(&bytes[24..28], &[0x7D, 0x11, 0x01, 0x00]);
    assert_eq!(bytes[28], 1);
    assert_eq!(&bytes[29..34], &[0, 0, 0, 0, 0]);
    // The decoder of `getheaders` never succeeds.
    assert_eq!(Msg::new(&bytes).err(), Some(CodecError::UnexpectedEnd));
}

#[test]
fn framing_waits_for_whole_message() {
    let bytes = ping_bytes();
    let mut codec = Msgs::new();
    codec.fill_read_buf(&bytes[..10]);
    assert!(matches!(codec.poll(false), Ok(MsgsPoll::NotReady)));
    codec.fill_read_buf(&bytes[10..30]);
    assert!(matches!(codec.poll(false), Ok(MsgsPoll::NotReady)));
    codec.fill_read_buf(&bytes[30..]);
    codec.fill_read_buf(&bytes);
    match codec.poll(false) {
        Ok(MsgsPoll::Ready(Some(m))) => assert_eq!(m.header.cmd, Cmd::Ping),
        other => panic!("unexpected {:?}", other),
    }
    match codec.poll(false) {
        Ok(MsgsPoll::Ready(Some(m))) => assert_eq!(m.header.cmd, Cmd::Ping),
        other => panic!("unexpected {:?}", other),
    }
    assert!(matches!(codec.poll(false), Ok(MsgsPoll::NotReady)));
}

#[test]
fn framing_on_closed_connection_and_bad_length() {
    let mut codec = Msgs::new();
    codec.fill_read_buf(&ping_bytes());
    assert!(matches!(codec.poll(true), Ok(MsgsPoll::Ready(None))));

    let mut bytes = ping_bytes();
    bytes[19] = 0x80;
    let mut codec = Msgs::new();
    codec.fill_read_buf(&bytes);
    assert_eq!(codec.poll(false).err(), Some(CodecError::LengthTooBig));
}

#[test]
fn framing_write_buffer() {
    let mut codec = Msgs::new();
    codec.buffer(b"hello");
    codec.buffer(b" world");
    assert_eq!(codec.pending_write(), b"hello world");
    codec.written(6);
    assert_eq!(codec.pending_write(), b"world");
}

#[test]
fn framing_keeps_the_rest_unread() {
    let mut bytes = ping_bytes();
    bytes.extend_from_slice(&[1, 2, 3]);
    let mut codec = Msgs::new();
    codec.fill_read_buf(&bytes);
    assert_eq!(codec.unread_len(), 35);
    assert!(matches!(codec.poll(false), Ok(MsgsPoll::Ready(Some(_)))));
    assert_eq!(codec.unread_len(), 3);
    assert!(matches!(codec.poll(false), Ok(MsgsPoll::NotReady)));
}

#[test]
fn header_fails_exactly_on_short_or_unknown() {
    let b = ping_bytes();
    assert!(Header::new(&b[..24], 0).is_ok());
    assert_eq!(Header::new(&b[..23], 0).err(), Some(CodecError::UnexpectedEnd));
    assert_eq!(Header::new(&b[..16], 0).err(), Some(CodecError::UnexpectedEnd));
    let mut bad = b.clone();
    bad[0] = 0;
    assert_eq!(Header::new(&bad, 0).err(), Some(CodecError::UnknownNetwork));
    let mut bad = b.clone();
    bad[15] = 1;
    assert_eq!(Header::new(&bad, 0).err(), Some(CodecError::UnknownCommand));
}

#[test]
fn version_payload_cut_before_relay_refused() {
    let addr = SocketAddress::V4 { ip4: [10, 0, 0, 7], port: 8333 };
    let bytes = Msg::new_version_at(&addr, 7, 1_600_000_000).into_bytes().unwrap();
    let payload = &bytes[24..];
    let (v, end) = Version::new(payload, 0).unwrap();
    assert_eq!(end, payload.len());
    assert_eq!(v.relay, Some(false));
    assert_eq!(
        Version::new(&payload[..payload.len() - 1], 0).err(),
        Some(CodecError::UnexpectedEnd)
    );
}
