use btc::codec::commons::var_uint::VarUint;
use btc::codec::header::network::Network;
use btc::codec::header::cmd::Cmd;
use btc::codec::msg::Msg;
use btc::codec::payload::Payload;
use btc::codec::wire::CodecError;

#[test]
fn var_uint_single_byte() {
    assert_eq!(VarUint::new(&[0x05], 0), Ok((VarUint::U8(5), 1)));
}

#[test]
fn var_uint_fc_is_a_value() {
    assert_eq!(VarUint::new(&[0xFC, 1, 2], 0), Ok((VarUint::U8(0xFC), 1)));
    assert_eq!(VarUint::new(&[0xFD, 1], 0), Err(CodecError::UnexpectedEnd));
}

#[test]
fn network_magic() {
    assert_eq!(Network::new(0xD9B4BEF9), Some(Network::Main));
    assert_eq!(Network::Main.value(), 0xD9B4BEF9);
    assert_eq!(Network::new(1), None);
}

#[test]
fn verack_bytes() {
    let m = Msg::new_verack();
    let bytes = m.into_bytes().unwrap();
    let expected: Vec<u8> = vec![
        0xf9, 0xbe, 0xb4, 0xd9, b'v', b'e', b'r', b'a', b'c', b'k', 0, 0, 0, 0, 0, 0, 0, 0, 0, 0,
        0x5d, 0xf6, 0xe0, 0xe2,
    ];
    assert_eq!(bytes, expected);
    let back = Msg::new(&bytes).unwrap();
    assert_eq!(back.header.cmd, Cmd::Verack);
    assert!(matches!(back.payload, Some(Payload::Verack)));
}
