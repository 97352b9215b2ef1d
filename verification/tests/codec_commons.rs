use btc::codec::commons::inventory::Inventory;
use btc::codec::commons::net_addr::{NetAddr, SocketAddress};
use btc::codec::commons::net_addr_time::NetAddrTime;
use btc::codec::commons::var_str::VarStr;
use btc::codec::commons::var_uint::VarUint;
use btc::codec::wire::CodecError;

#[test]
fn var_uint_wider_tags() {
    assert_eq!(VarUint::new(&[0xFD, 0x34, 0x12], 0), Ok((VarUint::U16(0x1234), 3)));
    assert_eq!(
        VarUint::new(&[0xFE, 0x78, 0x56, 0x34, 0x12], 0),
        Ok((VarUint::U32(0x1234_5678), 5))
    );
    assert_eq!(
        VarUint::new(&[0xFF, 1, 2, 3, 4, 5, 6, 7, 8], 0),
        Ok((VarUint::U64(0x0807_0605_0403_0201), 9))
    );
}

#[test]
fn var_uint_at_offset_and_short_input() {
    assert_eq!(VarUint::new(&[9, 9, 0x07], 2), Ok((VarUint::U8(7), 3)));
    assert_eq!(VarUint::new(&[0xFD, 0x34], 0), Err(CodecError::UnexpectedEnd));
    assert_eq!(VarUint::new(&[], 0), Err(CodecError::UnexpectedEnd));
}

#[test]
fn var_uint_write_and_read_back() {
    let v = VarUint::U8(0x42);
    let bytes = v.into_bytes().unwrap();
    assert_eq!(bytes, vec![0x42]);
    assert_eq!(VarUint::new(&bytes, 0), Ok((v, 1)));

    let w = VarUint::U64(0x1122_3344_5566_7788);
    let bytes = w.into_bytes().unwrap();
    assert_eq!(bytes, vec![0xFF, 0x88, 0x77, 0x66, 0x55, 0x44, 0x33, 0x22, 0x11]);
    assert_eq!(VarUint::new(&bytes, 0), Ok((w, 9)));
}

#[test]
fn var_uint_compact_size_tags() {
    let v = VarUint::U16(0x1234);
    let bytes = v.into_bytes().unwrap();
    assert_eq!(bytes, vec![0xFD, 0x34, 0x12]);
    assert_eq!(VarUint::new(&bytes, 0), Ok((v, 3)));
    let w = VarUint::U32(0x1234_5678);
    let bytes = w.into_bytes().unwrap();
    assert_eq!(bytes, vec![0xFE, 0x78, 0x56, 0x34, 0x12]);
    assert_eq!(VarUint::new(&bytes, 0), Ok((w, 5)));
    let x = VarUint::U8(0xFC);
    assert_eq!(VarUint::new(&x.into_bytes().unwrap(), 0), Ok((x, 1)));
}

#[test]
fn var_uint_from_bytes_records_length() {
    assert_eq!(VarUint::from_bytes(&[0u8; 3]), VarUint::U8(3));
    assert_eq!(VarUint::from_bytes(&[0u8; 0xFB]), VarUint::U8(0xFB));
    assert_eq!(VarUint::from_bytes(&[0u8; 0xFC]), VarUint::U8(0xFC));
    assert_eq!(VarUint::from_bytes(&[0u8; 0xFD]), VarUint::U16(0xFD));
    assert_eq!(VarUint::from_bytes(&vec![0u8; 0xFFFF]), VarUint::U16(0xFFFF));
    assert_eq!(VarUint::from_bytes(&vec![0u8; 0x1_0000]), VarUint::U32(0x1_0000));
    assert_eq!(VarUint::U16(300).as_usize(), Some(300));
    assert_eq!(VarUint::U32(70000).as_usize(), Some(70000));
    assert_eq!(VarUint::U64(5).as_usize(), None);
}

#[test]
fn var_str_read_and_write() {
    let bytes = [3u8, b'a', b'b', b'c', 0xAA];
    let (s, end) = VarStr::new(&bytes, 0).unwrap();
    assert_eq!(end, 4);
    assert_eq!(s.length(), VarUint::U8(3));
    assert_eq!(s.string(), &vec![b'a', b'b', b'c']);
    assert_eq!(s.into_bytes().unwrap(), vec![3u8, b'a', b'b', b'c']);

    let long = vec![7u8; 253];
    let u = VarStr::from_bytes(&long).unwrap();
    let ub = u.into_bytes().unwrap();
    assert_eq!(&ub[..3], &[0xFD, 0xFD, 0x00]);
    let (back, end) = VarStr::new(&ub, 0).unwrap();
    assert_eq!(end, 256);
    assert_eq!(back.string(), &long);

    let t = VarStr::from_bytes(b"/Satoshi:0.7.2/").unwrap();
    assert_eq!(t.length(), VarUint::U8(15));
    let out = t.into_bytes().unwrap();
    assert_eq!(out[0], 15);
    assert_eq!(&out[1..], b"/Satoshi:0.7.2/");
}

#[test]
fn var_str_shorter_than_announced() {
    // The string holds what is there, up to the announced length.
    let (s, end) = VarStr::new(&[5u8, b'x', b'y'], 0).unwrap();
    assert_eq!(end, 3);
    assert_eq!(s.string(), &vec![b'x', b'y']);
}

#[test]
fn net_addr_decode_and_encode() {
    let mut bytes = vec![1u8, 0, 0, 0, 0, 0, 0, 0];
    bytes.extend_from_slice(&[0, 0, 0, 0, 0, 0, 0, 0, 0, 0, 0xFF, 0xFF, 10, 0, 0, 1]);
    bytes.extend_from_slice(&[0x20, 0x8D]);
    let (a, end) = NetAddr::new(&bytes, 0).unwrap();
    assert_eq!(end, 26);
    assert_eq!(a.service, 1);
    assert_eq!(a.ip, vec![0, 0, 0, 0, 0, 0, 0, 0, 0, 0, 0xFF, 0xFF, 10, 0, 0, 1]);
    assert_eq!(a.port, 8333);
    assert_eq!(a.into_bytes().unwrap(), bytes);
}

#[test]
fn net_addr_from_ipv4_socket_is_mapped() {
    let a = NetAddr::from_socket_addr(&SocketAddress::V4 { ip4: [127, 0, 0, 1], port: 18333 });
    assert_eq!(a.service, 0);
    assert_eq!(a.ip, vec![0, 0, 0, 0, 0, 0, 0, 0, 0, 0, 0xFF, 0xFF, 127, 0, 0, 1]);
    assert_eq!(a.port, 18333);
    match a.to_socket_addr() {
        SocketAddress::V6 { ip, port } => {
            assert_eq!(ip, [0, 0, 0, 0, 0, 0, 0, 0, 0, 0, 0xFF, 0xFF, 127, 0, 0, 1]);
            assert_eq!(port, 18333);
        }
        other => panic!("unexpected {:?}", other),
    }
}

#[test]
fn net_addr_short_input() {
    assert_eq!(NetAddr::new(&[1, 2, 3], 0).err(), Some(CodecError::UnexpectedEnd));
}

#[test]
fn net_addr_time_bytes() {
    let t = NetAddrTime::from_socket_addr_at(&SocketAddress::V4 { ip4: [1, 2, 3, 4], port: 1 }, 0x0102_0304);
    assert_eq!(t.time, 0x0102_0304);
    let bytes = t.into_bytes().unwrap();
    assert_eq!(bytes.len(), 30);
    assert_eq!(&bytes[0..4], &[0x04, 0x03, 0x02, 0x01]);
    let (back, end) = NetAddrTime::new(&bytes, 0).unwrap();
    assert_eq!(end, 30);
    assert_eq!(back.time, t.time);
    assert_eq!(back.net_addr.ip, t.net_addr.ip);
    assert_eq!(back.net_addr.port, 1);
}

#[test]
fn net_addr_time_from_clock_is_recent() {
    let t = NetAddrTime::from_socket_addr(&SocketAddress::V4 { ip4: [1, 2, 3, 4], port: 1 });
    // 2020-01-01 and later.
    assert!(t.time >= 1_577_836_800);
}

#[test]
fn inventory_read_and_write() {
    let mut bytes = vec![2u8, 0, 0, 0];
    bytes.extend((0u8..32).collect::<Vec<u8>>());
    let (inv, end) = Inventory::new(&bytes, 0).unwrap();
    assert_eq!(end, 36);
    assert_eq!(inv.type_identifier, 2);
    assert_eq!(inv.hash, (0u8..32).collect::<Vec<u8>>());
    assert_eq!(inv.into_bytes().unwrap(), bytes);
    assert_eq!(Inventory::new(&[1, 0], 0).err(), Some(CodecError::UnexpectedEnd));
}
