use btc::codec::commons::var_uint::VarUint;
use btc::codec::header::cmd::Cmd;
use btc::codec::payload::addr::Addr;
use btc::codec::payload::block::Block;
use btc::codec::payload::fee_filter::FeeFilter;
use btc::codec::payload::get_blocks::GetBlocks;
use btc::codec::payload::get_headers::GetHeaders;
use btc::codec::payload::headers::block_headers::BlockHeaders;
use btc::codec::payload::headers::Headers;
use btc::codec::payload::not_found::NotFound;
use btc::codec::payload::ping::Ping;
use btc::codec::payload::pong::Pong;
use btc::codec::payload::reject::{code_has_hash, Reject};
use btc::codec::payload::tx::Tx;
use btc::codec::payload::Payload;
use btc::codec::wire::CodecError;

fn sample_tx_bytes() -> Vec<u8> {
    let mut b = vec![1u8, 0, 0, 0]; // version
    b.push(1); // one input
    b.extend([0u8; 32]); // previous transaction
    b.extend([0xFF, 0xFF, 0xFF, 0xFF]); // output index
    b.push(2); // script length
    b.extend([0xAB, 0xCD]); // script
    b.extend([0xFF, 0xFF, 0xFF, 0xFE]); // sequence
    b.push(1); // one output
    b.extend(5_000_000_000i64.to_le_bytes()); // value
    b.push(1); // script length
    b.push(0x51); // script
    b.extend([0x10, 0, 0, 0]); // lock time
    b
}

fn sample_block_header_bytes(txn_count: u8) -> Vec<u8> {
    let mut b = vec![2u8, 0, 0, 0];
    b.extend([0x11u8; 32]);
    b.extend([0x22u8; 32]);
    b.extend([0x29, 0xAB, 0x5F, 0x49]);
    b.extend([0xFF, 0xFF, 0x00, 0x1D]);
    b.extend([0x1D, 0xAC, 0x2B, 0x7C]);
    b.push(txn_count);
    b
}

#[test]
fn ping_pong_fee_filter() {
    let bytes = [8u8, 7, 6, 5, 4, 3, 2, 1];
    assert_eq!(Ping::new(&bytes, 0), Ok((Ping { nonce: 0x0102_0304_0506_0708 }, 8)));
    assert_eq!(Pong::new(&bytes, 0), Ok((Pong { nonce: 0x0102_0304_0506_0708 }, 8)));
    assert_eq!(FeeFilter::new(&bytes, 0), Ok((FeeFilter { fee_rate: 0x0102_0304_0506_0708 }, 8)));
    assert_eq!(Ping { nonce: 1 }.into_bytes().unwrap(), vec![1, 0, 0, 0, 0, 0, 0, 0]);
    assert_eq!(Pong { nonce: 2 }.into_bytes().unwrap(), vec![2, 0, 0, 0, 0, 0, 0, 0]);
    assert_eq!(FeeFilter { fee_rate: 3 }.into_bytes().unwrap(), vec![3, 0, 0, 0, 0, 0, 0, 0]);
    assert_eq!(Ping::new(&bytes[..7], 0), Err(CodecError::UnexpectedEnd));
}

#[test]
fn tx_decode_and_encode() {
    let bytes = sample_tx_bytes();
    let (tx, end) = Tx::new(&bytes, 0).unwrap();
    assert_eq!(end, bytes.len());
    assert_eq!(tx.version, 1);
    assert_eq!(tx.inputs_len, 1);
    assert_eq!(tx.inputs[0].prev_tx, vec![0u8; 32]);
    assert_eq!(tx.inputs[0].prev_tx_out_index, 0xFFFF_FFFF);
    assert_eq!(tx.inputs[0].script_len, 2);
    assert_eq!(tx.inputs[0].script_sig, vec![0xAB, 0xCD]);
    assert_eq!(tx.inputs[0].sequence, 0xFEFF_FFFF);
    assert_eq!(tx.outputs_len, 1);
    assert_eq!(tx.outputs[0].value, 5_000_000_000);
    assert_eq!(tx.outputs[0].pk_script, vec![0x51]);
    assert_eq!(tx.locktime, 0x10);
    assert_eq!(tx.into_bytes().unwrap(), bytes);
}

#[test]
fn tx_trailing_bytes_refused() {
    let mut bytes = sample_tx_bytes();
    bytes.push(0);
    assert_eq!(Tx::new(&bytes, 0).err(), Some(CodecError::TrailingBytes));
}

#[test]
fn tx_truncated() {
    let bytes = sample_tx_bytes();
    assert_eq!(Tx::new(&bytes[..bytes.len() - 1], 0).err(), Some(CodecError::UnexpectedEnd));
}

#[test]
fn reject_with_and_without_hash() {
    assert!(code_has_hash(0x10));
    assert!(code_has_hash(0x43));
    assert!(!code_has_hash(0x01));

    let mut bytes = vec![2u8, b't', b'x', 0x10, 3, b'b', b'a', b'd'];
    bytes.extend([0x77u8; 32]);
    let (r, end) = Reject::new(&bytes, 0).unwrap();
    assert_eq!(end, bytes.len());
    assert_eq!(r.code, 0x10);
    assert_eq!(r.message.string(), &b"tx".to_vec());
    assert_eq!(r.reason.string(), &b"bad".to_vec());
    assert_eq!(r.extra_data, Some(vec![0x77u8; 32]));
    assert_eq!(r.into_bytes().unwrap(), bytes);

    let bytes = vec![2u8, b't', b'x', 0x01, 0];
    let (r, end) = Reject::new(&bytes, 0).unwrap();
    assert_eq!(end, 5);
    assert_eq!(r.extra_data, None);
}

#[test]
fn get_blocks_decode_and_encode() {
    let mut bytes = vec![0x7D, 0x11, 0x01, 0x00, 2];
    bytes.extend([0xAAu8; 32]);
    bytes.extend([0xBBu8; 32]);
    bytes.extend([0u8; 32]);
    let (g, end) = GetBlocks::new(&bytes, 0).unwrap();
    assert_eq!(end, bytes.len());
    assert_eq!(g.version, 70013);
    assert_eq!(g.hash_count, VarUint::U8(2));
    assert_eq!(g.block_locator_hashes, vec![vec![0xAAu8; 32], vec![0xBBu8; 32]]);
    assert_eq!(g.hash_stop, vec![0u8; 32]);
    assert_eq!(g.into_bytes().unwrap(), bytes);
}

#[test]
fn get_headers_is_never_decoded() {
    let mut bytes = vec![0x7D, 0x11, 0x01, 0x00, 0];
    bytes.extend([0u8; 32]);
    assert_eq!(GetHeaders::new(&bytes, 0).err(), Some(CodecError::UnexpectedEnd));
    assert_eq!(Payload::new(Cmd::GetHeaders, &bytes).err(), Some(CodecError::UnexpectedEnd));
}

#[test]
fn headers_decode_and_encode() {
    let mut bytes = vec![2u8];
    bytes.extend(sample_block_header_bytes(0));
    bytes.extend(sample_block_header_bytes(0));
    let (h, end) = Headers::new(&bytes, 0).unwrap();
    assert_eq!(end, bytes.len());
    assert_eq!(h.count, VarUint::U8(2));
    assert_eq!(h.headers.len(), 2);
    assert_eq!(h.headers[1].version, 2);
    assert_eq!(h.headers[1].prev_block, vec![0x11u8; 32]);
    assert_eq!(h.headers[1].markle_root, vec![0x22u8; 32]);
    assert_eq!(h.headers[1].timestamp, 0x495F_AB29);
    assert_eq!(h.headers[1].bits, 0x1D00_FFFF);
    assert_eq!(h.headers[1].nonce, 0x7C2B_AC1D);
    assert_eq!(h.into_bytes().unwrap(), bytes);

    let (one, n) = BlockHeaders::new(&sample_block_header_bytes(0), 0).unwrap();
    assert_eq!(n, 81);
    assert_eq!(one.txn_count, VarUint::U8(0));
}

#[test]
fn block_with_one_transaction() {
    let mut bytes = sample_block_header_bytes(1);
    bytes.push(1);
    bytes.extend(sample_tx_bytes());
    let (b, end) = Block::new(&bytes, 0).unwrap();
    assert_eq!(end, bytes.len());
    assert_eq!(b.txn_count, VarUint::U8(1));
    assert_eq!(b.txns.len(), 1);
    assert_eq!(b.txns[0].locktime, 0x10);
    assert_eq!(b.into_bytes().unwrap(), bytes);
}

#[test]
fn addr_and_not_found() {
    let mut bytes = vec![1u8];
    bytes.extend([1, 0, 0, 0]);
    bytes.extend([0u8; 8]);
    bytes.extend([0, 0, 0, 0, 0, 0, 0, 0, 0, 0, 0xFF, 0xFF, 1, 2, 3, 4]);
    bytes.extend([0x20, 0x8D]);
    let (a, end) = Addr::new(&bytes, 0).unwrap();
    assert_eq!(end, bytes.len());
    assert_eq!(a.addr_count, VarUint::U8(1));
    assert_eq!(a.addrs[0].time, 1);
    assert_eq!(a.addrs[0].net_addr.port, 8333);
    assert_eq!(a.into_bytes().unwrap(), bytes);

    let mut bytes = vec![1u8, 1, 0, 0, 0];
    bytes.extend([0x99u8; 32]);
    let (nf, end) = NotFound::new(&bytes, 0).unwrap();
    assert_eq!(end, bytes.len());
    assert_eq!(nf.inventories[0].type_identifier, 1);
    assert_eq!(nf.inventories[0].hash, vec![0x99u8; 32]);
    assert_eq!(nf.into_bytes().unwrap(), bytes);
}

#[test]
fn payload_by_command() {
    assert!(matches!(Payload::new(Cmd::Verack, &[]), Ok(Payload::Verack)));
    assert!(matches!(Payload::new(Cmd::SendHeaders, &[]), Ok(Payload::SendHeaders)));
    assert!(matches!(Payload::new(Cmd::GetAddr, &[]), Ok(Payload::GetAddr)));
    assert!(matches!(Payload::new(Cmd::MemPool, &[]), Ok(Payload::MemPool)));
    match Payload::new(Cmd::Ping, &[1, 0, 0, 0, 0, 0, 0, 0]) {
        Ok(Payload::Ping(p)) => assert_eq!(p.nonce, 1),
        other => panic!("unexpected {:?}", other),
    }
    match Payload::new(Cmd::Tx, &sample_tx_bytes()) {
        Ok(Payload::Tx(t)) => assert_eq!(t.version, 1),
        other => panic!("unexpected {:?}", other),
    }
    assert_eq!(Payload::new(Cmd::Pong, &[1, 2]).err(), Some(CodecError::UnexpectedEnd));
    let ping = Payload::Ping(Ping { nonce: 9 });
    assert_eq!(ping.into_bytes().unwrap(), vec![9, 0, 0, 0, 0, 0, 0, 0]);
    assert_eq!(Payload::Verack.into_bytes().unwrap(), Vec::<u8>::new());
}
