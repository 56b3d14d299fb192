use p2p_messages::error::MessageError;
use p2p_messages::handlers::{
    handle_key_blocks, handle_message, handle_micro_block, handle_p2p_response, handle_txs,
    key_batch_pairs, key_pair_step, light_txs, p2p_response_from_fields, txs_version_check, Message, MicroBlockTxs, MSG_CLOSE, MSG_KEYBLOCK, MSG_TXPOOLSYNCINIT,
};
use p2p_messages::header::{copy_range, signature_offset, KeyBlock, MicroBlockHeader};
use p2p_messages::ping::{bigend_u16, mangle_rlp, Ping};
use rlp::RlpStream;

fn key_header_bytes(seed: u8) -> Vec<u8> {
    (0..364u32).map(|i| (i as u8).wrapping_mul(7).wrapping_add(seed)).collect()
}

fn micro_header_bytes(fraud: bool) -> Vec<u8> {
    let mut b: Vec<u8> = (0..248u32).map(|i| (i % 251) as u8).collect();
    b[4] = if fraud { 0xc0 } else { 0x80 };
    if !fraud {
        b.truncate(216);
    }
    b
}

fn string_item(bytes: &[u8]) -> Vec<u8> {
    let mut s = RlpStream::new();
    s.append(&bytes.to_vec());
    s.out().to_vec()
}

fn key_batch(markers: &[u16], records: &[Vec<u8>]) -> Vec<u8> {
    let mut s = RlpStream::new_list(markers.len() + records.len());
    for (m, r) in markers.iter().zip(records.iter()) {
        s.append(m);
        s.append(r);
    }
    s.out().to_vec()
}

fn signed_tx(tag: u32, extra: u8) -> Vec<u8> {
    let mut inner = RlpStream::new_list(2);
    inner.append(&tag);
    inner.append(&extra);
    let inner = inner.out().to_vec();
    let mut signed = RlpStream::new_list(4);
    signed.append(&10u8);
    signed.append(&1u8);
    signed.append(&vec![9u8, 9, 9]);
    signed.append(&inner);
    signed.out().to_vec()
}

fn tx_list(version: u8, txs: &[Vec<u8>]) -> Vec<u8> {
    let mut s = RlpStream::new_list(2);
    s.append(&version);
    s.begin_list(txs.len());
    for t in txs {
        s.append(t);
    }
    s.out().to_vec()
}

fn be(bytes: &[u8]) -> u64 {
    bytes.iter().fold(0u64, |acc, b| acc * 256 + *b as u64)
}

#[test]
fn key_header_fields_from_fixture() {
    let b = key_header_bytes(3);
    let kb = KeyBlock::new_from_byte_array(&b).unwrap();
    assert_eq!(kb.version as u64, be(&b[0..4]));
    assert_eq!(kb.key_unused as u64, be(&b[4..8]));
    assert_eq!(kb.height, be(&b[8..16]));
    assert_eq!(kb.prev_hash, b[16..48].to_vec());
    assert_eq!(kb.prev_key_hash, b[48..80].to_vec());
    assert_eq!(kb.state_hash, b[80..112].to_vec());
    assert_eq!(kb.miner, b[112..144].to_vec());
    assert_eq!(kb.beneficiary, b[144..176].to_vec());
    assert_eq!(kb.target as u64, be(&b[176..180]));
    assert_eq!(kb.pow, b[180..348].to_vec());
    assert_eq!(kb.nonce, be(&b[348..356]));
    assert_eq!(kb.time, be(&b[356..364]));
}

#[test]
fn key_header_exact_values() {
    let mut b = vec![0u8; 364];
    b[3] = 5;
    b[15] = 1;
    b[14] = 2;
    b[363] = 0x2a;
    let kb = KeyBlock::new_from_byte_array(&b).unwrap();
    assert_eq!(kb.version, 5);
    assert_eq!(kb.height, 0x0201);
    assert_eq!(kb.time, 42);
}

#[test]
fn key_header_short_is_truncated() {
    let b = key_header_bytes(0);
    assert!(matches!(
        KeyBlock::new_from_byte_array(&b[..363]),
        Err(MessageError::TruncatedRecord)
    ));
    assert!(matches!(KeyBlock::new_from_byte_array(&[]), Err(MessageError::TruncatedRecord)));
}

#[test]
fn micro_header_without_fraud() {
    let b = micro_header_bytes(false);
    let h = MicroBlockHeader::new_from_byte_array(&b).unwrap();
    assert!(!h.has_fraud);
    assert!(h.fraud_hash.is_none());
    assert_eq!(h.signature, b[152..216].to_vec());
    assert_eq!(h.tags, b[4..8].to_vec());
    assert_eq!(h.txs_hash, b[112..144].to_vec());
    assert_eq!(h.time, be(&b[144..152]));
}

#[test]
fn micro_header_with_fraud() {
    let b = micro_header_bytes(true);
    let h = MicroBlockHeader::new_from_byte_array(&b).unwrap();
    assert!(h.has_fraud);
    assert_eq!(h.fraud_hash, Some(b[152..184].to_vec()));
    assert_eq!(h.signature, b[184..248].to_vec());
}

#[test]
fn micro_header_fraud_bit_flip_moves_signature() {
    let b = micro_header_bytes(true);
    let mut flipped = b.clone();
    flipped[4] ^= 0x40;
    let h1 = MicroBlockHeader::new_from_byte_array(&b).unwrap();
    let h2 = MicroBlockHeader::new_from_byte_array(&flipped).unwrap();
    assert_eq!(h1.version, h2.version);
    assert_eq!(h1.height, h2.height);
    assert_ne!(h1.fraud_hash.is_some(), h2.fraud_hash.is_some());
    assert_eq!(h1.signature, b[184..248].to_vec());
    assert_eq!(h2.signature, b[152..216].to_vec());
    assert_eq!(signature_offset(true) - signature_offset(false), 32);
}

#[test]
fn micro_header_fraud_layout_needs_248_bytes() {
    let b = micro_header_bytes(true);
    assert!(matches!(
        MicroBlockHeader::new_from_byte_array(&b[..247]),
        Err(MessageError::TruncatedRecord)
    ));
    let plain = micro_header_bytes(false);
    assert!(matches!(
        MicroBlockHeader::new_from_byte_array(&plain[..215]),
        Err(MessageError::TruncatedRecord)
    ));
}

#[test]
fn copy_range_copies() {
    assert_eq!(copy_range(&[1, 2, 3, 4, 5], 1, 3), vec![2, 3, 4]);
}

#[test]
fn key_blocks_decode_each_pair() {
    let r1 = key_header_bytes(1);
    let r2 = key_header_bytes(2);
    let msg = key_batch(&[1, 1], &[r1.clone(), r2.clone()]);
    let blocks = handle_key_blocks(&msg).unwrap();
    assert_eq!(blocks.len(), 2);
    assert_eq!(blocks[0].prev_hash, r1[16..48].to_vec());
    assert_eq!(blocks[1].time, be(&r2[356..364]));
}

#[test]
fn key_blocks_odd_count_is_protocol_violation() {
    let mut s = RlpStream::new_list(3);
    s.append(&1u16);
    s.append(&key_header_bytes(1));
    s.append(&1u16);
    let msg = s.out().to_vec();
    assert!(matches!(handle_key_blocks(&msg), Err(MessageError::ProtocolInvariantViolation)));
}

#[test]
fn key_blocks_bad_marker_fails_fast() {
    let mut s = RlpStream::new_list(4);
    s.append(&2u16);
    s.append(&key_header_bytes(1));
    s.append(&1u16);
    s.append(&vec![1u8, 2, 3]);
    let msg = s.out().to_vec();
    assert!(matches!(handle_key_blocks(&msg), Err(MessageError::ProtocolInvariantViolation)));
}

#[test]
fn key_blocks_unreadable_marker_is_protocol_violation() {
    // a single byte 0 is this dialect's zero, which rlp does not read as a u16
    let mut s = RlpStream::new_list(2);
    s.append_raw(&[0x00], 1);
    s.append(&key_header_bytes(1));
    let msg = s.out().to_vec();
    assert!(matches!(handle_key_blocks(&msg), Err(MessageError::ProtocolInvariantViolation)));
    let mut big = RlpStream::new_list(2);
    big.append(&70000u32);
    big.append(&key_header_bytes(1));
    let msg = big.out().to_vec();
    assert!(matches!(handle_key_blocks(&msg), Err(MessageError::ProtocolInvariantViolation)));
}

#[test]
fn key_pair_step_decides_from_marker() {
    let rec = key_header_bytes(4);
    assert!(key_pair_step(Some(1), Some(rec.clone())).is_ok());
    assert!(matches!(key_pair_step(None, Some(rec.clone())), Err(MessageError::ProtocolInvariantViolation)));
    assert!(matches!(key_pair_step(Some(2), None), Err(MessageError::ProtocolInvariantViolation)));
    assert!(matches!(key_pair_step(Some(1), None), Err(MessageError::MalformedEnvelope)));
    assert!(matches!(key_pair_step(Some(1), Some(vec![0u8; 10])), Err(MessageError::TruncatedRecord)));
    assert_eq!(key_batch_pairs(Some(4)), Ok(2));
    assert_eq!(key_batch_pairs(Some(3)), Err(MessageError::ProtocolInvariantViolation));
    assert_eq!(key_batch_pairs(None), Err(MessageError::MalformedEnvelope));
}

#[test]
fn txs_version_check_decides() {
    assert_eq!(txs_version_check(Some(vec![1])), Ok(()));
    assert_eq!(txs_version_check(Some(vec![2])), Err(MessageError::ProtocolInvariantViolation));
    assert_eq!(txs_version_check(Some(vec![])), Err(MessageError::MalformedEnvelope));
    assert_eq!(txs_version_check(None), Err(MessageError::MalformedEnvelope));
}

#[test]
fn ping_ignores_version_field() {
    let mut ping = Ping::new(1, 2, vec![], 7, vec![], false, vec![]);
    ping.version = 9;
    assert_eq!(ping.rlp()[3], 1);
}

#[test]
fn key_blocks_short_record_is_truncated() {
    let msg = key_batch(&[1], &[vec![0u8; 100]]);
    assert!(matches!(handle_key_blocks(&msg), Err(MessageError::TruncatedRecord)));
}

#[test]
fn key_blocks_not_a_list_is_malformed() {
    let msg = string_item(&[1, 2, 3]);
    assert!(matches!(handle_key_blocks(&msg), Err(MessageError::MalformedEnvelope)));
}

#[test]
fn txs_decode_tags_and_bodies() {
    let msg = tx_list(1, &[signed_tx(12, 3), signed_tx(42, 4)]);
    let txs = handle_txs(&msg).unwrap();
    assert_eq!(txs.len(), 2);
    assert_eq!(txs[0].tag, 12);
    assert_eq!(txs[1].tag, 42);
    let mut inner = RlpStream::new_list(2);
    inner.append(&42u32);
    inner.append(&4u8);
    assert_eq!(txs[1].body, inner.out().to_vec());
}

#[test]
fn txs_bad_version_fails_before_transactions() {
    let msg = tx_list(2, &[vec![0xff]]);
    assert!(matches!(handle_txs(&msg), Err(MessageError::ProtocolInvariantViolation)));
}

#[test]
fn txs_bad_transaction_fails_batch() {
    let msg = tx_list(1, &[signed_tx(12, 3), string_item(&[1, 2])]);
    assert!(matches!(handle_txs(&msg), Err(MessageError::MalformedEnvelope)));
}

#[test]
fn txs_empty_list() {
    let msg = tx_list(1, &[]);
    assert_eq!(handle_txs(&msg).unwrap().len(), 0);
}

fn micro_block_msg(light: u8, txs: &[u8]) -> Vec<u8> {
    let mut block = RlpStream::new_list(4);
    block.append(&101u32);
    block.append(&1u8);
    block.append(&micro_header_bytes(false));
    block.append_raw(txs, 1);
    let block = block.out().to_vec();
    let mut s = RlpStream::new_list(3);
    s.append(&1u8);
    s.append(&block);
    s.append(&light);
    s.out().to_vec()
}

#[test]
fn micro_block_full_decodes_transactions() {
    let txs = tx_list(1, &[signed_tx(12, 3)]);
    let mb = handle_micro_block(&micro_block_msg(0, &txs)).unwrap();
    assert_eq!(mb.light, 0);
    assert_eq!(mb.header.signature, micro_header_bytes(false)[152..216].to_vec());
    match mb.txs {
        MicroBlockTxs::Full(v) => {
            assert_eq!(v.len(), 1);
            assert_eq!(v[0].tag, 12);
        }
        MicroBlockTxs::Light(_) => panic!("expected full transactions"),
    }
}

#[test]
fn micro_block_light_keeps_hashes() {
    let mut hashes = RlpStream::new_list(2);
    hashes.append(&vec![7u8; 32]);
    hashes.append(&vec![8u8; 33]);
    let hashes = hashes.out().to_vec();
    let mb = handle_micro_block(&micro_block_msg(1, &hashes)).unwrap();
    match mb.txs {
        MicroBlockTxs::Light(v) => assert_eq!(v, vec![vec![7u8; 32], vec![8u8; 33]]),
        MicroBlockTxs::Full(_) => panic!("expected light transactions"),
    }
    assert_eq!(light_txs(&hashes).unwrap().len(), 2);
}

#[test]
fn micro_block_missing_light_flag_is_malformed() {
    let mut s = RlpStream::new_list(1);
    s.append(&1u8);
    let msg = s.out().to_vec();
    assert!(matches!(handle_micro_block(&msg), Err(MessageError::MalformedEnvelope)));
}

#[test]
fn p2p_response_failure_keeps_reason() {
    let mut s = RlpStream::new_list(5);
    s.append(&1u8);
    s.append(&0u8);
    s.append(&4u8);
    s.append(&b"not found".to_vec());
    s.append(&Vec::<u8>::new());
    let msg = s.out().to_vec();
    let r = handle_p2p_response(&msg).unwrap();
    assert_eq!(r.version, 1);
    assert_eq!(r.result, 0);
    assert_eq!(r.response_type, 4);
    assert_eq!(String::from_utf8(r.reason).unwrap(), "not found");
    assert!(r.object.is_empty());
}

#[test]
fn p2p_response_missing_field_is_malformed() {
    let mut s = RlpStream::new_list(3);
    s.append(&1u8);
    s.append(&1u8);
    s.append(&4u8);
    let msg = s.out().to_vec();
    assert!(matches!(handle_p2p_response(&msg), Err(MessageError::MalformedEnvelope)));
}

#[test]
fn dispatch_unknown_and_bodiless_tags() {
    assert!(matches!(handle_message(MSG_CLOSE, &[0xff]), Ok(Message::Ignored)));
    assert!(matches!(handle_message(55, &[]), Ok(Message::Ignored)));
    assert!(matches!(handle_message(MSG_TXPOOLSYNCINIT, &[]), Ok(Message::TxPoolSyncInit)));
}

#[test]
fn dispatch_passes_errors_up() {
    let msg = key_batch(&[3], &[key_header_bytes(0)]);
    assert!(matches!(
        handle_message(MSG_KEYBLOCK, &msg),
        Err(MessageError::ProtocolInvariantViolation)
    ));
    let ok = key_batch(&[1], &[key_header_bytes(0)]);
    match handle_message(MSG_KEYBLOCK, &ok) {
        Ok(Message::KeyBlocks(v)) => assert_eq!(v.len(), 1),
        _ => panic!("expected key blocks"),
    }
}

#[test]
fn mangle_turns_128_into_0() {
    assert_eq!(mangle_rlp(&[128, 1, 128, 129, 0]), vec![0, 1, 0, 129, 0]);
    assert_eq!(mangle_rlp(&[]), Vec::<u8>::new());
}

#[test]
fn bigend_u16_orders_bytes() {
    assert_eq!(bigend_u16(1), vec![0, 1]);
    assert_eq!(bigend_u16(0x1234), vec![0x12, 0x34]);
}

#[test]
fn ping_encoding() {
    let ping = Ping::new(3015, 32, vec![0u8; 32], 0, vec![5u8; 32], true, vec![]);
    assert_eq!(ping.sync_allowed, 1);
    let out = ping.rlp();
    assert_eq!(&out[0..2], &[0x00, 0x01]);
    // list header: 0xf8, payload length 74
    assert_eq!(&out[2..4], &[0xf8, 74]);
    // version, then port 3015 as a two-byte string, then share
    assert_eq!(&out[4..8], &[1, 0x82, 0x0b, 0xc7]);
    assert_eq!(out[8], 32);
    assert_eq!(out[9], 0xa0);
    assert_eq!(&out[10..42], &[0u8; 32]);
    // difficulty 0 is the empty string 0x80, rewritten to 0
    assert_eq!(out[42], 0);
    assert_eq!(out[43], 0xa0);
    assert_eq!(&out[44..76], &[5u8; 32]);
    assert_eq!(out[76], 1);
    assert_eq!(out[77], 0xc0);
    assert_eq!(out.len(), 78);
    assert!(!out[2..].contains(&128));
}

#[test]
fn ping_without_sync() {
    let ping = Ping::new(1, 2, vec![], 7, vec![], false, vec![1, 2]);
    assert_eq!(ping.sync_allowed, 0);
    let out = ping.rlp();
    // empty strings encode as 0x80 and come out as 0
    assert_eq!(out, vec![0, 1, 0xc8, 1, 1, 2, 0, 7, 0, 0, 0xc0]);
}

#[test]
fn p2p_response_from_fields_decides() {
    let r = p2p_response_from_fields(Some(1), Some(0), Some(3), Some(b"busy".to_vec()), Some(vec![]))
        .unwrap();
    assert_eq!(r.reason, b"busy".to_vec());
    assert!(r.object.is_empty());
    assert!(matches!(
        p2p_response_from_fields(Some(1), None, Some(3), Some(vec![]), Some(vec![])),
        Err(MessageError::MalformedEnvelope)
    ));
}
