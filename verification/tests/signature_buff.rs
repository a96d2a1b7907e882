use funder::index_server::{IndexMutation, MutationsUpdate, UpdateFriend};
use funder::proto::{MoveToken, PendingTransaction, ResponseSendFundsOp, TokenInfo};
use funder::signature_buff::{
    create_mutations_update_signature_buff, create_response_signature_buffer, hash_token_info,
    move_token_signature_buff, prepare_receipt, reset_token_signature_buff, FUNDS_CANCEL_PREFIX,
    FUNDS_RESPONSE_PREFIX, MUTATIONS_UPDATE_PREFIX, RESET_TOKEN_PREFIX, TOKEN_NEXT,
};
use funder::types::{Currency, Rate};
use sha2::{Digest, Sha512_256};

fn sha(data: &[u8]) -> Vec<u8> {
    Sha512_256::digest(data).to_vec()
}

fn pending_transaction() -> PendingTransaction {
    PendingTransaction {
        request_id: [1u8; 16],
        route_remainder: vec![[9u8; 32]],
        dest_payment: 0x0102,
        total_dest_payment: 0x0304,
        invoice_hash: [2u8; 32],
        hmac: [3u8; 32],
        src_hashed_lock: [4u8; 32],
        left_fees: 5,
    }
}

#[test]
fn prefixes_are_ascii() {
    assert_eq!(&FUNDS_RESPONSE_PREFIX[..], b"FUND_RESPONSE");
    assert_eq!(&FUNDS_CANCEL_PREFIX[..], b"FUND_CANCEL");
    assert_eq!(&TOKEN_NEXT[..], b"NEXT");
    assert_eq!(&RESET_TOKEN_PREFIX[..], b"RESET_TOKEN");
    assert_eq!(&MUTATIONS_UPDATE_PREFIX[..], b"MUTATIONS_UPDATE");
}

#[test]
fn response_signature_buffer_layout() {
    let currency = Currency::from_bytes(b"FST").unwrap();
    let response = ResponseSendFundsOp {
        request_id: [1u8; 16],
        src_plain_lock: [6u8; 32],
        serial_num: 7,
        signature: [0u8; 64],
    };
    let buffer = create_response_signature_buffer(&currency, &response, &pending_transaction());

    let mut inner = Vec::new();
    inner.extend_from_slice(&[1u8; 16]);
    inner.extend_from_slice(&[3u8; 32]);
    inner.extend_from_slice(&[6u8; 32]);
    inner.extend_from_slice(&0x0102u128.to_be_bytes());

    let mut expected = Vec::new();
    expected.extend_from_slice(&sha(b"FUND_RESPONSE"));
    expected.extend_from_slice(&sha(&inner));
    expected.extend_from_slice(&7u128.to_be_bytes());
    expected.extend_from_slice(&0x0304u128.to_be_bytes());
    expected.extend_from_slice(&[2u8; 32]);
    expected.extend_from_slice(&3u64.to_be_bytes());
    expected.extend_from_slice(b"FST");
    assert_eq!(buffer, expected);
    assert_eq!(buffer.len(), 32 + 32 + 16 + 16 + 32 + 8 + 3);
}

#[test]
fn response_signature_buffer_ignores_signature_and_fees() {
    let currency = Currency::from_bytes(b"FST").unwrap();
    let mut response = ResponseSendFundsOp {
        request_id: [1u8; 16],
        src_plain_lock: [6u8; 32],
        serial_num: 7,
        signature: [0u8; 64],
    };
    let first = create_response_signature_buffer(&currency, &response, &pending_transaction());
    response.signature = [0xffu8; 64];
    let mut row = pending_transaction();
    row.left_fees = 100;
    let second = create_response_signature_buffer(&currency, &response, &row);
    assert_eq!(first, second);
    row.dest_payment = 0x0103;
    let third = create_response_signature_buffer(&currency, &response, &row);
    assert_ne!(first, third);
}

#[test]
fn token_info_hash_layout() {
    let info = TokenInfo { balances_hash: [5u8; 32], move_token_counter: 0x0a0b };
    let hash = hash_token_info(&[1u8; 32], &[2u8; 32], &info);
    let mut buffer = Vec::new();
    buffer.extend_from_slice(&[1u8; 32]);
    buffer.extend_from_slice(&[2u8; 32]);
    buffer.extend_from_slice(&[5u8; 32]);
    buffer.extend_from_slice(&0x0a0bu128.to_be_bytes());
    assert_eq!(hash.to_vec(), sha(&buffer));
    let swapped = hash_token_info(&[2u8; 32], &[1u8; 32], &info);
    assert_ne!(hash, swapped);
}

#[test]
fn move_token_signature_buffer_layout() {
    let move_token = MoveToken {
        operations: Vec::new(),
        opt_local_relays: None,
        currencies_diff: Vec::new(),
        old_token: [7u8; 64],
        info_hash: [8u8; 32],
        rand_nonce: [9u8; 16],
        new_token: [10u8; 64],
    };
    let buffer = move_token_signature_buff(&move_token);
    let mut expected = Vec::new();
    expected.extend_from_slice(&sha(b"NEXT"));
    expected.extend_from_slice(&[7u8; 64]);
    expected.extend_from_slice(&[8u8; 32]);
    assert_eq!(buffer, expected);
}

#[test]
fn reset_token_signature_buffer_layout() {
    let buffer = reset_token_signature_buff(&[1u8; 32], &[2u8; 32], 1u128 << 100);
    let mut expected = Vec::new();
    expected.extend_from_slice(&sha(b"RESET_TOKEN"));
    expected.extend_from_slice(&[1u8; 32]);
    expected.extend_from_slice(&[2u8; 32]);
    expected.extend_from_slice(&(1u128 << 100).to_be_bytes());
    assert_eq!(buffer, expected);
    assert_eq!(buffer[32 + 64 + 3], 0x10);
}

#[test]
fn mutations_update_signature_buffer_layout() {
    let update = MutationsUpdate {
        node_public_key: [1u8; 32],
        index_mutations: vec![
            IndexMutation::UpdateFriend(UpdateFriend {
                public_key: [2u8; 32],
                send_capacity: 100,
                recv_capacity: 200,
                rate: Rate { mul: 0x0102_0304, add: 5 },
            }),
            IndexMutation::RemoveFriend([3u8; 32]),
        ],
        time_hash: [4u8; 32],
        session_id: [5u8; 16],
        counter: 0x0607,
        rand_nonce: [8u8; 16],
        signature: [0u8; 64],
    };
    let buffer = create_mutations_update_signature_buff(&update);
    let mut expected = Vec::new();
    expected.extend_from_slice(&sha(b"MUTATIONS_UPDATE"));
    expected.extend_from_slice(&[1u8; 32]);
    expected.extend_from_slice(&2u64.to_be_bytes());
    expected.push(0);
    expected.extend_from_slice(&[2u8; 32]);
    expected.extend_from_slice(&100u128.to_be_bytes());
    expected.extend_from_slice(&200u128.to_be_bytes());
    expected.extend_from_slice(&[1, 2, 3, 4]);
    expected.extend_from_slice(&5u32.to_be_bytes());
    expected.push(1);
    expected.extend_from_slice(&[3u8; 32]);
    expected.extend_from_slice(&[4u8; 32]);
    expected.extend_from_slice(&[5u8; 16]);
    expected.extend_from_slice(&0x0607u64.to_be_bytes());
    expected.extend_from_slice(&[8u8; 16]);
    assert_eq!(buffer, expected);
}

#[test]
fn mutations_update_signature_buffer_without_mutations() {
    let update = MutationsUpdate {
        node_public_key: [1u8; 32],
        index_mutations: Vec::new(),
        time_hash: [4u8; 32],
        session_id: [5u8; 16],
        counter: 0,
        rand_nonce: [8u8; 16],
        signature: [0u8; 64],
    };
    let buffer = create_mutations_update_signature_buff(&update);
    assert_eq!(buffer.len(), 32 + 32 + 8 + 32 + 16 + 8 + 16);
    assert_eq!(&buffer[64..72], &[0u8; 8]);
}

#[test]
fn receipt_of_a_response() {
    let row = PendingTransaction {
        request_id: [7u8; 16],
        route_remainder: vec![[2u8; 32]],
        dest_payment: 10,
        total_dest_payment: 30,
        invoice_hash: [4u8; 32],
        hmac: [5u8; 32],
        src_hashed_lock: [6u8; 32],
        left_fees: 2,
    };
    let response = ResponseSendFundsOp {
        request_id: [7u8; 16],
        src_plain_lock: [8u8; 32],
        serial_num: 3,
        signature: [9u8; 64],
    };
    let receipt = prepare_receipt(&response, &row);
    let mut inner = Vec::new();
    inner.extend_from_slice(&[7u8; 16]);
    inner.extend_from_slice(&[5u8; 32]);
    inner.extend_from_slice(&[8u8; 32]);
    inner.extend_from_slice(&10u128.to_be_bytes());
    let expected: [u8; 32] = Sha512_256::digest(&inner).into();
    assert_eq!(receipt.response_hash, expected);
    assert_eq!(receipt.invoice_hash, [4u8; 32]);
    assert_eq!(receipt.request_id, [7u8; 16]);
    assert_eq!(receipt.dest_payment, 10);
    assert_eq!(receipt.total_dest_payment, 30);
    assert_eq!(receipt.signature, [9u8; 64]);
    // the digest is the one that the destination signed
    let currency = Currency::from_bytes(b"FST").unwrap();
    let buffer = create_response_signature_buffer(&currency, &response, &row);
    assert_eq!(&buffer[32..64], &expected[..]);
}

#[test]
fn lengths_of_the_signed_buffers() {
    let currency = Currency::from_bytes(b"FST").unwrap();
    let row = PendingTransaction {
        request_id: [7u8; 16],
        route_remainder: vec![[2u8; 32]],
        dest_payment: 10,
        total_dest_payment: 30,
        invoice_hash: [4u8; 32],
        hmac: [5u8; 32],
        src_hashed_lock: [6u8; 32],
        left_fees: 2,
    };
    let response = ResponseSendFundsOp {
        request_id: [7u8; 16],
        src_plain_lock: [8u8; 32],
        serial_num: 3,
        signature: [9u8; 64],
    };
    assert_eq!(create_response_signature_buffer(&currency, &response, &row).len(), 136 + 3);
    assert_eq!(reset_token_signature_buff(&[1u8; 32], &[2u8; 32], 5).len(), 112);
}
