use ed25519_dalek::{Signer, SigningKey};
use funder::currency_map::CurrencyMap;
use funder::mutual_credit::incoming::IncomingMessage;
use funder::mutual_credit::McMutation;
use funder::proto::{
    CancelSendFundsOp, FriendTcOp, MoveToken, PendingTransaction, RequestSendFundsOp,
    ResponseSendFundsOp, TokenInfo,
};
use funder::signature_buff::{
    create_response_signature_buffer, hash_token_info, move_token_signature_buff,
    reset_token_signature_buff,
};
use funder::token_channel::incoming::{
    handle_in_move_token, ReceiveMoveTokenOutput, TokenChannelError,
};
use funder::token_channel::outgoing::{OutMoveToken, OutgoingError};
use funder::token_channel::reset::{handle_in_reset_terms, LostRequest, ResetTermsOutput};
use funder::token_channel::{token_from_public_key, ResetTerms, TcStatus, TokenChannel};
use funder::mutual_credit::outgoing::QueueOperationError;
use funder::types::{array_lt, Currency, Rate, U256};
use sha2::{Digest, Sha512_256};

struct Side {
    key: SigningKey,
    pk: [u8; 32],
    tc: TokenChannel,
}

fn sign_with(key: &SigningKey) -> impl Fn(&Vec<u8>) -> [u8; 64] + '_ {
    move |buffer: &Vec<u8>| key.sign(buffer).to_bytes()
}

fn currency() -> Currency {
    Currency::from_bytes(b"FST").unwrap()
}

/// Two sides of a fresh channel: the one that holds the token first, then
/// the other.
fn sides() -> (Side, Side) {
    let key1 = SigningKey::from_bytes(&[1u8; 32]);
    let key2 = SigningKey::from_bytes(&[2u8; 32]);
    let pk1 = key1.verifying_key().to_bytes();
    let pk2 = key2.verifying_key().to_bytes();
    let side1 = Side { tc: TokenChannel::new(&pk1, &pk2), key: key1, pk: pk1 };
    let side2 = Side { tc: TokenChannel::new(&pk2, &pk1), key: key2, pk: pk2 };
    if side1.tc.holds_token() {
        (side1, side2)
    } else {
        (side2, side1)
    }
}

fn no_rates() -> CurrencyMap<Rate> {
    CurrencyMap::new()
}

/// Closes `out`, and delivers the move token to the other side.
fn send(from: &mut Side, to: &mut Side, out: OutMoveToken) -> ReceiveMoveTokenOutput {
    let sent = out.finalize(&mut from.tc, [5u8; 16], true, &from.pk, &to.pk, &sign_with(&from.key));
    assert_eq!(sent, Ok(true));
    let move_token = from.tc.outgoing_move_token().unwrap().clone();
    handle_in_move_token(&mut to.tc, move_token, &no_rates(), &to.pk, &from.pk, &sign_with(&to.key))
}

fn expect_received(output: ReceiveMoveTokenOutput) -> Vec<(Currency, IncomingMessage)> {
    match output {
        ReceiveMoveTokenOutput::Received(received) => {
            let mut messages = Vec::new();
            for group in received.currency_outputs {
                for output in group.outputs {
                    messages.push((group.currency, output.incoming_message));
                }
            }
            messages
        }
        other => unreachable!("{:?}", other),
    }
}

/// Both sides trade the currency and trust each other with 100.
fn open_channel() -> (Side, Side) {
    let (mut a, mut b) = sides();
    assert!(a.tc.set_remote_max_debt(currency(), 100));
    assert!(b.tc.set_remote_max_debt(currency(), 100));
    assert!(a.tc.set_local_max_debt(currency(), 100));
    assert!(b.tc.set_local_max_debt(currency(), 100));
    let mut out = OutMoveToken::new();
    out.toggle_currency(&mut a.tc, currency()).unwrap();
    assert!(expect_received(send(&mut a, &mut b, out)).is_empty());
    let mut out = OutMoveToken::new();
    out.toggle_currency(&mut b.tc, currency()).unwrap();
    assert!(expect_received(send(&mut b, &mut a, out)).is_empty());
    (a, b)
}

fn request(id: u8, route: Vec<[u8; 32]>, dest_payment: u128, left_fees: u128) -> RequestSendFundsOp {
    RequestSendFundsOp {
        request_id: [id; 16],
        src_hashed_lock: [1u8; 32],
        route_remainder: route,
        dest_payment,
        total_dest_payment: dest_payment,
        invoice_hash: [2u8; 32],
        hmac: [3u8; 32],
        left_fees,
    }
}

fn signed_response(signer: &SigningKey, row: &PendingTransaction) -> ResponseSendFundsOp {
    let mut response = ResponseSendFundsOp {
        request_id: row.request_id,
        src_plain_lock: [4u8; 32],
        serial_num: 1,
        signature: [0u8; 64],
    };
    let buffer = create_response_signature_buffer(&currency(), &response, row);
    response.signature = signer.sign(&buffer).to_bytes();
    response
}

fn balance(side: &Side) -> i128 {
    let i = side.tc.mutual_credits.position(&currency()).unwrap();
    side.tc.mutual_credits.value_at(i).balance.balance
}

fn mutual_credit(side: &Side) -> &funder::mutual_credit::MutualCredit {
    let i = side.tc.mutual_credits.position(&currency()).unwrap();
    side.tc.mutual_credits.value_at(i)
}

#[test]
fn fresh_channel() {
    let (holder, waiter) = sides();
    assert!(array_lt(&waiter.pk, &holder.pk));
    assert_eq!(holder.tc.move_token_counter, 0);
    assert_eq!(waiter.tc.move_token_counter, 0);
    assert_eq!(holder.tc.mutual_credits.len(), 0);
    let kept = match &holder.tc.status {
        TcStatus::ConsistentIn(kept) => *kept,
        _ => unreachable!(),
    };
    let initial = waiter.tc.outgoing_move_token().unwrap();
    assert_eq!(initial.old_token, token_from_public_key(&waiter.pk));
    assert_eq!(initial.new_token, token_from_public_key(&holder.pk));
    assert_eq!(kept.new_token, initial.new_token);
    assert_eq!(kept.old_token, initial.old_token);
    assert_eq!(kept.info_hash, initial.info_hash);
    assert_eq!(&initial.new_token[..32], &holder.pk[..]);
    assert_eq!(&initial.new_token[32..], &[0u8; 32][..]);
    assert!(initial.operations.is_empty());
    assert!(waiter.tc.local_reset_terms().is_none());
    assert!(holder.tc.outgoing_move_token().is_none());
}

#[test]
fn counter_goes_up_by_one_with_every_move_token() {
    let (mut a, mut b) = sides();
    for round in 0..5u128 {
        assert_eq!(a.tc.move_token_counter, 2 * round);
        assert_eq!(b.tc.move_token_counter, 2 * round);
        expect_received(send(&mut a, &mut b, OutMoveToken::new()));
        assert_eq!(a.tc.move_token_counter, 2 * round + 1);
        assert_eq!(b.tc.move_token_counter, 2 * round + 1);
        expect_received(send(&mut b, &mut a, OutMoveToken::new()));
    }
    assert_eq!(a.tc.move_token_counter, 10);
}

#[test]
fn move_token_continues_the_chain() {
    let (mut a, mut b) = sides();
    let before = match &a.tc.status {
        TcStatus::ConsistentIn(kept) => kept.new_token,
        _ => unreachable!(),
    };
    expect_received(send(&mut a, &mut b, OutMoveToken::new()));
    let sent = a.tc.outgoing_move_token().unwrap().clone();
    assert_eq!(sent.old_token, before);
    assert_eq!(sent.rand_nonce, [5u8; 16]);
    let balances_hash = a.tc.balances_hash(false);
    assert_eq!(balances_hash, b.tc.balances_hash(true));
    assert_eq!(
        sent.info_hash,
        hash_token_info(&a.pk, &b.pk, &TokenInfo { balances_hash, move_token_counter: 1 })
    );
    assert_eq!(sent.new_token, a.key.sign(&move_token_signature_buff(&sent)).to_bytes());
    match &b.tc.status {
        TcStatus::ConsistentIn(kept) => {
            assert_eq!(kept.new_token, sent.new_token);
            assert_eq!(kept.old_token, sent.old_token);
        }
        _ => unreachable!(),
    }
    match &a.tc.status {
        TcStatus::ConsistentOut(_, Some(kept)) => assert_eq!(kept.new_token, before),
        _ => unreachable!(),
    }
}

#[test]
fn empty_move_token_is_skipped() {
    let (mut a, b) = sides();
    let before = a.tc.clone();
    let sent = OutMoveToken::new().finalize(&mut a.tc, [5u8; 16], false, &a.pk, &b.pk, &sign_with(&a.key));
    assert_eq!(sent, Ok(false));
    assert_eq!(a.tc, before);
    assert!(OutMoveToken::new().is_empty());
}

#[test]
fn only_the_token_holder_composes() {
    let (a, mut b) = sides();
    let before = b.tc.clone();
    let mut out = OutMoveToken::new();
    assert_eq!(out.toggle_currency(&mut b.tc, currency()), Err(OutgoingError::NotTokenHolder));
    let op = FriendTcOp::RequestSendFunds(request(7, vec![a.pk], 10, 0));
    assert_eq!(
        out.queue_operation(&mut b.tc, &currency(), op, &b.pk, &a.pk),
        Err(OutgoingError::NotTokenHolder)
    );
    assert_eq!(
        out.finalize(&mut b.tc, [5u8; 16], true, &b.pk, &a.pk, &sign_with(&b.key)),
        Err(OutgoingError::NotTokenHolder)
    );
    assert_eq!(b.tc, before);
}

#[test]
fn currency_becomes_active_when_both_sides_add_it() {
    let (mut a, mut b) = sides();
    let mut out = OutMoveToken::new();
    out.toggle_currency(&mut a.tc, currency()).unwrap();
    assert!(a.tc.local_currencies.has(&currency()));
    assert_eq!(a.tc.mutual_credits.len(), 0);
    let op = FriendTcOp::RequestSendFunds(request(7, vec![b.pk], 10, 0));
    assert_eq!(
        out.queue_operation(&mut a.tc, &currency(), op, &a.pk, &b.pk),
        Err(OutgoingError::InvalidCurrency)
    );
    expect_received(send(&mut a, &mut b, out));
    assert!(b.tc.remote_currencies.has(&currency()));
    assert!(!b.tc.local_currencies.has(&currency()));
    assert_eq!(b.tc.mutual_credits.len(), 0);

    let mut out = OutMoveToken::new();
    out.toggle_currency(&mut b.tc, currency()).unwrap();
    assert_eq!(b.tc.mutual_credits.len(), 1);
    expect_received(send(&mut b, &mut a, out));
    assert_eq!(a.tc.mutual_credits.len(), 1);
    assert_eq!(balance(&a), 0);
    assert_eq!(mutual_credit(&a).currency, currency());

    // the currency goes when both sides took it out and nothing is pending
    let mut out = OutMoveToken::new();
    out.toggle_currency(&mut a.tc, currency()).unwrap();
    assert_eq!(a.tc.mutual_credits.len(), 1);
    let op = FriendTcOp::RequestSendFunds(request(7, vec![b.pk], 10, 0));
    assert_eq!(
        out.queue_operation(&mut a.tc, &currency(), op, &a.pk, &b.pk),
        Err(OutgoingError::CurrencyNotActive)
    );
    expect_received(send(&mut a, &mut b, out));
    assert_eq!(b.tc.mutual_credits.len(), 1);
    let mut out = OutMoveToken::new();
    out.toggle_currency(&mut b.tc, currency()).unwrap();
    assert_eq!(b.tc.mutual_credits.len(), 0);
    expect_received(send(&mut b, &mut a, out));
    assert_eq!(a.tc.mutual_credits.len(), 0);
}

#[test]
fn currencies_are_toggled_before_operations() {
    let (mut a, b) = open_channel();
    let mut out = OutMoveToken::new();
    let op = FriendTcOp::RequestSendFunds(request(7, vec![b.pk], 10, 0));
    out.queue_operation(&mut a.tc, &currency(), op, &a.pk, &b.pk).unwrap();
    let other = Currency::from_bytes(b"ABC").unwrap();
    assert_eq!(out.toggle_currency(&mut a.tc, other), Err(OutgoingError::OperationsQueued));
    assert_eq!(out.operations.len(), 1);
    assert!(out.currencies_diff.is_empty());
}

#[test]
fn payment_between_two_nodes() {
    let (mut a, mut b) = open_channel();
    let counter = a.tc.move_token_counter;
    let mut out = OutMoveToken::new();
    let op = FriendTcOp::RequestSendFunds(request(7, vec![b.pk], 10, 0));
    let mutation = out.queue_operation(&mut a.tc, &currency(), op, &a.pk, &b.pk).unwrap();
    assert!(matches!(mutation, McMutation::InsertLocalPendingTransaction(ref row) if row.dest_payment == 10));
    let messages = expect_received(send(&mut a, &mut b, out));
    assert_eq!(messages.len(), 1);
    let delivered = match &messages[0] {
        (c, IncomingMessage::Request(delivered)) if *c == currency() => delivered.clone(),
        _ => unreachable!(),
    };
    assert_eq!(delivered.request_id, [7u8; 16]);
    assert_eq!(mutual_credit(&b).balance.remote_pending_debt, 10);
    assert_eq!(mutual_credit(&a).balance.local_pending_debt, 10);

    let response = signed_response(&b.key, &mutual_credit(&b).pending_transactions.remote[0]);
    let mut out = OutMoveToken::new();
    out.queue_operation(
        &mut b.tc,
        &currency(),
        FriendTcOp::ResponseSendFunds(response),
        &b.pk,
        &a.pk,
    )
    .unwrap();
    let messages = expect_received(send(&mut b, &mut a, out));
    assert!(matches!(&messages[0].1, IncomingMessage::Response(r) if r.incoming_response == response));

    assert_eq!(balance(&a), -10);
    assert_eq!(balance(&b), 10);
    assert!(mutual_credit(&a).pending_transactions.local.is_empty());
    assert!(mutual_credit(&a).pending_transactions.remote.is_empty());
    assert!(mutual_credit(&b).pending_transactions.local.is_empty());
    assert!(mutual_credit(&b).pending_transactions.remote.is_empty());
    assert_eq!(a.tc.move_token_counter, counter + 2);
    assert_eq!(b.tc.move_token_counter, counter + 2);
}

#[test]
fn balances_digest_layout() {
    let (mut a, mut b) = open_channel();
    let mut out = OutMoveToken::new();
    let op = FriendTcOp::RequestSendFunds(request(7, vec![b.pk], 10, 2));
    out.queue_operation(&mut a.tc, &currency(), op, &a.pk, &b.pk).unwrap();
    expect_received(send(&mut a, &mut b, out));
    let response = signed_response(&b.key, &mutual_credit(&b).pending_transactions.remote[0]);
    let mut out = OutMoveToken::new();
    out.queue_operation(&mut b.tc, &currency(), FriendTcOp::ResponseSendFunds(response), &b.pk, &a.pk)
        .unwrap();
    let op = FriendTcOp::RequestSendFunds(request(8, vec![a.pk], 3, 0));
    out.queue_operation(&mut b.tc, &currency(), op, &b.pk, &a.pk).unwrap();
    expect_received(send(&mut b, &mut a, out));
    // a: balance -12, 3 pending from b; a fee that one side kept is its own
    // and does not enter the digest
    a.tc.keep_fee(&currency(), 2);
    assert_eq!(mutual_credit(&a).balance.out_fees, U256 { hi: 0, lo: 2 });
    let mut buffer = Vec::new();
    buffer.extend_from_slice(&3u64.to_be_bytes());
    buffer.extend_from_slice(b"FST");
    buffer.extend_from_slice(&(-12i128).to_be_bytes());
    buffer.extend_from_slice(&0u128.to_be_bytes());
    buffer.extend_from_slice(&3u128.to_be_bytes());
    let expected: [u8; 32] = Sha512_256::digest(&buffer).into();
    assert_eq!(a.tc.balances_hash(false), expected);
    assert_eq!(b.tc.balances_hash(true), expected);
    assert_ne!(b.tc.balances_hash(false), expected);
    assert_eq!(b.tc.balances_hash(false), a.tc.balances_hash(true));
}

#[test]
fn operations_of_one_currency_share_a_group() {
    let (mut a, mut b) = open_channel();
    let mut out = OutMoveToken::new();
    for id in 1..=3u8 {
        let op = FriendTcOp::RequestSendFunds(request(id, vec![b.pk], 10, 0));
        out.queue_operation(&mut a.tc, &currency(), op, &a.pk, &b.pk).unwrap();
    }
    let refused = FriendTcOp::RequestSendFunds(request(4, vec![b.pk], 71, 0));
    let before = a.tc.clone();
    assert_eq!(
        out.queue_operation(&mut a.tc, &currency(), refused, &a.pk, &b.pk),
        Err(OutgoingError::Operation(QueueOperationError::InsufficientTrust))
    );
    assert_eq!(a.tc, before);
    assert_eq!(out.operations.len(), 1);
    assert_eq!(out.operations[0].operations.len(), 3);
    let messages = expect_received(send(&mut a, &mut b, out));
    assert_eq!(messages.len(), 3);
    assert_eq!(mutual_credit(&b).balance.remote_pending_debt, 30);
    let ids: Vec<u8> = mutual_credit(&b).pending_transactions.remote.iter().map(|r| r.request_id[0]).collect();
    assert_eq!(ids, vec![1, 2, 3]);
}

#[test]
fn duplicate_move_token_changes_nothing() {
    let (mut a, mut b) = open_channel();
    let mut out = OutMoveToken::new();
    let op = FriendTcOp::RequestSendFunds(request(7, vec![b.pk], 10, 0));
    out.queue_operation(&mut a.tc, &currency(), op, &a.pk, &b.pk).unwrap();
    expect_received(send(&mut a, &mut b, out));
    let before = b.tc.clone();
    let again = a.tc.outgoing_move_token().unwrap().clone();
    let output =
        handle_in_move_token(&mut b.tc, again, &no_rates(), &b.pk, &a.pk, &sign_with(&b.key));
    assert_eq!(output, ReceiveMoveTokenOutput::Duplicate);
    assert_eq!(b.tc, before);
}

#[test]
fn old_move_token_asks_for_the_answer_again() {
    let (mut a, mut b) = open_channel();
    expect_received(send(&mut a, &mut b, OutMoveToken::new()));
    let first = a.tc.outgoing_move_token().unwrap().clone();
    let sent = OutMoveToken::new().finalize(&mut b.tc, [6u8; 16], true, &b.pk, &a.pk, &sign_with(&b.key));
    assert_eq!(sent, Ok(true));
    // the answer is lost, and the first move token arrives once more
    let before = b.tc.clone();
    let output =
        handle_in_move_token(&mut b.tc, first, &no_rates(), &b.pk, &a.pk, &sign_with(&b.key));
    assert_eq!(output, ReceiveMoveTokenOutput::RetransmitOutgoing);
    assert_eq!(b.tc, before);
    let answer = b.tc.outgoing_move_token().unwrap().clone();
    let output =
        handle_in_move_token(&mut a.tc, answer, &no_rates(), &a.pk, &b.pk, &sign_with(&a.key));
    assert!(matches!(output, ReceiveMoveTokenOutput::Received(_)));
}

fn tampered(move_token: &MoveToken, key: &SigningKey) -> MoveToken {
    let mut bad = move_token.clone();
    bad.info_hash[0] ^= 1;
    bad.new_token = key.sign(&move_token_signature_buff(&bad)).to_bytes();
    bad
}

#[test]
fn refused_move_tokens_freeze_the_channel() {
    // a signature that does not verify
    let (mut a, mut b) = open_channel();
    let sent = OutMoveToken::new().finalize(&mut a.tc, [5u8; 16], true, &a.pk, &b.pk, &sign_with(&a.key));
    assert_eq!(sent, Ok(true));
    let mut bad = a.tc.outgoing_move_token().unwrap().clone();
    bad.info_hash[0] ^= 1;
    let output = handle_in_move_token(&mut b.tc, bad, &no_rates(), &b.pk, &a.pk, &sign_with(&b.key));
    match output {
        ReceiveMoveTokenOutput::ChainInconsistent(frozen) => {
            assert_eq!(frozen.reason, TokenChannelError::InvalidSignature);
            assert!(frozen.lost_requests.is_empty());
        }
        _ => unreachable!(),
    }
    assert!(matches!(b.tc.status, TcStatus::Inconsistent(_, None)));

    // a digest that is not the digest of the balances
    let (mut a, mut b) = open_channel();
    OutMoveToken::new().finalize(&mut a.tc, [5u8; 16], true, &a.pk, &b.pk, &sign_with(&a.key)).unwrap();
    let bad = tampered(a.tc.outgoing_move_token().unwrap(), &a.key);
    let output = handle_in_move_token(&mut b.tc, bad, &no_rates(), &b.pk, &a.pk, &sign_with(&b.key));
    assert!(matches!(
        output,
        ReceiveMoveTokenOutput::ChainInconsistent(ref frozen)
            if frozen.reason == TokenChannelError::InvalidTokenInfo
    ));

    // a move token that does not continue the chain
    let (mut a, mut b) = open_channel();
    OutMoveToken::new().finalize(&mut a.tc, [5u8; 16], true, &a.pk, &b.pk, &sign_with(&a.key)).unwrap();
    let mut bad = a.tc.outgoing_move_token().unwrap().clone();
    bad.old_token[0] ^= 1;
    bad.new_token = a.key.sign(&move_token_signature_buff(&bad)).to_bytes();
    let output = handle_in_move_token(&mut b.tc, bad, &no_rates(), &b.pk, &a.pk, &sign_with(&b.key));
    assert!(matches!(
        output,
        ReceiveMoveTokenOutput::ChainInconsistent(ref frozen)
            if frozen.reason == TokenChannelError::ChainInconsistency
    ));

    // a move token while the local side holds the token
    let (mut a, b) = open_channel();
    assert!(a.tc.holds_token());
    let mut unexpected = b.tc.outgoing_move_token().unwrap().clone();
    unexpected.new_token[0] ^= 1;
    let output =
        handle_in_move_token(&mut a.tc, unexpected, &no_rates(), &a.pk, &b.pk, &sign_with(&a.key));
    assert!(matches!(
        output,
        ReceiveMoveTokenOutput::ChainInconsistent(ref frozen)
            if frozen.reason == TokenChannelError::ChainInconsistency
    ));
    assert!(matches!(a.tc.status, TcStatus::Inconsistent(_, None)));
}

#[test]
fn refused_operations_freeze_the_channel() {
    // an operation on a currency without a mutual credit
    let (mut a, mut b) = open_channel();
    let mut out = OutMoveToken::new();
    let op = FriendTcOp::RequestSendFunds(request(7, vec![b.pk], 10, 0));
    out.queue_operation(&mut a.tc, &currency(), op, &a.pk, &b.pk).unwrap();
    out.operations[0].currency = Currency::from_bytes(b"ABC").unwrap();
    let output = send(&mut a, &mut b, out);
    assert!(matches!(
        output,
        ReceiveMoveTokenOutput::ChainInconsistent(ref frozen)
            if frozen.reason == TokenChannelError::InvalidCurrency
    ));

    // a request above what the friend is trusted with
    let (mut a, mut b) = open_channel();
    assert!(b.tc.set_remote_max_debt(currency(), 5));
    let mut out = OutMoveToken::new();
    let op = FriendTcOp::RequestSendFunds(request(7, vec![b.pk], 10, 0));
    out.queue_operation(&mut a.tc, &currency(), op, &a.pk, &b.pk).unwrap();
    let output = send(&mut a, &mut b, out);
    match output {
        ReceiveMoveTokenOutput::ChainInconsistent(frozen) => match frozen.reason {
            TokenChannelError::InvalidTransaction(error) => {
                assert_eq!(error.index, 0);
                assert_eq!(
                    error.process_trans_error,
                    funder::mutual_credit::incoming::ProcessOperationError::InsufficientTrust
                );
            }
            _ => unreachable!(),
        },
        _ => unreachable!(),
    }
    // debts above the largest are not taken
    assert!(!b.tc.set_remote_max_debt(currency(), 1u128 << 127));
    assert_eq!(b.tc.remote_max_debts.get_or(&currency(), 0), 5);
}

#[test]
fn counter_never_wraps() {
    let (mut a, b) = open_channel();
    a.tc.move_token_counter = u128::MAX;
    let before = a.tc.clone();
    let sent = OutMoveToken::new().finalize(&mut a.tc, [5u8; 16], true, &a.pk, &b.pk, &sign_with(&a.key));
    assert_eq!(sent, Err(OutgoingError::MoveTokenCounterOverflow));
    assert_eq!(a.tc, before);

    let (mut a, mut b2) = open_channel();
    OutMoveToken::new().finalize(&mut a.tc, [5u8; 16], true, &a.pk, &b2.pk, &sign_with(&a.key)).unwrap();
    b2.tc.move_token_counter = u128::MAX;
    let move_token = a.tc.outgoing_move_token().unwrap().clone();
    let output =
        handle_in_move_token(&mut b2.tc, move_token, &no_rates(), &b2.pk, &a.pk, &sign_with(&b2.key));
    assert!(matches!(
        output,
        ReceiveMoveTokenOutput::ChainInconsistent(ref frozen)
            if frozen.reason == TokenChannelError::MoveTokenCounterOverflow
    ));
    // the reset terms keep the counter where it is
    assert_eq!(reset_terms(&b2).move_token_counter, u128::MAX);
}

#[test]
fn request_in_a_currency_that_one_side_left() {
    let (mut a, mut b) = open_channel();
    // b does not trade the currency any more, and a does not know
    let k = b.tc.local_currencies.position(&currency()).unwrap();
    b.tc.local_currencies.remove_at(k);
    let mut out = OutMoveToken::new();
    let op = FriendTcOp::RequestSendFunds(request(7, vec![b.pk], 10, 0));
    out.queue_operation(&mut a.tc, &currency(), op, &a.pk, &b.pk).unwrap();
    let output = send(&mut a, &mut b, out);
    assert!(matches!(
        output,
        ReceiveMoveTokenOutput::ChainInconsistent(ref frozen)
            if frozen.reason == TokenChannelError::CurrencyNotActive
    ));
}

fn reset_terms(side: &Side) -> ResetTerms {
    side.tc.local_reset_terms().unwrap().clone()
}

#[test]
fn inconsistency_recovery() {
    let (mut a, mut b) = open_channel();
    // a request of a is pending at b
    let mut out = OutMoveToken::new();
    let op = FriendTcOp::RequestSendFunds(request(7, vec![b.pk], 10, 0));
    out.queue_operation(&mut a.tc, &currency(), op, &a.pk, &b.pk).unwrap();
    expect_received(send(&mut a, &mut b, out));
    expect_received(send(&mut b, &mut a, OutMoveToken::new()));
    let counter = a.tc.move_token_counter;
    assert_eq!(b.tc.move_token_counter, counter);
    let b_before_balance = mutual_credit(&b).balance;
    assert_eq!(b_before_balance.remote_pending_debt, 10);
    assert_eq!(b_before_balance.balance, 0);

    // b gets a move token whose digest was tampered with
    OutMoveToken::new().finalize(&mut a.tc, [5u8; 16], true, &a.pk, &b.pk, &sign_with(&a.key)).unwrap();
    let bad = tampered(a.tc.outgoing_move_token().unwrap(), &a.key);
    let output = handle_in_move_token(&mut b.tc, bad, &no_rates(), &b.pk, &a.pk, &sign_with(&b.key));
    assert!(matches!(output, ReceiveMoveTokenOutput::ChainInconsistent(_)));
    let b_terms = reset_terms(&b);
    assert_eq!(b_terms.move_token_counter, counter + 1);
    assert_eq!(
        b_terms.reset_token,
        b.key.sign(&reset_token_signature_buff(&b.pk, &a.pk, counter + 1)).to_bytes()
    );
    assert_eq!(b_terms.reset_balances.len(), 1);
    assert_eq!(b_terms.reset_balances.value_at(0).balance, 10);
    assert_eq!(b_terms.reset_balances.value_at(0).in_fees, U256 { hi: 0, lo: 0 });
    assert_eq!(b.tc.mutual_credits.len(), 0);
    assert_eq!(b.tc.remote_max_debts.get_or(&currency(), 0), 100);

    // a learns of it, and freezes too
    let output =
        handle_in_reset_terms(&mut a.tc, b_terms.clone(), &a.pk, &b.pk, &sign_with(&a.key));
    assert_eq!(
        output,
        ResetTermsOutput::Frozen(vec![LostRequest { currency: currency(), request_id: [7u8; 16] }])
    );
    let a_terms = reset_terms(&a);
    // a had sent one more move token than b had accepted
    assert_eq!(a_terms.move_token_counter, counter + 2);
    assert_eq!(a_terms.reset_balances.value_at(0).balance, 0);
    let output =
        handle_in_reset_terms(&mut b.tc, a_terms.clone(), &b.pk, &a.pk, &sign_with(&b.key));
    assert_eq!(output, ResetTermsOutput::Recorded);

    // exactly one side sends the first move token; the terms of the other
    // are taken
    let a_sends = array_lt(&a_terms.reset_token, &b_terms.reset_token);
    let a_accepted = a.tc.accept_remote_reset_terms();
    let b_accepted = b.tc.accept_remote_reset_terms();
    assert_eq!(a_accepted, a_sends);
    assert_eq!(b_accepted, !a_sends);
    let (sender, receiver, taken, proposer_balance) = if a_sends {
        (&mut a, &mut b, b_terms, 10i128)
    } else {
        (&mut b, &mut a, a_terms, 0i128)
    };
    assert!(sender.tc.holds_token());
    let output = send(sender, receiver, OutMoveToken::new());
    assert!(expect_received(output).is_empty());
    assert_eq!(sender.tc.outgoing_move_token().unwrap().old_token, taken.reset_token);
    assert!(receiver.tc.holds_token());
    assert_eq!(sender.tc.move_token_counter, taken.move_token_counter);
    assert_eq!(receiver.tc.move_token_counter, taken.move_token_counter);
    // the balance of the side whose terms were taken is its balance before
    // plus the pending debt of the other side
    assert_eq!(balance(receiver), proposer_balance);
    assert_eq!(balance(sender), -proposer_balance);
    for side in [&*sender, &*receiver] {
        let mc = mutual_credit(side);
        assert!(mc.pending_transactions.local.is_empty());
        assert!(mc.pending_transactions.remote.is_empty());
        assert_eq!(mc.balance.local_pending_debt, 0);
        assert_eq!(mc.balance.remote_pending_debt, 0);
        assert!(side.tc.local_currencies.has(&currency()));
        assert!(side.tc.remote_currencies.has(&currency()));
    }
    // and the channel works again
    expect_received(send(receiver, sender, OutMoveToken::new()));
    assert_eq!(sender.tc.move_token_counter, taken.move_token_counter + 1);
}

#[test]
fn reset_terms_that_cannot_be_taken() {
    let (mut a, mut b) = open_channel();
    OutMoveToken::new().finalize(&mut a.tc, [5u8; 16], true, &a.pk, &b.pk, &sign_with(&a.key)).unwrap();
    let bad = tampered(a.tc.outgoing_move_token().unwrap(), &a.key);
    handle_in_move_token(&mut b.tc, bad, &no_rates(), &b.pk, &a.pk, &sign_with(&b.key));
    let terms = reset_terms(&b);
    let before = a.tc.clone();

    let mut forged = terms.clone();
    forged.reset_token[0] ^= 1;
    let output = handle_in_reset_terms(&mut a.tc, forged, &a.pk, &b.pk, &sign_with(&a.key));
    assert_eq!(output, ResetTermsOutput::Rejected);

    let mut other_counter = terms.clone();
    other_counter.move_token_counter += 1;
    let output = handle_in_reset_terms(&mut a.tc, other_counter, &a.pk, &b.pk, &sign_with(&a.key));
    assert_eq!(output, ResetTermsOutput::Rejected);

    let mut zero = terms.clone();
    zero.move_token_counter = 0;
    zero.reset_token = b.key.sign(&reset_token_signature_buff(&b.pk, &a.pk, 0)).to_bytes();
    let output = handle_in_reset_terms(&mut a.tc, zero, &a.pk, &b.pk, &sign_with(&a.key));
    assert_eq!(output, ResetTermsOutput::Rejected);

    let mut lowest = terms.clone();
    let mut balances = CurrencyMap::new();
    balances.set(
        currency(),
        funder::proto::ResetBalance {
            balance: i128::MIN,
            in_fees: U256 { hi: 0, lo: 0 },
            out_fees: U256 { hi: 0, lo: 0 },
        },
    );
    lowest.reset_balances = balances;
    let output = handle_in_reset_terms(&mut a.tc, lowest, &a.pk, &b.pk, &sign_with(&a.key));
    assert_eq!(output, ResetTermsOutput::Rejected);
    assert_eq!(a.tc, before);

    // a channel that is not inconsistent, or does not know the other terms,
    // does not restart
    assert!(!a.tc.accept_remote_reset_terms());
    assert!(!b.tc.accept_remote_reset_terms());
    assert_eq!(a.tc, before);
}

#[test]
fn move_token_during_inconsistency() {
    let (mut a, mut b) = open_channel();
    OutMoveToken::new().finalize(&mut a.tc, [5u8; 16], true, &a.pk, &b.pk, &sign_with(&a.key)).unwrap();
    let good = a.tc.outgoing_move_token().unwrap().clone();
    let bad = tampered(&good, &a.key);
    handle_in_move_token(&mut b.tc, bad, &no_rates(), &b.pk, &a.pk, &sign_with(&b.key));
    let before = b.tc.clone();
    let output = handle_in_move_token(&mut b.tc, good, &no_rates(), &b.pk, &a.pk, &sign_with(&b.key));
    assert_eq!(output, ReceiveMoveTokenOutput::ResetRefused(TokenChannelError::ChainInconsistency));
    assert_eq!(b.tc, before);

    // a move token that names the local reset token but is wrong otherwise
    let mut wrong = a.tc.outgoing_move_token().unwrap().clone();
    wrong.old_token = reset_terms(&b).reset_token;
    wrong.info_hash[0] ^= 1;
    wrong.new_token = a.key.sign(&move_token_signature_buff(&wrong)).to_bytes();
    let output = handle_in_move_token(&mut b.tc, wrong, &no_rates(), &b.pk, &a.pk, &sign_with(&b.key));
    assert_eq!(output, ReceiveMoveTokenOutput::ResetRefused(TokenChannelError::InvalidTokenInfo));
    assert_eq!(b.tc, before);
}

#[test]
fn cancel_travels_back() {
    let (mut a, mut b) = open_channel();
    let mut out = OutMoveToken::new();
    let op = FriendTcOp::RequestSendFunds(request(7, vec![b.pk], 10, 2));
    out.queue_operation(&mut a.tc, &currency(), op, &a.pk, &b.pk).unwrap();
    expect_received(send(&mut a, &mut b, out));
    let mut out = OutMoveToken::new();
    let cancel = CancelSendFundsOp { request_id: [7u8; 16], reporting_public_key: b.pk };
    out.queue_operation(&mut b.tc, &currency(), FriendTcOp::CancelSendFunds(cancel), &b.pk, &a.pk)
        .unwrap();
    let messages = expect_received(send(&mut b, &mut a, out));
    assert!(matches!(&messages[0].1, IncomingMessage::Cancel(c) if c.incoming_cancel == cancel));
    assert_eq!(balance(&a), 0);
    assert_eq!(balance(&b), 0);
    assert_eq!(mutual_credit(&a).balance.local_pending_debt, 0);
    assert_eq!(mutual_credit(&b).balance.remote_pending_debt, 0);
}
