use ed25519_dalek::{Signer, SigningKey};
use funder::mutual_credit::incoming::{
    process_operation, process_operations_list, IncomingMessage, ProcessOperationError,
    ProcessTransListError,
};
use funder::mutual_credit::outgoing::{queue_operation, QueueOperationError};
use funder::mutual_credit::{find_request, McMutation, MutualCredit};
use funder::proto::{
    create_pending_transaction, CancelSendFundsOp, FriendTcOp, McBalance, PendingTransaction,
    RequestSendFundsOp, ResponseSendFundsOp,
};
use funder::signature_buff::create_response_signature_buffer;
use funder::types::{Currency, Rate, U256, MAX_FUNDER_DEBT};

fn key(seed: u8) -> SigningKey {
    SigningKey::from_bytes(&[seed; 32])
}

fn public(seed: u8) -> [u8; 32] {
    key(seed).verifying_key().to_bytes()
}

fn currency() -> Currency {
    Currency::from_bytes(b"FST").unwrap()
}

fn request(id: u8, route: Vec<[u8; 32]>, dest_payment: u128, left_fees: u128) -> RequestSendFundsOp {
    RequestSendFundsOp {
        request_id: [id; 16],
        src_hashed_lock: [1u8; 32],
        route_remainder: route,
        dest_payment,
        total_dest_payment: dest_payment,
        invoice_hash: [2u8; 32],
        hmac: [3u8; 32],
        left_fees,
    }
}

fn signed_response(signer: &SigningKey, row: &PendingTransaction) -> ResponseSendFundsOp {
    let mut response = ResponseSendFundsOp {
        request_id: row.request_id,
        src_plain_lock: [4u8; 32],
        serial_num: 1,
        signature: [0u8; 64],
    };
    let buffer = create_response_signature_buffer(&currency(), &response, row);
    response.signature = signer.sign(&buffer).to_bytes();
    response
}

fn apply(mc: &mut MutualCredit, mutations: Vec<McMutation>) {
    for mutation in mutations {
        mc.mutate(mutation);
    }
}

fn send(
    mc: &mut MutualCredit,
    op: &FriendTcOp,
    local_max_debt: u128,
    local: &[u8; 32],
    remote: &[u8; 32],
) {
    let mutations = queue_operation(mc, op, local_max_debt, local_max_debt, local, remote).unwrap();
    apply(mc, mutations);
}

fn frozen_total(rows: &[PendingTransaction]) -> u128 {
    rows.iter().map(|row| row.dest_payment + row.left_fees).sum()
}

fn assert_pending_consistent(mc: &MutualCredit) {
    assert_eq!(frozen_total(&mc.pending_transactions.local), mc.balance.local_pending_debt);
    assert_eq!(frozen_total(&mc.pending_transactions.remote), mc.balance.remote_pending_debt);
}

const NO_FEE: Rate = Rate { mul: 0, add: 0 };

#[test]
fn new_mutual_credit() {
    let mc = MutualCredit::new(&currency(), -7);
    assert_eq!(
        mc.balance,
        McBalance {
            balance: -7,
            local_pending_debt: 0,
            remote_pending_debt: 0,
            in_fees: U256 { hi: 0, lo: 0 },
            out_fees: U256 { hi: 0, lo: 0 },
        }
    );
    assert!(mc.pending_transactions.local.is_empty());
    assert!(mc.pending_transactions.remote.is_empty());
    assert_eq!(mc.currency, currency());
}

#[test]
fn payment_over_one_channel() {
    // local pays remote 10; the remote node is the destination
    let (local, remote) = (public(1), public(2));
    let mut mc_local = MutualCredit::new(&currency(), 0);
    let mut mc_remote = MutualCredit::new(&currency(), 0);

    let op = FriendTcOp::RequestSendFunds(request(7, vec![remote], 10, 0));
    let mutations = queue_operation(&mc_local, &op, 100, 100, &local, &remote).unwrap();
    assert_eq!(mutations.len(), 1);
    apply(&mut mc_local, mutations);
    assert_eq!(mc_local.balance.local_pending_debt, 10);
    assert_eq!(mc_local.balance.balance, 0);
    assert_pending_consistent(&mc_local);

    let output = process_operation(&mut mc_remote, &op, 100, 100, &NO_FEE, &remote).unwrap();
    assert!(matches!(output.incoming_message, IncomingMessage::Request(_)));
    assert_eq!(mc_remote.balance.remote_pending_debt, 10);
    assert_pending_consistent(&mc_remote);

    let response = signed_response(&key(2), &mc_remote.pending_transactions.remote[0]);
    let back = FriendTcOp::ResponseSendFunds(response);
    let mutations = queue_operation(&mc_remote, &back, 100, 100, &remote, &local).unwrap();
    apply(&mut mc_remote, mutations);
    assert_eq!(mc_remote.balance.balance, 10);
    assert_eq!(mc_remote.balance.remote_pending_debt, 0);
    assert!(mc_remote.pending_transactions.remote.is_empty());

    let output = process_operation(&mut mc_local, &back, 100, 100, &NO_FEE, &local).unwrap();
    match output.incoming_message {
        IncomingMessage::Response(incoming) => {
            assert_eq!(incoming.pending_transaction.request_id, [7u8; 16]);
            assert_eq!(incoming.incoming_response, response);
        }
        _ => unreachable!(),
    }
    assert_eq!(mc_local.balance.balance, -10);
    assert_eq!(mc_local.balance.local_pending_debt, 0);
    assert!(mc_local.pending_transactions.local.is_empty());
    assert_pending_consistent(&mc_local);
    assert_pending_consistent(&mc_remote);
}

#[test]
fn response_moves_fees_too() {
    let (local, remote, dest) = (public(1), public(2), public(3));
    let mut mc_local = MutualCredit::new(&currency(), 0);
    let mut mc_remote = MutualCredit::new(&currency(), 0);
    let op = FriendTcOp::RequestSendFunds(request(7, vec![remote, dest], 10, 2));
    send(&mut mc_local, &op, 100, &local, &remote);
    assert_eq!(mc_local.balance.local_pending_debt, 12);
    process_operation(&mut mc_remote, &op, 100, 100, &Rate { mul: 0, add: 1 }, &remote).unwrap();
    assert_eq!(mc_remote.balance.remote_pending_debt, 12);

    let response = signed_response(&key(3), &mc_remote.pending_transactions.remote[0]);
    let back = FriendTcOp::ResponseSendFunds(response);
    send(&mut mc_remote, &back, 100, &remote, &local);
    process_operation(&mut mc_local, &back, 100, 100, &NO_FEE, &local).unwrap();
    assert_eq!(mc_local.balance.balance, -12);
    assert_eq!(mc_remote.balance.balance, 12);
    assert_eq!(mc_local.balance.local_pending_debt, 0);
    assert_eq!(mc_remote.balance.remote_pending_debt, 0);
    // settling counts no fee: what a node kept is counted on its own
    for mc in [&mc_local, &mc_remote] {
        assert_eq!(mc.balance.out_fees, U256 { hi: 0, lo: 0 });
        assert_eq!(mc.balance.in_fees, U256 { hi: 0, lo: 0 });
    }
}

#[test]
fn kept_fee_is_counted() {
    let mut mc = MutualCredit::new(&currency(), 5);
    assert_eq!(mc.mutate(McMutation::KeepFee(3)), None);
    mc.mutate(McMutation::KeepFee(4));
    assert_eq!(mc.balance.out_fees, U256 { hi: 0, lo: 7 });
    assert_eq!(mc.balance.in_fees, U256 { hi: 0, lo: 0 });
    assert_eq!(mc.balance.balance, 5);
    // the counter carries into its upper half, and stops at the largest
    mc.mutate(McMutation::KeepFee(u128::MAX));
    assert_eq!(mc.balance.out_fees, U256 { hi: 1, lo: 6 });
    mc.balance.out_fees = U256 { hi: u128::MAX, lo: u128::MAX - 1 };
    mc.mutate(McMutation::KeepFee(5));
    assert_eq!(mc.balance.out_fees, U256 { hi: u128::MAX, lo: u128::MAX });
}

#[test]
fn incoming_request_takes_the_fee() {
    let (local, next) = (public(1), public(2));
    let mut mc = MutualCredit::new(&currency(), 0);
    let op = FriendTcOp::RequestSendFunds(request(7, vec![local, next], 10, 5));
    let output = process_operation(&mut mc, &op, 100, 100, &Rate { mul: 0x8000_0000, add: 1 }, &local)
        .unwrap();
    match output.incoming_message {
        IncomingMessage::Request(forward) => {
            // 10 / 2 + 1 = 6 is more than 5
            unreachable!("{:?}", forward);
        }
        IncomingMessage::RequestCancel(kept) => assert_eq!(kept.left_fees, 5),
        _ => unreachable!(),
    }
    // the request is pending all the same
    assert_eq!(mc.balance.remote_pending_debt, 15);
    assert_eq!(mc.pending_transactions.remote.len(), 1);

    let op = FriendTcOp::RequestSendFunds(request(8, vec![local, next], 10, 6));
    let output = process_operation(&mut mc, &op, 100, 100, &Rate { mul: 0x8000_0000, add: 1 }, &local)
        .unwrap();
    match output.incoming_message {
        IncomingMessage::Request(forward) => {
            assert_eq!(forward.left_fees, 0);
            assert_eq!(forward.dest_payment, 10);
            assert_eq!(forward.route_remainder, vec![local, next]);
        }
        _ => unreachable!(),
    }
    assert_eq!(mc.balance.remote_pending_debt, 31);
    assert_eq!(mc.pending_transactions.remote[1].left_fees, 6);
    assert!(matches!(
        output.mc_mutation,
        McMutation::InsertRemotePendingTransaction(ref row) if row.request_id == [8u8; 16]
    ));
}

#[test]
fn destination_is_not_charged() {
    let local = public(1);
    let mut mc = MutualCredit::new(&currency(), 0);
    let op = FriendTcOp::RequestSendFunds(request(7, vec![local], 10, 0));
    let output = process_operation(&mut mc, &op, 100, 100, &Rate { mul: 0, add: 1 }, &local).unwrap();
    assert!(matches!(output.incoming_message, IncomingMessage::Request(ref r) if r.left_fees == 0));
}

#[test]
fn incoming_request_errors() {
    let (local, next) = (public(1), public(2));
    let mut mc = MutualCredit::new(&currency(), 0);
    let before = mc.clone();

    let empty = FriendTcOp::RequestSendFunds(request(7, vec![], 10, 0));
    assert_eq!(
        process_operation(&mut mc, &empty, 100, 100, &NO_FEE, &local).unwrap_err(),
        ProcessOperationError::InvalidRoute
    );
    let not_for_us = FriendTcOp::RequestSendFunds(request(7, vec![next, local], 10, 0));
    assert_eq!(
        process_operation(&mut mc, &not_for_us, 100, 100, &NO_FEE, &local).unwrap_err(),
        ProcessOperationError::InvalidRoute
    );
    let twice = FriendTcOp::RequestSendFunds(request(7, vec![local, next, local], 10, 0));
    assert_eq!(
        process_operation(&mut mc, &twice, 100, 100, &NO_FEE, &local).unwrap_err(),
        ProcessOperationError::InvalidRoute
    );
    let overflow = FriendTcOp::RequestSendFunds(request(7, vec![local], u128::MAX, 1));
    assert_eq!(
        process_operation(&mut mc, &overflow, 100, 100, &NO_FEE, &local).unwrap_err(),
        ProcessOperationError::CreditsCalcOverflow
    );
    let huge = FriendTcOp::RequestSendFunds(request(7, vec![local], 1u128 << 127, 0));
    assert_eq!(
        process_operation(&mut mc, &huge, u128::MAX, u128::MAX, &NO_FEE, &local).unwrap_err(),
        ProcessOperationError::CreditsCalcOverflow
    );
    let too_much = FriendTcOp::RequestSendFunds(request(7, vec![local], 100, 1));
    assert_eq!(
        process_operation(&mut mc, &too_much, 100, 100, &NO_FEE, &local).unwrap_err(),
        ProcessOperationError::InsufficientTrust
    );
    assert_eq!(mc, before);

    let fits = FriendTcOp::RequestSendFunds(request(7, vec![local], 99, 1));
    process_operation(&mut mc, &fits, 100, 100, &NO_FEE, &local).unwrap();
    assert_eq!(
        process_operation(&mut mc, &fits, 1000, 1000, &NO_FEE, &local).unwrap_err(),
        ProcessOperationError::RequestAlreadyExists
    );
    assert_eq!(mc.balance.remote_pending_debt, 100);
}

#[test]
fn incoming_response_and_cancel_errors() {
    let (local, remote) = (public(1), public(2));
    let mut mc = MutualCredit::new(&currency(), 0);
    let row = create_pending_transaction(request(7, vec![remote], 10, 0));
    let response = signed_response(&key(2), &row);
    assert_eq!(
        process_operation(&mut mc, &FriendTcOp::ResponseSendFunds(response), 100, 100, &NO_FEE, &local)
            .unwrap_err(),
        ProcessOperationError::RequestDoesNotExist
    );
    let cancel = CancelSendFundsOp { request_id: [7u8; 16], reporting_public_key: remote };
    assert_eq!(
        process_operation(&mut mc, &FriendTcOp::CancelSendFunds(cancel), 100, 100, &NO_FEE, &local)
            .unwrap_err(),
        ProcessOperationError::RequestDoesNotExist
    );

    let op = FriendTcOp::RequestSendFunds(request(7, vec![remote], 10, 0));
    send(&mut mc, &op, 100, &local, &remote);
    let before = mc.clone();
    // signed by somebody else than the destination
    let forged = signed_response(&key(9), &row);
    assert_eq!(
        process_operation(&mut mc, &FriendTcOp::ResponseSendFunds(forged), 100, 100, &NO_FEE, &local)
            .unwrap_err(),
        ProcessOperationError::InvalidResponseSignature
    );
    let mut tampered = response;
    tampered.serial_num = 2;
    assert_eq!(
        process_operation(&mut mc, &FriendTcOp::ResponseSendFunds(tampered), 100, 100, &NO_FEE, &local)
            .unwrap_err(),
        ProcessOperationError::InvalidResponseSignature
    );
    assert_eq!(mc, before);

    // the response is accepted once, and only once
    process_operation(&mut mc, &FriendTcOp::ResponseSendFunds(response), 100, 100, &NO_FEE, &local)
        .unwrap();
    assert_eq!(
        process_operation(&mut mc, &FriendTcOp::ResponseSendFunds(response), 100, 100, &NO_FEE, &local)
            .unwrap_err(),
        ProcessOperationError::RequestDoesNotExist
    );
    // a cancel after the response is refused
    assert_eq!(
        process_operation(&mut mc, &FriendTcOp::CancelSendFunds(cancel), 100, 100, &NO_FEE, &local)
            .unwrap_err(),
        ProcessOperationError::RequestDoesNotExist
    );
    assert_eq!(mc.balance.balance, -10);
}

#[test]
fn cancel_releases_without_moving() {
    let (local, remote) = (public(1), public(2));
    let mut mc_local = MutualCredit::new(&currency(), 3);
    let mut mc_remote = MutualCredit::new(&currency(), -3);
    let op = FriendTcOp::RequestSendFunds(request(7, vec![remote], 10, 2));
    send(&mut mc_local, &op, 100, &local, &remote);
    process_operation(&mut mc_remote, &op, 100, 100, &NO_FEE, &remote).unwrap();

    let cancel = FriendTcOp::CancelSendFunds(CancelSendFundsOp {
        request_id: [7u8; 16],
        reporting_public_key: remote,
    });
    send(&mut mc_remote, &cancel, 100, &remote, &local);
    let output = process_operation(&mut mc_local, &cancel, 100, 100, &NO_FEE, &local).unwrap();
    match output.incoming_message {
        IncomingMessage::Cancel(incoming) => {
            assert_eq!(incoming.pending_transaction.dest_payment, 10);
            assert_eq!(incoming.incoming_cancel.reporting_public_key, remote);
        }
        _ => unreachable!(),
    }
    assert_eq!(mc_local.balance, MutualCredit::new(&currency(), 3).balance);
    assert_eq!(mc_remote.balance, MutualCredit::new(&currency(), -3).balance);
    assert!(mc_local.pending_transactions.local.is_empty());
    assert!(mc_remote.pending_transactions.remote.is_empty());
}

#[test]
fn outgoing_request_errors() {
    let (local, remote, other) = (public(1), public(2), public(3));
    let mut mc = MutualCredit::new(&currency(), 0);
    let good = FriendTcOp::RequestSendFunds(request(7, vec![remote, other], 10, 1));

    assert_eq!(
        queue_operation(&mc, &good, MAX_FUNDER_DEBT + 1, MAX_FUNDER_DEBT + 1, &local, &remote).unwrap_err(),
        QueueOperationError::RemoteMaxDebtTooLarge
    );
    assert!(queue_operation(&mc, &good, MAX_FUNDER_DEBT, MAX_FUNDER_DEBT, &local, &remote).is_ok());
    for route in [vec![], vec![other, remote], vec![remote, local], vec![remote, other, other]] {
        let op = FriendTcOp::RequestSendFunds(request(7, route, 10, 1));
        assert_eq!(
            queue_operation(&mc, &op, 100, 100, &local, &remote).unwrap_err(),
            QueueOperationError::InvalidRoute
        );
    }
    assert_eq!(
        queue_operation(&mc, &good, 10, 10, &local, &remote).unwrap_err(),
        QueueOperationError::InsufficientTrust
    );
    let overflow = FriendTcOp::RequestSendFunds(request(7, vec![remote], u128::MAX, 1));
    assert_eq!(
        queue_operation(&mc, &overflow, 100, 100, &local, &remote).unwrap_err(),
        QueueOperationError::InsufficientTrust
    );
    // validating changes nothing
    assert_eq!(mc, MutualCredit::new(&currency(), 0));

    send(&mut mc, &good, 11, &local, &remote);
    assert_eq!(mc.balance.local_pending_debt, 11);
    assert_eq!(
        queue_operation(&mc, &good, 100, 100, &local, &remote).unwrap_err(),
        QueueOperationError::RequestAlreadyExists
    );

    // a request that came in over this channel cannot go back over it
    let incoming = FriendTcOp::RequestSendFunds(request(8, vec![local, other], 5, 0));
    process_operation(&mut mc, &incoming, 100, 100, &NO_FEE, &local).unwrap();
    let back = FriendTcOp::RequestSendFunds(request(8, vec![remote, other], 5, 0));
    assert_eq!(
        queue_operation(&mc, &back, 100, 100, &local, &remote).unwrap_err(),
        QueueOperationError::PendingTransactionAlreadyExists
    );
}

#[test]
fn outgoing_trust_counts_the_balance() {
    let (local, remote) = (public(1), public(2));
    // the remote side owes 5: under a remote limit of 10 the local side can
    // still send 5
    let mc = MutualCredit::new(&currency(), 5);
    let fits = FriendTcOp::RequestSendFunds(request(7, vec![remote], 5, 0));
    assert!(queue_operation(&mc, &fits, 100, 10, &local, &remote).is_ok());
    let too_much = FriendTcOp::RequestSendFunds(request(7, vec![remote], 5, 1));
    assert_eq!(
        queue_operation(&mc, &too_much, 100, 10, &local, &remote).unwrap_err(),
        QueueOperationError::InsufficientTrust
    );
    // the local side owes 5 already: 5 more is all that a local limit of 10
    // allows
    let mc = MutualCredit::new(&currency(), -5);
    let fits = FriendTcOp::RequestSendFunds(request(7, vec![remote], 4, 1));
    assert!(queue_operation(&mc, &fits, 10, 100, &local, &remote).is_ok());
    let too_much = FriendTcOp::RequestSendFunds(request(7, vec![remote], 5, 1));
    assert_eq!(
        queue_operation(&mc, &too_much, 10, 100, &local, &remote).unwrap_err(),
        QueueOperationError::InsufficientTrust
    );
    // what is pending in the other direction counts too
    let mut mc = MutualCredit::new(&currency(), 0);
    let incoming = FriendTcOp::RequestSendFunds(request(8, vec![local], 6, 0));
    process_operation(&mut mc, &incoming, 10, 10, &NO_FEE, &local).unwrap();
    let fits = FriendTcOp::RequestSendFunds(request(7, vec![remote], 4, 0));
    assert!(queue_operation(&mc, &fits, 10, 10, &local, &remote).is_ok());
    let too_much = FriendTcOp::RequestSendFunds(request(7, vec![remote], 5, 0));
    assert_eq!(
        queue_operation(&mc, &too_much, 10, 10, &local, &remote).unwrap_err(),
        QueueOperationError::InsufficientTrust
    );
    // either limit above the largest is refused
    assert_eq!(
        queue_operation(&mc, &fits, 10, MAX_FUNDER_DEBT + 1, &local, &remote).unwrap_err(),
        QueueOperationError::RemoteMaxDebtTooLarge
    );
}

#[test]
fn incoming_trust_counts_both_limits() {
    let local = public(1);
    let mut mc = MutualCredit::new(&currency(), -5);
    // the local side owes 5: a request of 6 would pass the local limit of 10
    let too_much = FriendTcOp::RequestSendFunds(request(7, vec![local], 6, 0));
    assert_eq!(
        process_operation(&mut mc, &too_much, 10, 100, &NO_FEE, &local).unwrap_err(),
        ProcessOperationError::InsufficientTrust
    );
    let fits = FriendTcOp::RequestSendFunds(request(7, vec![local], 5, 0));
    process_operation(&mut mc, &fits, 10, 100, &NO_FEE, &local).unwrap();
    let mut mc = MutualCredit::new(&currency(), 5);
    let too_much = FriendTcOp::RequestSendFunds(request(7, vec![local], 6, 0));
    assert_eq!(
        process_operation(&mut mc, &too_much, 100, 10, &NO_FEE, &local).unwrap_err(),
        ProcessOperationError::InsufficientTrust
    );
    let fits = FriendTcOp::RequestSendFunds(request(7, vec![local], 5, 0));
    process_operation(&mut mc, &fits, 100, 10, &NO_FEE, &local).unwrap();
    assert_eq!(mc.balance.remote_pending_debt, 5);
}

#[test]
fn outgoing_response_and_cancel_errors() {
    let (local, remote) = (public(1), public(2));
    let mut mc = MutualCredit::new(&currency(), 0);
    let row = create_pending_transaction(request(7, vec![local], 10, 0));
    let response = signed_response(&key(1), &row);
    assert_eq!(
        queue_operation(&mc, &FriendTcOp::ResponseSendFunds(response), 0, 0, &local, &remote)
            .unwrap_err(),
        QueueOperationError::ResponseWithoutPending
    );
    let cancel = FriendTcOp::CancelSendFunds(CancelSendFundsOp {
        request_id: [7u8; 16],
        reporting_public_key: local,
    });
    assert_eq!(
        queue_operation(&mc, &cancel, 0, 0, &local, &remote).unwrap_err(),
        QueueOperationError::ResponseWithoutPending
    );
    let op = FriendTcOp::RequestSendFunds(request(7, vec![local], 10, 0));
    process_operation(&mut mc, &op, 100, 100, &NO_FEE, &local).unwrap();
    let forged = signed_response(&key(5), &row);
    assert_eq!(
        queue_operation(&mc, &FriendTcOp::ResponseSendFunds(forged), 0, 0, &local, &remote)
            .unwrap_err(),
        QueueOperationError::InvalidInvoiceSignature
    );
    let mutations =
        queue_operation(&mc, &FriendTcOp::ResponseSendFunds(response), 0, 0, &local, &remote).unwrap();
    assert_eq!(mutations, vec![McMutation::SettleRemotePendingTransaction([7u8; 16])]);
    let mutations = queue_operation(&mc, &cancel, 0, 0, &local, &remote).unwrap();
    assert_eq!(mutations, vec![McMutation::CancelRemotePendingTransaction([7u8; 16])]);
}

#[test]
fn operations_list_stops_at_first_error() {
    let (local, next) = (public(1), public(2));
    let mut mc = MutualCredit::new(&currency(), 0);
    let ops = vec![
        FriendTcOp::RequestSendFunds(request(1, vec![local, next], 10, 1)),
        FriendTcOp::RequestSendFunds(request(2, vec![local], 20, 0)),
        FriendTcOp::RequestSendFunds(request(1, vec![local], 5, 0)),
        FriendTcOp::RequestSendFunds(request(3, vec![local], 5, 0)),
    ];
    let error =
        process_operations_list(&mut mc, &ops, 100, 100, &Rate { mul: 0, add: 1 }, &local).unwrap_err();
    assert_eq!(
        error,
        ProcessTransListError {
            index: 2,
            process_trans_error: ProcessOperationError::RequestAlreadyExists
        }
    );
    // the operations before the refused one were applied
    assert_eq!(mc.balance.remote_pending_debt, 31);
    assert_eq!(mc.pending_transactions.remote.len(), 2);

    let mut mc = MutualCredit::new(&currency(), 0);
    let outputs =
        process_operations_list(&mut mc, &ops[..2].to_vec(), 100, 100, &Rate { mul: 0, add: 1 }, &local)
            .unwrap();
    assert_eq!(outputs.len(), 2);
    assert!(matches!(outputs[0].incoming_message, IncomingMessage::Request(ref r) if r.left_fees == 0));
    assert!(matches!(outputs[1].incoming_message, IncomingMessage::Request(ref r) if r.left_fees == 0));
    assert_eq!(find_request(&mc.pending_transactions.remote, &[2u8; 16]), Some(1));
    assert_eq!(find_request(&mc.pending_transactions.remote, &[9u8; 16]), None);
    assert_pending_consistent(&mc);
}

#[test]
fn replaying_mutations_gives_the_same_state() {
    let (local, remote) = (public(1), public(2));
    let mut mc = MutualCredit::new(&currency(), 0);
    let mut log: Vec<McMutation> = Vec::new();

    let incoming = vec![
        FriendTcOp::RequestSendFunds(request(1, vec![local], 10, 0)),
        FriendTcOp::RequestSendFunds(request(2, vec![local], 20, 3)),
    ];
    for output in process_operations_list(&mut mc, &incoming, 100, 100, &NO_FEE, &local).unwrap() {
        log.push(output.mc_mutation);
    }
    let outgoing = vec![
        FriendTcOp::RequestSendFunds(request(3, vec![remote], 7, 1)),
        FriendTcOp::ResponseSendFunds(signed_response(&key(1), &mc.pending_transactions.remote[0])),
        FriendTcOp::CancelSendFunds(CancelSendFundsOp {
            request_id: [2u8; 16],
            reporting_public_key: local,
        }),
    ];
    for op in &outgoing {
        for mutation in queue_operation(&mc, op, 100, 100, &local, &remote).unwrap() {
            log.push(mutation.clone());
            mc.mutate(mutation);
        }
    }
    let cancel = FriendTcOp::CancelSendFunds(CancelSendFundsOp {
        request_id: [3u8; 16],
        reporting_public_key: remote,
    });
    log.push(process_operation(&mut mc, &cancel, 100, 100, &NO_FEE, &local).unwrap().mc_mutation);
    assert_eq!(log.len(), 6);

    let mut replayed = MutualCredit::new(&currency(), 0);
    for mutation in log {
        replayed.mutate(mutation);
    }
    assert_eq!(replayed, mc);
    assert_eq!(mc.balance.balance, 10);
    assert_eq!(mc.balance.in_fees, U256 { hi: 0, lo: 0 });
    assert_pending_consistent(&mc);
}

#[test]
fn trust_holds_after_every_accepted_operation() {
    let (local, remote) = (public(1), public(2));
    let (local_max_debt, remote_max_debt) = (30u128, 25u128);
    let mut mc = MutualCredit::new(&currency(), 0);
    let within = |mc: &MutualCredit| {
        let balance = mc.balance.balance;
        balance + (mc.balance.local_pending_debt as i128) <= remote_max_debt as i128
            && -balance + (mc.balance.remote_pending_debt as i128) <= local_max_debt as i128
    };
    let mut id = 0u8;
    let mut refused = 0;
    for round in 0..8 {
        id += 1;
        let out = FriendTcOp::RequestSendFunds(request(id, vec![remote], 9, 1));
        match queue_operation(&mc, &out, local_max_debt, remote_max_debt, &local, &remote) {
            Ok(mutations) => apply(&mut mc, mutations),
            Err(error) => {
                assert_eq!(error, QueueOperationError::InsufficientTrust);
                refused += 1;
            }
        }
        assert!(within(&mc));
        id += 1;
        let inc = FriendTcOp::RequestSendFunds(request(id, vec![local], 8, 0));
        if process_operation(&mut mc, &inc, local_max_debt, remote_max_debt, &NO_FEE, &local).is_ok()
            && round % 2 == 0
        {
            let response = signed_response(&key(1), mc.pending_transactions.remote.last().unwrap());
            let op = FriendTcOp::ResponseSendFunds(response);
            send(&mut mc, &op, local_max_debt, &local, &remote);
        }
        assert!(within(&mc));
        assert_pending_consistent(&mc);
    }
    // the limits stopped some of the requests
    assert!(refused > 0);
    assert!(!mc.pending_transactions.local.is_empty());
}
