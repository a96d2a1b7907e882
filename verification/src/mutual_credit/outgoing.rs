//! Operations that the local side proposes to send.

use crate::crypto::{ed25519_verifies, verify_signature};
use crate::mutual_credit::{fits_limits, 
    find_request, has_request, lemma_apply_keeps_wf, lemma_request_index, lemma_row_within_total,
    McMutation, McMutationView, MutualCredit, MutualCreditView, request_index,
};
use crate::proto::{
    CancelSendFundsOp, copy_request, create_pending_transaction, FriendTcOp, FriendTcOpView,
    RequestSendFundsOp, ResponseSendFundsOp,
};
use crate::route::{is_valid_route_for, route_contains, valid_route_for};
use crate::signature_buff::{create_response_signature_buffer, response_signature_buffer};
use crate::types::{MAX_FUNDER_DEBT, PublicKey};
use vstd::prelude::*;

verus! {

/// Why an operation cannot be sent. None of these changes the mutual credit.
#[derive(Clone, Copy, Debug, PartialEq, Eq, Structural)]
pub enum QueueOperationError {
    /// A debt limit is above the largest that a channel can have.
    RemoteMaxDebtTooLarge,
    /// The route is empty, does not start with the friend, holds a node
    /// twice, or holds the local node.
    InvalidRoute,
    /// The request would take the mutual credit out of the debt limits.
    InsufficientTrust,
    /// The request came in over this channel and is still pending there.
    PendingTransactionAlreadyExists,
    /// A request with this id was already sent and is still pending.
    RequestAlreadyExists,
    /// No pending request of the remote side has this id.
    ResponseWithoutPending,
    /// The destination's signature over the response does not verify.
    InvalidInvoiceSignature,
}

/// Decides an operation that the local side proposes: the mutation that
/// sending it makes, or why it cannot be sent.
///
/// A request is refused when a debt limit is above the largest debt a
/// channel can have, when its route is not valid for the friend or passes
/// the local node, when its id is pending in either direction, or when
/// freezing its credits would take the mutual credit out of trust: the
/// balance with every pending debt on top above `remote_max_debt`, or the
/// balance taken the other way with every pending debt on top above
/// `local_max_debt`. A response is refused when the remote side has no
/// pending request under its id, or when the destination's signature does
/// not verify. A cancel is refused when the remote side has no pending
/// request under its id.
pub open spec fn outgoing_check(
    mc: MutualCreditView,
    op: FriendTcOpView,
    local_max_debt: u128,
    remote_max_debt: u128,
    local_public_key: PublicKey,
    remote_public_key: PublicKey,
) -> Result<McMutationView, QueueOperationError> {
    match op {
        FriendTcOpView::RequestSendFunds(request) => {
            if local_max_debt > MAX_FUNDER_DEBT || remote_max_debt > MAX_FUNDER_DEBT {
                Err(QueueOperationError::RemoteMaxDebtTooLarge)
            } else if !valid_route_for(request.route_remainder, remote_public_key)
                || request.route_remainder.contains(local_public_key) {
                Err(QueueOperationError::InvalidRoute)
            } else if has_request(mc.local, request.request_id) {
                Err(QueueOperationError::RequestAlreadyExists)
            } else if has_request(mc.remote, request.request_id) {
                Err(QueueOperationError::PendingTransactionAlreadyExists)
            } else if mc.balance.balance + mc.balance.local_pending_debt
                + mc.balance.remote_pending_debt + request.frozen() > remote_max_debt
                || -mc.balance.balance + mc.balance.local_pending_debt
                + mc.balance.remote_pending_debt + request.frozen() > local_max_debt {
                Err(QueueOperationError::InsufficientTrust)
            } else {
                Ok(McMutationView::InsertLocalPendingTransaction(request))
            }
        },
        FriendTcOpView::ResponseSendFunds(response) => {
            if !has_request(mc.remote, response.request_id) {
                Err(QueueOperationError::ResponseWithoutPending)
            } else {
                let row = mc.remote[request_index(mc.remote, response.request_id)];
                if !ed25519_verifies(
                    response_signature_buffer(mc.currency, response, row),
                    row.destination()@,
                    response.signature@,
                ) {
                    Err(QueueOperationError::InvalidInvoiceSignature)
                } else {
                    Ok(McMutationView::SettleRemotePendingTransaction(response.request_id))
                }
            }
        },
        FriendTcOpView::CancelSendFunds(cancel) => {
            if !has_request(mc.remote, cancel.request_id) {
                Err(QueueOperationError::ResponseWithoutPending)
            } else {
                Ok(McMutationView::CancelRemotePendingTransaction(cancel.request_id))
            }
        },
    }
}

/// An operation that can be sent makes a mutation that the mutual credit
/// admits.
pub proof fn lemma_outgoing_admitted(
    mc: MutualCreditView,
    op: FriendTcOpView,
    local_max_debt: u128,
    remote_max_debt: u128,
    local_public_key: PublicKey,
    remote_public_key: PublicKey,
)
    requires
        mc.wf(),
        outgoing_check(mc, op, local_max_debt, remote_max_debt, local_public_key, remote_public_key).is_ok(),
    ensures
        mc.admits(
            outgoing_check(mc, op, local_max_debt, remote_max_debt, local_public_key, remote_public_key).unwrap(),
        ),
        mc.apply(
            outgoing_check(mc, op, local_max_debt, remote_max_debt, local_public_key, remote_public_key).unwrap(),
        ).wf(),
{
    lemma_apply_keeps_wf(
        mc,
        outgoing_check(mc, op, local_max_debt, remote_max_debt, local_public_key, remote_public_key).unwrap(),
    );
}

/// An operation that can be sent keeps both sides within the debt that they
/// are trusted with: the local side within `local_max_debt`, against which
/// requests are checked, and the remote side within any bound that held
/// before.
pub proof fn lemma_outgoing_keeps_trust(
    mc: MutualCreditView,
    op: FriendTcOpView,
    local_max_debt: u128,
    remote_max_debt: u128,
    local_public_key: PublicKey,
    remote_public_key: PublicKey,
)
    requires
        mc.wf(),
        mc.within_trust(local_max_debt, remote_max_debt),
        outgoing_check(mc, op, local_max_debt, remote_max_debt, local_public_key, remote_public_key).is_ok(),
    ensures
        mc.apply(
            outgoing_check(mc, op, local_max_debt, remote_max_debt, local_public_key, remote_public_key).unwrap(),
        ).within_trust(local_max_debt, remote_max_debt),
{
    match op {
        FriendTcOpView::RequestSendFunds(request) => {},
        FriendTcOpView::ResponseSendFunds(response) => {
            let i = request_index(mc.remote, response.request_id);
            lemma_row_within_total(mc.remote, i);
        },
        FriendTcOpView::CancelSendFunds(cancel) => {
            let i = request_index(mc.remote, cancel.request_id);
            lemma_row_within_total(mc.remote, i);
        },
    }
}

/// Validates an operation that the local side proposes, and computes the
/// mutations that sending it makes. The mutual credit itself is not changed:
/// the caller applies the mutations when the operation goes out.
pub fn queue_operation(
    mc: &MutualCredit,
    friend_tc_op: &FriendTcOp,
    local_max_debt: u128,
    remote_max_debt: u128,
    local_public_key: &PublicKey,
    remote_public_key: &PublicKey,
) -> (r: Result<Vec<McMutation>, QueueOperationError>)
    requires
        mc@.wf(),
    ensures
        match outgoing_check(
            mc@,
            friend_tc_op@,
            local_max_debt,
            remote_max_debt,
            *local_public_key,
            *remote_public_key,
        ) {
            Ok(mutation) => {
                &&& r.is_ok()
                &&& r.unwrap()@.len() == 1
                &&& r.unwrap()@[0]@ == mutation
                &&& mc@.admits(mutation)
            },
            Err(e) => r == Err::<Vec<McMutation>, QueueOperationError>(e),
        },
{
    proof {
        if outgoing_check(
            mc@,
            friend_tc_op@,
            local_max_debt,
            remote_max_debt,
            *local_public_key,
            *remote_public_key,
        ).is_ok() {
            lemma_outgoing_admitted(
                mc@,
                friend_tc_op@,
                local_max_debt,
                remote_max_debt,
                *local_public_key,
                *remote_public_key,
            );
        }
    }
    let mutation = match friend_tc_op {
        FriendTcOp::RequestSendFunds(request) => queue_request_send_funds(
            mc,
            request,
            local_max_debt,
            remote_max_debt,
            local_public_key,
            remote_public_key,
        )?,
        FriendTcOp::ResponseSendFunds(response) => queue_response_send_funds(mc, response)?,
        FriendTcOp::CancelSendFunds(cancel) => queue_cancel_send_funds(mc, cancel)?,
    };
    let mut mutations: Vec<McMutation> = Vec::new();
    mutations.push(mutation);
    Ok(mutations)
}

fn queue_request_send_funds(
    mc: &MutualCredit,
    request: &RequestSendFundsOp,
    local_max_debt: u128,
    remote_max_debt: u128,
    local_public_key: &PublicKey,
    remote_public_key: &PublicKey,
) -> (r: Result<McMutation, QueueOperationError>)
    requires
        mc@.wf(),
    ensures
        match outgoing_check(
            mc@,
            FriendTcOpView::RequestSendFunds(request@),
            local_max_debt,
            remote_max_debt,
            *local_public_key,
            *remote_public_key,
        ) {
            Ok(mutation) => r.is_ok() && r.unwrap()@ == mutation,
            Err(e) => r == Err::<McMutation, QueueOperationError>(e),
        },
{
    if local_max_debt > MAX_FUNDER_DEBT || remote_max_debt > MAX_FUNDER_DEBT {
        return Err(QueueOperationError::RemoteMaxDebtTooLarge);
    }
    if !is_valid_route_for(&request.route_remainder, remote_public_key) || route_contains(
        &request.route_remainder,
        local_public_key,
    ) {
        return Err(QueueOperationError::InvalidRoute);
    }
    // Make sure that we don't have this request as a pending request already:
    if find_request(&mc.pending_transactions.local, &request.request_id).is_some() {
        return Err(QueueOperationError::RequestAlreadyExists);
    }
    if find_request(&mc.pending_transactions.remote, &request.request_id).is_some() {
        return Err(QueueOperationError::PendingTransactionAlreadyExists);
    }
    // Calculate the amount of credits to freeze:
    let own_freeze_credits = match request.dest_payment.checked_add(request.left_fees) {
        Some(credits) => credits,
        None => return Err(QueueOperationError::InsufficientTrust),
    };
    let new_local_pending_debt = match mc.balance.local_pending_debt.checked_add(
        own_freeze_credits,
    ) {
        Some(debt) => debt,
        None => return Err(QueueOperationError::InsufficientTrust),
    };
    // Both sides must stay within their limits however the pending requests
    // end:
    let total = match new_local_pending_debt.checked_add(mc.balance.remote_pending_debt) {
        Some(total) => total,
        None => return Err(QueueOperationError::InsufficientTrust),
    };
    if !fits_limits(mc.balance.balance, total, local_max_debt, remote_max_debt) {
        return Err(QueueOperationError::InsufficientTrust);
    }
    Ok(
        McMutation::InsertLocalPendingTransaction(
            create_pending_transaction(copy_request(request)),
        ),
    )
}

fn queue_response_send_funds(mc: &MutualCredit, response: &ResponseSendFundsOp) -> (r: Result<
    McMutation,
    QueueOperationError,
>)
    requires
        mc@.wf(),
    ensures
        forall|local_max_debt: u128,remote_max_debt: u128, local_public_key: PublicKey, remote_public_key: PublicKey|
            match #[trigger] outgoing_check(
                mc@,
                FriendTcOpView::ResponseSendFunds(*response),
                local_max_debt,
                remote_max_debt,
                local_public_key,
                remote_public_key,
            ) {
                Ok(mutation) => r.is_ok() && r.unwrap()@ == mutation,
                Err(e) => r == Err::<McMutation, QueueOperationError>(e),
            },
{
    // Make sure that id exists in the remote pending table, and access the
    // saved request details.
    let i = match find_request(&mc.pending_transactions.remote, &response.request_id) {
        Some(i) => i,
        None => return Err(QueueOperationError::ResponseWithoutPending),
    };
    proof {
        lemma_request_index(mc@.remote, i as int);
    }
    let row = &mc.pending_transactions.remote[i];
    assert(row@ == mc@.remote[i as int]);
    assert(row.route_remainder@.len() > 0);
    let dest_public_key = row.route_remainder[row.route_remainder.len() - 1];
    let buffer = create_response_signature_buffer(&mc.currency, response, row);
    if !verify_signature(buffer.as_slice(), &dest_public_key, &response.signature) {
        return Err(QueueOperationError::InvalidInvoiceSignature);
    }
    Ok(McMutation::SettleRemotePendingTransaction(response.request_id))
}

fn queue_cancel_send_funds(mc: &MutualCredit, cancel: &CancelSendFundsOp) -> (r: Result<
    McMutation,
    QueueOperationError,
>)
    requires
        mc@.wf(),
    ensures
        forall|local_max_debt: u128,remote_max_debt: u128, local_public_key: PublicKey, remote_public_key: PublicKey|
            match #[trigger] outgoing_check(
                mc@,
                FriendTcOpView::CancelSendFunds(*cancel),
                local_max_debt,
                remote_max_debt,
                local_public_key,
                remote_public_key,
            ) {
                Ok(mutation) => r.is_ok() && r.unwrap()@ == mutation,
                Err(e) => r == Err::<McMutation, QueueOperationError>(e),
            },
{
    if find_request(&mc.pending_transactions.remote, &cancel.request_id).is_none() {
        return Err(QueueOperationError::ResponseWithoutPending);
    }
    Ok(McMutation::CancelRemotePendingTransaction(cancel.request_id))
}

} // verus!
