//! Operations that the remote side applied, as they arrive in a move token.

use crate::crypto::{ed25519_verifies, verify_signature};
use crate::mutual_credit::{fits_limits, 
    find_request, has_request, lemma_apply_keeps_wf, lemma_request_index, McMutation,
    McMutationView, MutualCredit, MutualCreditView, request_index,
};
use crate::proto::{
    CancelSendFundsOp, copy_pending_transaction, copy_request, create_pending_transaction,
    FriendTcOp, FriendTcOpView, PendingTransaction, RequestSendFundsOp, ResponseSendFundsOp,
    TransactionView,
};
use crate::route::{is_valid_route_for, valid_route_for};
use crate::signature_buff::{create_response_signature_buffer, response_signature_buffer};
use crate::types::{PublicKey, Rate};
use vstd::prelude::*;

verus! {

/// Why an incoming operation is refused. Any of these makes the channel
/// inconsistent.
#[derive(Clone, Copy, Debug, PartialEq, Eq, Structural)]
pub enum ProcessOperationError {
    /// The route is empty, does not start with the local node, or holds a
    /// node twice.
    InvalidRoute,
    /// The remote side already has a pending request with this id.
    RequestAlreadyExists,
    /// The credits to freeze, or the balance that the request could lead to,
    /// do not fit the integers that hold them.
    CreditsCalcOverflow,
    /// The request would take the mutual credit out of the debt limits.
    InsufficientTrust,
    /// No pending request of the local side has this id.
    RequestDoesNotExist,
    /// The destination's signature over the response does not verify.
    InvalidResponseSignature,
}

/// A response, with the request that it answers.
#[derive(Clone, Debug, PartialEq, Eq)]
pub struct IncomingResponseSendFundsOp {
    pub pending_transaction: PendingTransaction,
    pub incoming_response: ResponseSendFundsOp,
}

/// A cancel, with the request that it answers.
#[derive(Clone, Debug, PartialEq, Eq)]
pub struct IncomingCancelSendFundsOp {
    pub pending_transaction: PendingTransaction,
    pub incoming_cancel: CancelSendFundsOp,
}

/// What an accepted operation asks of the node.
#[derive(Clone, Debug, PartialEq, Eq)]
pub enum IncomingMessage {
    /// A request to deliver or to hand on. The fees left are what remains
    /// after the local node took its own.
    Request(RequestSendFundsOp),
    /// A request whose fees do not cover the local node's. It is pending, and
    /// must be cancelled.
    RequestCancel(RequestSendFundsOp),
    Response(IncomingResponseSendFundsOp),
    Cancel(IncomingCancelSendFundsOp),
}

/// What an incoming message says.
pub enum IncomingMessageView {
    Request(TransactionView),
    RequestCancel(TransactionView),
    Response(TransactionView, ResponseSendFundsOp),
    Cancel(TransactionView, CancelSendFundsOp),
}

impl View for IncomingMessage {
    type V = IncomingMessageView;

    open spec fn view(&self) -> IncomingMessageView {
        match *self {
            IncomingMessage::Request(request) => IncomingMessageView::Request(request@),
            IncomingMessage::RequestCancel(request) => IncomingMessageView::RequestCancel(request@),
            IncomingMessage::Response(response) => IncomingMessageView::Response(
                response.pending_transaction@,
                response.incoming_response,
            ),
            IncomingMessage::Cancel(cancel) => IncomingMessageView::Cancel(
                cancel.pending_transaction@,
                cancel.incoming_cancel,
            ),
        }
    }
}

/// An accepted operation: what it asks of the node, and what it did to the
/// mutual credit.
#[derive(Clone, Debug, PartialEq, Eq)]
pub struct ProcessOperationOutput {
    pub incoming_message: IncomingMessage,
    pub mc_mutation: McMutation,
}

/// Where a list of operations failed, and why.
#[derive(Clone, Copy, Debug, PartialEq, Eq, Structural)]
pub struct ProcessTransListError {
    pub index: usize,
    pub process_trans_error: ProcessOperationError,
}

/// Decides an incoming operation: the mutation that it makes, or why it is
/// refused.
///
/// A request is refused when its route is not valid for the local node, when
/// its id is already pending, when the credits do not fit, or when it would
/// take the mutual credit out of trust: the balance with every pending debt
/// on top above `remote_max_debt`, or the balance taken the other way with
/// every pending debt on top above `local_max_debt`. A response is refused
/// when no request of the local side is pending under its id, or when the
/// destination's signature over the response buffer does not verify. A cancel
/// is refused when no request of the local side is pending under its id.
pub open spec fn incoming_check(
    mc: MutualCreditView,
    op: FriendTcOpView,
    local_max_debt: u128,
    remote_max_debt: u128,
    local_public_key: PublicKey,
) -> Result<McMutationView, ProcessOperationError> {
    match op {
        FriendTcOpView::RequestSendFunds(request) => {
            if !valid_route_for(request.route_remainder, local_public_key) {
                Err(ProcessOperationError::InvalidRoute)
            } else if has_request(mc.remote, request.request_id) {
                Err(ProcessOperationError::RequestAlreadyExists)
            } else if mc.balance.remote_pending_debt + request.frozen() > u128::MAX
                || mc.balance.balance + mc.balance.remote_pending_debt + request.frozen()
                > i128::MAX {
                Err(ProcessOperationError::CreditsCalcOverflow)
            } else if mc.balance.balance + mc.balance.local_pending_debt
                + mc.balance.remote_pending_debt + request.frozen() > remote_max_debt
                || -mc.balance.balance + mc.balance.local_pending_debt
                + mc.balance.remote_pending_debt + request.frozen() > local_max_debt {
                Err(ProcessOperationError::InsufficientTrust)
            } else {
                Ok(McMutationView::InsertRemotePendingTransaction(request))
            }
        },
        FriendTcOpView::ResponseSendFunds(response) => {
            if !has_request(mc.local, response.request_id) {
                Err(ProcessOperationError::RequestDoesNotExist)
            } else {
                let row = mc.local[request_index(mc.local, response.request_id)];
                if !ed25519_verifies(
                    response_signature_buffer(mc.currency, response, row),
                    row.destination()@,
                    response.signature@,
                ) {
                    Err(ProcessOperationError::InvalidResponseSignature)
                } else {
                    Ok(McMutationView::SettleLocalPendingTransaction(response.request_id))
                }
            }
        },
        FriendTcOpView::CancelSendFunds(cancel) => {
            if !has_request(mc.local, cancel.request_id) {
                Err(ProcessOperationError::RequestDoesNotExist)
            } else {
                Ok(McMutationView::CancelLocalPendingTransaction(cancel.request_id))
            }
        },
    }
}

/// What an accepted operation asks of the node.
///
/// A request for the local node itself is handed up as it came. A request to
/// hand on is charged `rate.fee(dest_payment)`: it is handed up with the fees
/// that remain, or marked for cancelling when its fees do not cover the
/// charge. A response or a cancel is handed up with the request it answers.
pub open spec fn incoming_message(
    mc: MutualCreditView,
    op: FriendTcOpView,
    rate: Rate,
) -> IncomingMessageView {
    match op {
        FriendTcOpView::RequestSendFunds(request) => {
            if request.route_remainder.len() == 1 {
                IncomingMessageView::Request(request)
            } else if rate.fee(request.dest_payment) > request.left_fees {
                IncomingMessageView::RequestCancel(request)
            } else {
                IncomingMessageView::Request(
                    request.with_left_fees(
                        (request.left_fees - rate.fee(request.dest_payment)) as u128,
                    ),
                )
            }
        },
        FriendTcOpView::ResponseSendFunds(response) => IncomingMessageView::Response(
            mc.local[request_index(mc.local, response.request_id)],
            response,
        ),
        FriendTcOpView::CancelSendFunds(cancel) => IncomingMessageView::Cancel(
            mc.local[request_index(mc.local, cancel.request_id)],
            cancel,
        ),
    }
}

/// An accepted operation makes a mutation that the mutual credit admits.
pub proof fn lemma_incoming_admitted(
    mc: MutualCreditView,
    op: FriendTcOpView,
    local_max_debt: u128,
    remote_max_debt: u128,
    local_public_key: PublicKey,
)
    requires
        mc.wf(),
        incoming_check(mc, op, local_max_debt, remote_max_debt, local_public_key).is_ok(),
    ensures
        mc.admits(incoming_check(mc, op, local_max_debt, remote_max_debt, local_public_key).unwrap()),
        mc.apply(incoming_check(mc, op, local_max_debt, remote_max_debt, local_public_key).unwrap()).wf(),
{
    lemma_apply_keeps_wf(mc, incoming_check(mc, op, local_max_debt, remote_max_debt, local_public_key).unwrap());
}

/// An accepted incoming operation keeps both sides within the debt that they
/// are trusted with: the remote side within `remote_max_debt`, against which
/// requests are checked, and the local side within any bound that held
/// before.
pub proof fn lemma_incoming_keeps_trust(
    mc: MutualCreditView,
    op: FriendTcOpView,
    local_max_debt: u128,
    remote_max_debt: u128,
    local_public_key: PublicKey,
)
    requires
        mc.wf(),
        mc.within_trust(local_max_debt, remote_max_debt),
        incoming_check(mc, op, local_max_debt, remote_max_debt, local_public_key).is_ok(),
    ensures
        mc.apply(incoming_check(mc, op, local_max_debt, remote_max_debt, local_public_key).unwrap()).within_trust(
            local_max_debt,
            remote_max_debt,
        ),
{
    match op {
        FriendTcOpView::RequestSendFunds(request) => {},
        FriendTcOpView::ResponseSendFunds(response) => {
            let i = request_index(mc.local, response.request_id);
            crate::mutual_credit::lemma_row_within_total(mc.local, i);
        },
        FriendTcOpView::CancelSendFunds(cancel) => {
            let i = request_index(mc.local, cancel.request_id);
            crate::mutual_credit::lemma_row_within_total(mc.local, i);
        },
    }
}

/// A response is accepted only for a request that is pending, and takes out
/// the one row of that request: afterwards no row has its id, and every other
/// request is pending exactly if it was.
pub proof fn lemma_response_pairs_with_request(
    mc: MutualCreditView,
    response: ResponseSendFundsOp,
    local_max_debt: u128,
    remote_max_debt: u128,
    local_public_key: PublicKey,
)
    requires
        mc.wf(),
        incoming_check(
            mc,
            FriendTcOpView::ResponseSendFunds(response),
            local_max_debt,
            remote_max_debt,
            local_public_key,
        ).is_ok(),
    ensures
        has_request(mc.local, response.request_id),
        ({
            let after = mc.apply(
                incoming_check(
                    mc,
                    FriendTcOpView::ResponseSendFunds(response),
                    local_max_debt,
                    remote_max_debt,
                    local_public_key,
                ).unwrap(),
            );
            &&& after.local.len() + 1 == mc.local.len()
            &&& after.remote == mc.remote
            &&& !has_request(after.local, response.request_id)
            &&& forall|other: crate::types::Uid|
                other != response.request_id ==> has_request(after.local, other) == has_request(
                    mc.local,
                    other,
                )
        }),
{
    crate::mutual_credit::lemma_answer_removes_one_row(
        mc,
        McMutationView::SettleLocalPendingTransaction(response.request_id),
    );
}

/// Applies one operation that the remote side sent.
///
/// On success the mutual credit has changed by the mutation that is
/// returned, and the message says what the node must do next. On failure the
/// mutual credit is unchanged.
pub fn process_operation(
    mc: &mut MutualCredit,
    friend_tc_op: &FriendTcOp,
    local_max_debt: u128,
    remote_max_debt: u128,
    rate: &Rate,
    local_public_key: &PublicKey,
) -> (r: Result<ProcessOperationOutput, ProcessOperationError>)
    requires
        old(mc)@.wf(),
    ensures
        final(mc)@.wf(),
        match incoming_check(old(mc)@, friend_tc_op@, local_max_debt, remote_max_debt, *local_public_key) {
            Ok(mutation) => {
                &&& r.is_ok()
                &&& r.unwrap().mc_mutation@ == mutation
                &&& r.unwrap().incoming_message@ == incoming_message(
                    old(mc)@,
                    friend_tc_op@,
                    *rate,
                )
                &&& final(mc)@ == old(mc)@.apply(mutation)
            },
            Err(e) => r == Err::<ProcessOperationOutput, ProcessOperationError>(e) && final(mc)@
                == old(mc)@,
        },
{
    match friend_tc_op {
        FriendTcOp::RequestSendFunds(request) => process_request_send_funds(
            mc,
            request,
            local_max_debt,
            remote_max_debt,
            rate,
            local_public_key,
        ),
        FriendTcOp::ResponseSendFunds(response) => process_response_send_funds(mc, response),
        FriendTcOp::CancelSendFunds(cancel) => process_cancel_send_funds(mc, cancel),
    }
}

fn process_request_send_funds(
    mc: &mut MutualCredit,
    request: &RequestSendFundsOp,
    local_max_debt: u128,
    remote_max_debt: u128,
    rate: &Rate,
    local_public_key: &PublicKey,
) -> (r: Result<ProcessOperationOutput, ProcessOperationError>)
    requires
        old(mc)@.wf(),
    ensures
        final(mc)@.wf(),
        match incoming_check(
            old(mc)@,
            FriendTcOpView::RequestSendFunds(request@),
            local_max_debt,
            remote_max_debt,
            *local_public_key,
        ) {
            Ok(mutation) => {
                &&& r.is_ok()
                &&& r.unwrap().mc_mutation@ == mutation
                &&& r.unwrap().incoming_message@ == incoming_message(
                    old(mc)@,
                    FriendTcOpView::RequestSendFunds(request@),
                    *rate,
                )
                &&& final(mc)@ == old(mc)@.apply(mutation)
            },
            Err(e) => r == Err::<ProcessOperationOutput, ProcessOperationError>(e) && final(mc)@
                == old(mc)@,
        },
{
    if !is_valid_route_for(&request.route_remainder, local_public_key) {
        return Err(ProcessOperationError::InvalidRoute);
    }
    // Make sure that we don't have this request as a pending request already:
    if find_request(&mc.pending_transactions.remote, &request.request_id).is_some() {
        return Err(ProcessOperationError::RequestAlreadyExists);
    }
    // Calculate the amount of credits to freeze:
    let own_freeze_credits = match request.dest_payment.checked_add(request.left_fees) {
        Some(credits) => credits,
        None => return Err(ProcessOperationError::CreditsCalcOverflow),
    };
    let new_remote_pending_debt = match mc.balance.remote_pending_debt.checked_add(
        own_freeze_credits,
    ) {
        Some(debt) => debt,
        None => return Err(ProcessOperationError::CreditsCalcOverflow),
    };
    // Where the balance would stand if every pending request of the remote
    // side were fulfilled:
    let exposure = match mc.balance.balance.checked_add_unsigned(new_remote_pending_debt) {
        Some(exposure) => exposure,
        None => return Err(ProcessOperationError::CreditsCalcOverflow),
    };
    // Both sides must stay within their limits however the pending requests
    // end:
    let total = mc.balance.local_pending_debt + new_remote_pending_debt;
    if !fits_limits(mc.balance.balance, total, local_max_debt, remote_max_debt) {
        return Err(ProcessOperationError::InsufficientTrust);
    }
    let incoming_message = if request.route_remainder.len() == 1 {
        IncomingMessage::Request(copy_request(request))
    } else {
        match rate.calc_fee(request.dest_payment) {
            Some(fee) if fee <= request.left_fees => {
                let mut forward = copy_request(request);
                forward.left_fees = request.left_fees - fee;
                IncomingMessage::Request(forward)
            },
            _ => IncomingMessage::RequestCancel(copy_request(request)),
        }
    };
    let row = create_pending_transaction(copy_request(request));
    let mc_mutation = McMutation::InsertRemotePendingTransaction(copy_pending_transaction(&row));
    mc.mutate(McMutation::InsertRemotePendingTransaction(row));
    Ok(ProcessOperationOutput { incoming_message, mc_mutation })
}

fn process_response_send_funds(mc: &mut MutualCredit, response: &ResponseSendFundsOp) -> (r: Result<
    ProcessOperationOutput,
    ProcessOperationError,
>)
    requires
        old(mc)@.wf(),
    ensures
        final(mc)@.wf(),
        forall|local_max_debt: u128,remote_max_debt: u128, local_public_key: PublicKey|
            match #[trigger] incoming_check(
                old(mc)@,
                FriendTcOpView::ResponseSendFunds(*response),
                local_max_debt,
                remote_max_debt,
                local_public_key,
            ) {
                Ok(mutation) => {
                    &&& r.is_ok()
                    &&& r.unwrap().mc_mutation@ == mutation
                    &&& forall|rate: Rate|
                        r.unwrap().incoming_message@ == #[trigger] incoming_message(
                            old(mc)@,
                            FriendTcOpView::ResponseSendFunds(*response),
                            rate,
                        )
                    &&& final(mc)@ == old(mc)@.apply(mutation)
                },
                Err(e) => {
                    &&& r == Err::<ProcessOperationOutput, ProcessOperationError>(e)
                    &&& final(mc)@ == old(mc)@
                },
            },
{
    // Make sure that id exists in the local pending table, and access the
    // saved request details.
    let i = match find_request(&mc.pending_transactions.local, &response.request_id) {
        Some(i) => i,
        None => return Err(ProcessOperationError::RequestDoesNotExist),
    };
    proof {
        lemma_request_index(mc@.local, i as int);
    }
    let row = &mc.pending_transactions.local[i];
    assert(row@ == mc@.local[i as int]);
    assert(row.route_remainder@.len() > 0);
    let dest_public_key = row.route_remainder[row.route_remainder.len() - 1];
    let buffer = create_response_signature_buffer(&mc.currency, response, row);
    // Verify response funds signature:
    if !verify_signature(buffer.as_slice(), &dest_public_key, &response.signature) {
        return Err(ProcessOperationError::InvalidResponseSignature);
    }
    let removed = mc.mutate(McMutation::SettleLocalPendingTransaction(response.request_id));
    Ok(
        ProcessOperationOutput {
            incoming_message: IncomingMessage::Response(
                IncomingResponseSendFundsOp {
                    pending_transaction: removed.unwrap(),
                    incoming_response: *response,
                },
            ),
            mc_mutation: McMutation::SettleLocalPendingTransaction(response.request_id),
        },
    )
}

fn process_cancel_send_funds(mc: &mut MutualCredit, cancel: &CancelSendFundsOp) -> (r: Result<
    ProcessOperationOutput,
    ProcessOperationError,
>)
    requires
        old(mc)@.wf(),
    ensures
        final(mc)@.wf(),
        forall|local_max_debt: u128,remote_max_debt: u128, local_public_key: PublicKey|
            match #[trigger] incoming_check(
                old(mc)@,
                FriendTcOpView::CancelSendFunds(*cancel),
                local_max_debt,
                remote_max_debt,
                local_public_key,
            ) {
                Ok(mutation) => {
                    &&& r.is_ok()
                    &&& r.unwrap().mc_mutation@ == mutation
                    &&& forall|rate: Rate|
                        r.unwrap().incoming_message@ == #[trigger] incoming_message(
                            old(mc)@,
                            FriendTcOpView::CancelSendFunds(*cancel),
                            rate,
                        )
                    &&& final(mc)@ == old(mc)@.apply(mutation)
                },
                Err(e) => {
                    &&& r == Err::<ProcessOperationOutput, ProcessOperationError>(e)
                    &&& final(mc)@ == old(mc)@
                },
            },
{
    // Make sure that id exists in the local pending table:
    if find_request(&mc.pending_transactions.local, &cancel.request_id).is_none() {
        return Err(ProcessOperationError::RequestDoesNotExist);
    }
    let removed = mc.mutate(McMutation::CancelLocalPendingTransaction(cancel.request_id));
    Ok(
        ProcessOperationOutput {
            incoming_message: IncomingMessage::Cancel(
                IncomingCancelSendFundsOp {
                    pending_transaction: removed.unwrap(),
                    incoming_cancel: *cancel,
                },
            ),
            mc_mutation: McMutation::CancelLocalPendingTransaction(cancel.request_id),
        },
    )
}

/// What a list of operations says, one by one.
pub open spec fn ops_view(ops: Seq<FriendTcOp>) -> Seq<FriendTcOpView> {
    ops.map_values(|op: FriendTcOp| op@)
}

/// What a list of outputs asks of the node, one by one.
pub open spec fn messages_view(outputs: Seq<ProcessOperationOutput>) -> Seq<IncomingMessageView> {
    outputs.map_values(|output: ProcessOperationOutput| output.incoming_message@)
}

/// What a list of outputs did to the mutual credit, one by one.
pub open spec fn mutations_view(outputs: Seq<ProcessOperationOutput>) -> Seq<McMutationView> {
    outputs.map_values(|output: ProcessOperationOutput| output.mc_mutation@)
}

/// Where a list of accepted operations leads.
pub struct IncomingRun {
    /// The mutual credit after the last operation.
    pub mc: MutualCreditView,
    /// What each operation asks of the node.
    pub messages: Seq<IncomingMessageView>,
    /// What each operation did to the mutual credit.
    pub mutations: Seq<McMutationView>,
}

/// Applies a list of operations in order, each to the mutual credit that the
/// one before it left. Stops at the first that is refused, and says which
/// and why.
pub open spec fn incoming_run(
    mc: MutualCreditView,
    ops: Seq<FriendTcOpView>,
    local_max_debt: u128,
    remote_max_debt: u128,
    rate: Rate,
    local_public_key: PublicKey,
) -> Result<IncomingRun, ProcessTransListError>
    decreases ops.len(),
{
    if ops.len() == 0 {
        Ok(IncomingRun { mc, messages: Seq::empty(), mutations: Seq::empty() })
    } else {
        match incoming_run(mc, ops.drop_last(), local_max_debt, remote_max_debt, rate, local_public_key) {
            Err(e) => Err(e),
            Ok(run) => match incoming_check(run.mc, ops.last(), local_max_debt, remote_max_debt, local_public_key) {
                Err(e) => Err(
                    ProcessTransListError {
                        index: (ops.len() - 1) as usize,
                        process_trans_error: e,
                    },
                ),
                Ok(mutation) => Ok(
                    IncomingRun {
                        mc: run.mc.apply(mutation),
                        messages: run.messages.push(incoming_message(run.mc, ops.last(), rate)),
                        mutations: run.mutations.push(mutation),
                    },
                ),
            },
        }
    }
}

/// A list of operations that is accepted leaves the mutual credit well
/// formed and within the trust that held before, and the mutual credit it
/// leaves is the one that replaying its mutations gives.
pub proof fn lemma_incoming_run(
    mc: MutualCreditView,
    ops: Seq<FriendTcOpView>,
    local_max_debt: u128,
    remote_max_debt: u128,
    rate: Rate,
    local_public_key: PublicKey,
)
    requires
        mc.wf(),
        incoming_run(mc, ops, local_max_debt, remote_max_debt, rate, local_public_key).is_ok(),
    ensures
        ({
            let run = incoming_run(mc, ops, local_max_debt, remote_max_debt, rate, local_public_key).unwrap();
            &&& run.mc.wf()
            &&& run.messages.len() == ops.len()
            &&& run.mutations.len() == ops.len()
            &&& mc.admits_all(run.mutations)
            &&& run.mc == mc.replay(run.mutations)
            &&& mc.within_trust(local_max_debt, remote_max_debt) ==> run.mc.within_trust(
                local_max_debt,
                remote_max_debt,
            )
        }),
    decreases ops.len(),
{
    if ops.len() > 0 {
        lemma_incoming_run(
            mc,
            ops.drop_last(),
            local_max_debt,
            remote_max_debt,
            rate,
            local_public_key,
        );
        let before = incoming_run(
            mc,
            ops.drop_last(),
            local_max_debt,
            remote_max_debt,
            rate,
            local_public_key,
        ).unwrap();
        let run = incoming_run(mc, ops, local_max_debt, remote_max_debt, rate, local_public_key).unwrap();
        lemma_incoming_admitted(before.mc, ops.last(), local_max_debt, remote_max_debt, local_public_key);
        if mc.within_trust(local_max_debt, remote_max_debt) {
            lemma_incoming_keeps_trust(
                before.mc,
                ops.last(),
                local_max_debt,
                remote_max_debt,
                local_public_key,
            );
        }
        assert(run.mutations.drop_last() =~= before.mutations);
    }
}

/// Operations do not change the currency of their mutual credit.
pub proof fn lemma_run_keeps_currency(
    mc: MutualCreditView,
    ops: Seq<FriendTcOpView>,
    local_max_debt: u128,
    remote_max_debt: u128,
    rate: Rate,
    local_public_key: PublicKey,
)
    requires
        incoming_run(mc, ops, local_max_debt, remote_max_debt, rate, local_public_key).is_ok(),
    ensures
        incoming_run(mc, ops, local_max_debt, remote_max_debt, rate, local_public_key).unwrap().mc.currency
            == mc.currency,
    decreases ops.len(),
{
    if ops.len() > 0 {
        lemma_run_keeps_currency(mc, ops.drop_last(), local_max_debt, remote_max_debt, rate, local_public_key);
    }
}

/// Applies the operations of one currency of a move token, in order.
///
/// On success the mutual credit is where the whole list leads, and the
/// outputs say, operation by operation, what to do next and what changed. On
/// failure the error names the first operation that is refused, and the
/// mutual credit is where the operations before that one lead.
pub fn process_operations_list(
    mc: &mut MutualCredit,
    operations: &Vec<FriendTcOp>,
    local_max_debt: u128,
    remote_max_debt: u128,
    rate: &Rate,
    local_public_key: &PublicKey,
) -> (r: Result<Vec<ProcessOperationOutput>, ProcessTransListError>)
    requires
        old(mc)@.wf(),
    ensures
        final(mc)@.wf(),
        match incoming_run(
            old(mc)@,
            ops_view(operations@),
            local_max_debt,
            remote_max_debt,
            *rate,
            *local_public_key,
        ) {
            Ok(run) => {
                &&& r.is_ok()
                &&& final(mc)@ == run.mc
                &&& messages_view(r.unwrap()@) == run.messages
                &&& mutations_view(r.unwrap()@) == run.mutations
            },
            Err(e) => {
                &&& r == Err::<Vec<ProcessOperationOutput>, ProcessTransListError>(e)
                &&& e.index < operations@.len()
                &&& incoming_run(
                    old(mc)@,
                    ops_view(operations@).take(e.index as int),
                    local_max_debt,
                    remote_max_debt,
                    *rate,
                    *local_public_key,
                ).is_ok()
                &&& final(mc)@ == incoming_run(
                    old(mc)@,
                    ops_view(operations@).take(e.index as int),
                    local_max_debt,
                    remote_max_debt,
                    *rate,
                    *local_public_key,
                ).unwrap().mc
            },
        },
{
    let mut outputs: Vec<ProcessOperationOutput> = Vec::new();
    let ghost ops = ops_view(operations@);
    let mut i: usize = 0;
    while i < operations.len()
        invariant
            0 <= i <= operations.len(),
            ops == ops_view(operations@),
            mc@.wf(),
            incoming_run(
                old(mc)@,
                ops.take(i as int),
                local_max_debt,
                remote_max_debt,
                *rate,
                *local_public_key,
            ).is_ok(),
            ({
                let run = incoming_run(
                    old(mc)@,
                    ops.take(i as int),
                    local_max_debt,
                    remote_max_debt,
                    *rate,
                    *local_public_key,
                ).unwrap();
                &&& mc@ == run.mc
                &&& messages_view(outputs@) == run.messages
                &&& mutations_view(outputs@) == run.mutations
            }),
        decreases operations.len() - i,
    {
        proof {
            assert(ops.take(i + 1).drop_last() =~= ops.take(i as int));
            assert(ops.take(i + 1).last() == operations@[i as int]@);
        }
        match process_operation(mc, &operations[i], local_max_debt, remote_max_debt, rate, local_public_key) {
            Ok(output) => {
                let ghost before = outputs@;
                outputs.push(output);
                proof {
                    assert(messages_view(outputs@) =~= messages_view(before).push(
                        output.incoming_message@,
                    ));
                    assert(mutations_view(outputs@) =~= mutations_view(before).push(
                        output.mc_mutation@,
                    ));
                }
            },
            Err(e) => {
                proof {
                    lemma_run_failure_stays(
                        old(mc)@,
                        ops,
                        i + 1,
                        local_max_debt,
                        remote_max_debt,
                        *rate,
                        *local_public_key,
                    );
                }
                return Err(ProcessTransListError { index: i, process_trans_error: e });
            },
        }
        i += 1;
    }
    proof {
        assert(ops.take(i as int) =~= ops);
    }
    Ok(outputs)
}

/// Once a prefix of a list is refused, the whole list is refused at the same
/// operation.
proof fn lemma_run_failure_stays(
    mc: MutualCreditView,
    ops: Seq<FriendTcOpView>,
    n: int,
    local_max_debt: u128,
    remote_max_debt: u128,
    rate: Rate,
    local_public_key: PublicKey,
)
    requires
        0 <= n <= ops.len(),
        incoming_run(mc, ops.take(n), local_max_debt, remote_max_debt, rate, local_public_key).is_err(),
    ensures
        incoming_run(mc, ops, local_max_debt, remote_max_debt, rate, local_public_key) == incoming_run(
            mc,
            ops.take(n),
            local_max_debt,
            remote_max_debt,
            rate,
            local_public_key,
        ),
    decreases ops.len() - n,
{
    if n < ops.len() {
        assert(ops.take(n + 1).drop_last() =~= ops.take(n));
        lemma_run_failure_stays(mc, ops, n + 1, local_max_debt, remote_max_debt, rate, local_public_key);
    } else {
        assert(ops.take(n) =~= ops);
    }
}

} // verus!
