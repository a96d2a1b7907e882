//! What two friends say to each other over a token channel.

use crate::types::{
    Currency, HashedLock, HashResult, HmacResult, PlainLock, PublicKey, RandValue, Signature, U256,
    Uid,
};
use vstd::prelude::*;

verus! {

/// The balance of one currency with one friend, seen from the local side.
#[derive(Clone, Copy, Debug, PartialEq, Eq, Structural)]
pub struct McBalance {
    /// Credits that the local side is ahead by; negative when it owes.
    pub balance: i128,
    /// Credits frozen by requests that the local side sent.
    pub local_pending_debt: u128,
    /// Credits frozen by requests that the remote side sent.
    pub remote_pending_debt: u128,
    /// Fees received over this channel, as the terms say that the channel
    /// started from. No operation adds to it.
    pub in_fees: U256,
    /// Fees that the local node kept so far of payments that it handed on
    /// over this channel. Each side counts its own; the other side does not
    /// see it.
    pub out_fees: U256,
}

/// Asks the next node on a route to move credits toward the destination.
#[derive(Clone, Debug, PartialEq, Eq)]
pub struct RequestSendFundsOp {
    pub request_id: Uid,
    pub src_hashed_lock: HashedLock,
    /// The nodes still ahead: the receiver of this request first, the
    /// destination last.
    pub route_remainder: Vec<PublicKey>,
    pub dest_payment: u128,
    pub total_dest_payment: u128,
    pub invoice_hash: HashResult,
    pub hmac: HmacResult,
    /// Fees that the nodes still ahead may take.
    pub left_fees: u128,
}

/// Reports that the destination accepted a request.
#[derive(Clone, Copy, Debug, PartialEq, Eq)]
pub struct ResponseSendFundsOp {
    pub request_id: Uid,
    pub src_plain_lock: PlainLock,
    pub serial_num: u128,
    /// The destination's signature over the response buffer.
    pub signature: Signature,
}

/// Reports that a request will not be fulfilled.
#[derive(Clone, Copy, Debug, PartialEq, Eq)]
pub struct CancelSendFundsOp {
    pub request_id: Uid,
    /// The node that gave the request up.
    pub reporting_public_key: PublicKey,
}

/// One operation on one currency of a channel.
#[derive(Clone, Debug, PartialEq, Eq)]
pub enum FriendTcOp {
    RequestSendFunds(RequestSendFundsOp),
    ResponseSendFunds(ResponseSendFundsOp),
    CancelSendFunds(CancelSendFundsOp),
}

/// A request in flight: sent or received, and not yet answered.
#[derive(Clone, Debug, PartialEq, Eq)]
pub struct PendingTransaction {
    pub request_id: Uid,
    pub route_remainder: Vec<PublicKey>,
    pub dest_payment: u128,
    pub total_dest_payment: u128,
    pub invoice_hash: HashResult,
    pub hmac: HmacResult,
    pub src_hashed_lock: HashedLock,
    pub left_fees: u128,
}

/// What a request, or the pending row that it leaves behind, says.
pub struct TransactionView {
    pub request_id: Uid,
    pub src_hashed_lock: HashedLock,
    pub route_remainder: Seq<PublicKey>,
    pub dest_payment: u128,
    pub total_dest_payment: u128,
    pub invoice_hash: HashResult,
    pub hmac: HmacResult,
    pub left_fees: u128,
}

impl TransactionView {
    /// The credits that the request keeps frozen while it is pending.
    pub open spec fn frozen(self) -> nat {
        (self.dest_payment + self.left_fees) as nat
    }

    /// The node that must sign the response: the last of the route.
    pub open spec fn destination(self) -> PublicKey
        recommends
            self.route_remainder.len() > 0,
    {
        self.route_remainder.last()
    }

    /// The same request with other fees left.
    pub open spec fn with_left_fees(self, left_fees: u128) -> TransactionView {
        TransactionView { left_fees, ..self }
    }

    /// The same request with another route.
    pub open spec fn with_route(self, route_remainder: Seq<PublicKey>) -> TransactionView {
        TransactionView { route_remainder, ..self }
    }
}

impl View for RequestSendFundsOp {
    type V = TransactionView;

    open spec fn view(&self) -> TransactionView {
        TransactionView {
            request_id: self.request_id,
            src_hashed_lock: self.src_hashed_lock,
            route_remainder: self.route_remainder@,
            dest_payment: self.dest_payment,
            total_dest_payment: self.total_dest_payment,
            invoice_hash: self.invoice_hash,
            hmac: self.hmac,
            left_fees: self.left_fees,
        }
    }
}

impl View for PendingTransaction {
    type V = TransactionView;

    open spec fn view(&self) -> TransactionView {
        TransactionView {
            request_id: self.request_id,
            src_hashed_lock: self.src_hashed_lock,
            route_remainder: self.route_remainder@,
            dest_payment: self.dest_payment,
            total_dest_payment: self.total_dest_payment,
            invoice_hash: self.invoice_hash,
            hmac: self.hmac,
            left_fees: self.left_fees,
        }
    }
}

/// What an operation says.
pub enum FriendTcOpView {
    RequestSendFunds(TransactionView),
    ResponseSendFunds(ResponseSendFundsOp),
    CancelSendFunds(CancelSendFundsOp),
}

impl View for FriendTcOp {
    type V = FriendTcOpView;

    open spec fn view(&self) -> FriendTcOpView {
        match *self {
            FriendTcOp::RequestSendFunds(request) => FriendTcOpView::RequestSendFunds(request@),
            FriendTcOp::ResponseSendFunds(response) => FriendTcOpView::ResponseSendFunds(response),
            FriendTcOp::CancelSendFunds(cancel) => FriendTcOpView::CancelSendFunds(cancel),
        }
    }
}

/// What a table of pending rows says, row by row.
pub open spec fn rows_view(rows: Seq<PendingTransaction>) -> Seq<TransactionView> {
    rows.map_values(|row: PendingTransaction| row@)
}

/// Turns a request into the pending row that it leaves behind.
pub fn create_pending_transaction(request: RequestSendFundsOp) -> (row: PendingTransaction)
    ensures
        row@ == request@,
{
    PendingTransaction {
        request_id: request.request_id,
        route_remainder: request.route_remainder,
        dest_payment: request.dest_payment,
        total_dest_payment: request.total_dest_payment,
        invoice_hash: request.invoice_hash,
        hmac: request.hmac,
        src_hashed_lock: request.src_hashed_lock,
        left_fees: request.left_fees,
    }
}

/// A fresh vector that holds the same keys.
pub fn copy_route(route: &Vec<PublicKey>) -> (copy: Vec<PublicKey>)
    ensures
        copy@ == route@,
{
    let mut copy: Vec<PublicKey> = Vec::new();
    let mut i: usize = 0;
    while i < route.len()
        invariant
            0 <= i <= route.len(),
            copy@ == route@.subrange(0, i as int),
        decreases route.len() - i,
    {
        copy.push(route[i]);
        assert(route@.subrange(0, i + 1) =~= route@.subrange(0, i as int).push(route@[i as int]));
        i += 1;
    }
    assert(route@.subrange(0, route.len() as int) =~= route@);
    copy
}

/// A fresh request that says the same.
pub fn copy_request(request: &RequestSendFundsOp) -> (copy: RequestSendFundsOp)
    ensures
        copy@ == request@,
{
    RequestSendFundsOp {
        request_id: request.request_id,
        src_hashed_lock: request.src_hashed_lock,
        route_remainder: copy_route(&request.route_remainder),
        dest_payment: request.dest_payment,
        total_dest_payment: request.total_dest_payment,
        invoice_hash: request.invoice_hash,
        hmac: request.hmac,
        left_fees: request.left_fees,
    }
}

/// A fresh pending row that says the same.
pub fn copy_pending_transaction(row: &PendingTransaction) -> (copy: PendingTransaction)
    ensures
        copy@ == row@,
{
    PendingTransaction {
        request_id: row.request_id,
        route_remainder: copy_route(&row.route_remainder),
        dest_payment: row.dest_payment,
        total_dest_payment: row.total_dest_payment,
        invoice_hash: row.invoice_hash,
        hmac: row.hmac,
        src_hashed_lock: row.src_hashed_lock,
        left_fees: row.left_fees,
    }
}

/// The operations of one move token on one currency, in the order in which
/// they apply.
#[derive(Clone, Debug, PartialEq, Eq)]
pub struct CurrencyOperations {
    pub currency: Currency,
    pub operations: Vec<FriendTcOp>,
}

/// What the operations on one currency say.
pub struct CurrencyOperationsView {
    pub currency: Currency,
    pub operations: Seq<FriendTcOpView>,
}

impl View for CurrencyOperations {
    type V = CurrencyOperationsView;

    open spec fn view(&self) -> CurrencyOperationsView {
        CurrencyOperationsView {
            currency: self.currency,
            operations: self.operations@.map_values(|op: FriendTcOp| op@),
        }
    }
}

/// What the operations of a move token say, currency by currency.
pub open spec fn cops_view(cops: Seq<CurrencyOperations>) -> Seq<CurrencyOperationsView> {
    cops.map_values(|cop: CurrencyOperations| cop@)
}

/// Whether a list of operations holds a request.
pub open spec fn has_request_op(ops: Seq<FriendTcOpView>) -> bool {
    exists|i: int| 0 <= i < ops.len() && (#[trigger] ops[i]) is RequestSendFunds
}

/// Whether a list of operations holds a request.
pub fn holds_request(ops: &Vec<FriendTcOp>) -> (r: bool)
    ensures
        r == has_request_op(ops@.map_values(|op: FriendTcOp| op@)),
{
    let ghost view = ops@.map_values(|op: FriendTcOp| op@);
    let mut i: usize = 0;
    while i < ops.len()
        invariant
            0 <= i <= ops.len(),
            view == ops@.map_values(|op: FriendTcOp| op@),
            forall|j: int| 0 <= j < i ==> !((#[trigger] view[j]) is RequestSendFunds),
        decreases ops.len() - i,
    {
        match &ops[i] {
            FriendTcOp::RequestSendFunds(_) => {
                assert(view[i as int] is RequestSendFunds);
                return true;
            },
            _ => {},
        }
        i += 1;
    }
    false
}

/// Where a relay can be reached.
#[derive(Clone, Debug, PartialEq, Eq)]
pub struct RelayAddress {
    pub public_key: PublicKey,
    pub address: Vec<u8>,
}

/// What a move token's signature commits to besides the chain of tokens.
#[derive(Clone, Copy, Debug, PartialEq, Eq)]
pub struct TokenInfo {
    /// Digest of every currency's balance, as the sender sees them.
    pub balances_hash: HashResult,
    pub move_token_counter: u128,
}

/// Hands the right to send to the other side, with the operations that the
/// sender applied while it held it.
#[derive(Clone, Debug, PartialEq, Eq)]
pub struct MoveToken {
    pub operations: Vec<CurrencyOperations>,
    pub opt_local_relays: Option<Vec<RelayAddress>>,
    /// Currencies that the sender adds to, or takes out of, the set it is
    /// willing to trade: each one listed changes sides.
    pub currencies_diff: Vec<Currency>,
    pub old_token: Signature,
    pub info_hash: HashResult,
    pub rand_nonce: RandValue,
    pub new_token: Signature,
}

/// What is kept of a move token that was received.
#[derive(Clone, Copy, Debug, PartialEq, Eq)]
pub struct MoveTokenHashed {
    pub old_token: Signature,
    pub info_hash: HashResult,
    pub rand_nonce: RandValue,
    pub new_token: Signature,
}

/// The balance that one side proposes to restart a currency from.
#[derive(Clone, Copy, Debug, PartialEq, Eq)]
pub struct ResetBalance {
    pub balance: i128,
    pub in_fees: U256,
    pub out_fees: U256,
}

/// A move token, and whether its sender wants the token back even if the
/// receiver has nothing to send.
#[derive(Clone, Debug, PartialEq, Eq)]
pub struct MoveTokenRequest {
    pub move_token: MoveToken,
    pub token_wanted: bool,
}

/// What a side proposes to restart an inconsistent channel from, as it goes
/// over the wire.
#[derive(Clone, Debug, PartialEq, Eq)]
pub struct ResetTermsMessage {
    pub reset_token: Signature,
    pub move_token_counter: u128,
    /// The balance that each currency restarts with. A currency that is
    /// listed again replaces its earlier entry.
    pub reset_balances: Vec<CurrencyResetBalance>,
}

/// One entry of reset terms.
#[derive(Clone, Copy, Debug, PartialEq, Eq)]
pub struct CurrencyResetBalance {
    pub currency: Currency,
    pub reset_balance: ResetBalance,
}

/// What one friend sends to the other.
#[derive(Clone, Debug, PartialEq, Eq)]
pub enum FriendMessage {
    MoveTokenRequest(MoveTokenRequest),
    InconsistencyError(ResetTermsMessage),
    RelaysUpdate(Vec<RelayAddress>),
}

} // verus!
