//! The balance of one currency between two friends, with the requests in
//! flight in both directions.

use crate::proto::{McBalance, PendingTransaction, rows_view, TransactionView};
use crate::types::{array_eq, Currency, U256, Uid};
use vstd::prelude::*;

pub mod incoming;
pub mod outgoing;

verus! {

/// The credits that a table of pending rows keeps frozen.
pub open spec fn total_frozen(rows: Seq<TransactionView>) -> nat
    decreases rows.len(),
{
    if rows.len() == 0 {
        0
    } else {
        total_frozen(rows.drop_last()) + rows.last().frozen()
    }
}

/// Whether a table holds a row for the request.
pub open spec fn has_request(rows: Seq<TransactionView>, request_id: Uid) -> bool {
    exists|i: int| 0 <= i < rows.len() && (#[trigger] rows[i]).request_id == request_id
}

/// Where the row for a request stands in a table that holds one.
pub open spec fn request_index(rows: Seq<TransactionView>, request_id: Uid) -> int {
    choose|i: int| 0 <= i < rows.len() && (#[trigger] rows[i]).request_id == request_id
}

/// Whether no two rows of a table are for one request.
pub open spec fn distinct_requests(rows: Seq<TransactionView>) -> bool {
    forall|i: int, j: int|
        0 <= i < j < rows.len() ==> (#[trigger] rows[i]).request_id != (
        #[trigger] rows[j]).request_id
}

/// Whether every row of a table names a destination.
pub open spec fn routes_nonempty(rows: Seq<TransactionView>) -> bool {
    forall|i: int| 0 <= i < rows.len() ==> (#[trigger] rows[i]).route_remainder.len() > 0
}

/// A row added to a table adds what it freezes.
pub proof fn lemma_total_push(rows: Seq<TransactionView>, row: TransactionView)
    ensures
        total_frozen(rows.push(row)) == total_frozen(rows) + row.frozen(),
{
    assert(rows.push(row).drop_last() =~= rows);
}

/// A row taken out of a table takes out what it froze.
pub proof fn lemma_total_remove(rows: Seq<TransactionView>, i: int)
    requires
        0 <= i < rows.len(),
    ensures
        total_frozen(rows.remove(i)) + rows[i].frozen() == total_frozen(rows),
    decreases rows.len(),
{
    if i == rows.len() - 1 {
        assert(rows.remove(i) =~= rows.drop_last());
    } else {
        lemma_total_remove(rows.drop_last(), i);
        assert(rows.remove(i).drop_last() =~= rows.drop_last().remove(i));
        assert(rows.remove(i).last() == rows.last());
    }
}

/// In a table without repeated requests, the row for a request stands at one
/// index only.
pub proof fn lemma_request_index(rows: Seq<TransactionView>, i: int)
    requires
        distinct_requests(rows),
        0 <= i < rows.len(),
    ensures
        has_request(rows, rows[i].request_id),
        request_index(rows, rows[i].request_id) == i,
{
    let id = rows[i].request_id;
    let j = request_index(rows, id);
    assert(0 <= j < rows.len() && rows[j].request_id == id);
    if i < j {
        assert(rows[i].request_id != rows[j].request_id);
    } else if j < i {
        assert(rows[j].request_id != rows[i].request_id);
    }
}

/// Requests in flight in both directions.
#[derive(Clone, Debug, PartialEq, Eq)]
pub struct McPendingTransactions {
    /// Pending transactions that were opened locally and not yet completed
    pub local: Vec<PendingTransaction>,
    /// Pending transactions that were opened remotely and not yet completed
    pub remote: Vec<PendingTransaction>,
}

/// The state of one currency between the local node and one friend.
#[derive(Clone, Debug, PartialEq, Eq)]
pub struct MutualCredit {
    /// Currency in use (How much is one credit worth?)
    pub currency: Currency,
    /// Current credit balance with respect to remote side
    pub balance: McBalance,
    /// Requests in progress
    pub pending_transactions: McPendingTransactions,
}

/// What a mutual credit holds.
pub struct MutualCreditView {
    pub currency: Currency,
    pub balance: McBalance,
    /// The requests that the local side sent, oldest first.
    pub local: Seq<TransactionView>,
    /// The requests that the remote side sent, oldest first.
    pub remote: Seq<TransactionView>,
}

impl View for MutualCredit {
    type V = MutualCreditView;

    open spec fn view(&self) -> MutualCreditView {
        MutualCreditView {
            currency: self.currency,
            balance: self.balance,
            local: rows_view(self.pending_transactions.local@),
            remote: rows_view(self.pending_transactions.remote@),
        }
    }
}

/// One change to a mutual credit. Every state is reached from a fresh mutual
/// credit by a list of these.
#[derive(Clone, Debug, PartialEq, Eq)]
pub enum McMutation {
    /// A request was sent: its row is added and its credits are frozen.
    InsertLocalPendingTransaction(PendingTransaction),
    /// A request was received: its row is added and its credits are frozen.
    InsertRemotePendingTransaction(PendingTransaction),
    /// A response to a request that was sent arrived: the credits move to the
    /// remote side.
    SettleLocalPendingTransaction(Uid),
    /// A response to a request that was received was sent: the credits move
    /// to the local side.
    SettleRemotePendingTransaction(Uid),
    /// A request that was sent was cancelled: its credits are released.
    CancelLocalPendingTransaction(Uid),
    /// A request that was received was cancelled: its credits are released.
    CancelRemotePendingTransaction(Uid),
    /// A payment that the local node handed on to the remote side was
    /// completed: the fee that the local node kept for it is counted.
    KeepFee(u128),
}

/// What a mutation says.
pub enum McMutationView {
    InsertLocalPendingTransaction(TransactionView),
    InsertRemotePendingTransaction(TransactionView),
    SettleLocalPendingTransaction(Uid),
    SettleRemotePendingTransaction(Uid),
    CancelLocalPendingTransaction(Uid),
    CancelRemotePendingTransaction(Uid),
    KeepFee(u128),
}

impl View for McMutation {
    type V = McMutationView;

    open spec fn view(&self) -> McMutationView {
        match *self {
            McMutation::InsertLocalPendingTransaction(row) => {
                McMutationView::InsertLocalPendingTransaction(row@)
            },
            McMutation::InsertRemotePendingTransaction(row) => {
                McMutationView::InsertRemotePendingTransaction(row@)
            },
            McMutation::SettleLocalPendingTransaction(id) => {
                McMutationView::SettleLocalPendingTransaction(id)
            },
            McMutation::SettleRemotePendingTransaction(id) => {
                McMutationView::SettleRemotePendingTransaction(id)
            },
            McMutation::CancelLocalPendingTransaction(id) => {
                McMutationView::CancelLocalPendingTransaction(id)
            },
            McMutation::CancelRemotePendingTransaction(id) => {
                McMutationView::CancelRemotePendingTransaction(id)
            },
            McMutation::KeepFee(amount) => McMutationView::KeepFee(amount),
        }
    }
}

impl MutualCreditView {
    /// What holds of a mutual credit after every mutation: no request has two
    /// rows, each pending debt is what the rows of its table freeze, every row
    /// names a destination, and the balance stays inside `i128`, on either
    /// side of the channel, however the pending requests end.
    pub open spec fn wf(self) -> bool {
        &&& distinct_requests(self.local)
        &&& distinct_requests(self.remote)
        &&& routes_nonempty(self.local)
        &&& routes_nonempty(self.remote)
        &&& self.currency.wf()
        &&& total_frozen(self.local) == self.balance.local_pending_debt
        &&& total_frozen(self.remote) == self.balance.remote_pending_debt
        &&& self.balance.balance - self.balance.local_pending_debt >= -i128::MAX
        &&& self.balance.balance + self.balance.remote_pending_debt <= i128::MAX
    }

    /// Whether neither side can end up owing more than it is trusted with,
    /// however the pending requests end: the balance with every pending debt
    /// on top stays within `remote_max_debt`, and the balance taken the other
    /// way with every pending debt on top stays within `local_max_debt`.
    pub open spec fn within_trust(self, local_max_debt: u128, remote_max_debt: u128) -> bool {
        &&& self.balance.balance + self.balance.local_pending_debt
            + self.balance.remote_pending_debt <= remote_max_debt
        &&& -self.balance.balance + self.balance.local_pending_debt
            + self.balance.remote_pending_debt <= local_max_debt
    }

    /// The credits that the local side can still send: what `remote_max_debt`
    /// leaves above the balance and the pending debt of the local side.
    pub open spec fn send_capacity(self, remote_max_debt: u128) -> int {
        remote_max_debt - (self.balance.balance + self.balance.local_pending_debt)
    }

    /// The credits that the local side can still receive: what
    /// `local_max_debt` and the balance leave above the pending debt of the
    /// remote side.
    pub open spec fn recv_capacity(self, local_max_debt: u128) -> int {
        local_max_debt + self.balance.balance - self.balance.remote_pending_debt
    }

    /// Whether a mutation can be applied.
    pub open spec fn admits(self, mutation: McMutationView) -> bool {
        match mutation {
            McMutationView::InsertLocalPendingTransaction(row) => {
                &&& !has_request(self.local, row.request_id)
                &&& row.route_remainder.len() > 0
                &&& self.balance.local_pending_debt + row.frozen() <= u128::MAX
                &&& self.balance.balance - (self.balance.local_pending_debt + row.frozen())
                    >= -i128::MAX
            },
            McMutationView::InsertRemotePendingTransaction(row) => {
                &&& !has_request(self.remote, row.request_id)
                &&& row.route_remainder.len() > 0
                &&& self.balance.remote_pending_debt + row.frozen() <= u128::MAX
                &&& self.balance.balance + (self.balance.remote_pending_debt + row.frozen())
                    <= i128::MAX
            },
            McMutationView::SettleLocalPendingTransaction(id) => has_request(self.local, id),
            McMutationView::SettleRemotePendingTransaction(id) => has_request(self.remote, id),
            McMutationView::CancelLocalPendingTransaction(id) => has_request(self.local, id),
            McMutationView::CancelRemotePendingTransaction(id) => has_request(self.remote, id),
            McMutationView::KeepFee(_) => true,
        }
    }

    /// The row that a mutation takes out of its table, if it takes one out.
    pub open spec fn removed_row(self, mutation: McMutationView) -> Option<TransactionView> {
        match mutation {
            McMutationView::InsertLocalPendingTransaction(_) => None,
            McMutationView::InsertRemotePendingTransaction(_) => None,
            McMutationView::SettleLocalPendingTransaction(id) => Some(
                self.local[request_index(self.local, id)],
            ),
            McMutationView::SettleRemotePendingTransaction(id) => Some(
                self.remote[request_index(self.remote, id)],
            ),
            McMutationView::CancelLocalPendingTransaction(id) => Some(
                self.local[request_index(self.local, id)],
            ),
            McMutationView::CancelRemotePendingTransaction(id) => Some(
                self.remote[request_index(self.remote, id)],
            ),
            McMutationView::KeepFee(_) => None,
        }
    }

    /// The mutual credit after a mutation.
    pub open spec fn apply(self, mutation: McMutationView) -> MutualCreditView {
        match mutation {
            McMutationView::InsertLocalPendingTransaction(row) => MutualCreditView {
                local: self.local.push(row),
                balance: McBalance {
                    local_pending_debt: (self.balance.local_pending_debt + row.frozen()) as u128,
                    ..self.balance
                },
                ..self
            },
            McMutationView::InsertRemotePendingTransaction(row) => MutualCreditView {
                remote: self.remote.push(row),
                balance: McBalance {
                    remote_pending_debt: (self.balance.remote_pending_debt + row.frozen()) as u128,
                    ..self.balance
                },
                ..self
            },
            McMutationView::SettleLocalPendingTransaction(id) => {
                let i = request_index(self.local, id);
                let row = self.local[i];
                MutualCreditView {
                    local: self.local.remove(i),
                    balance: McBalance {
                        balance: (self.balance.balance - row.frozen()) as i128,
                        local_pending_debt: (self.balance.local_pending_debt - row.frozen()) as u128,
                        ..self.balance
                    },
                    ..self
                }
            },
            McMutationView::SettleRemotePendingTransaction(id) => {
                let i = request_index(self.remote, id);
                let row = self.remote[i];
                MutualCreditView {
                    remote: self.remote.remove(i),
                    balance: McBalance {
                        balance: (self.balance.balance + row.frozen()) as i128,
                        remote_pending_debt: (self.balance.remote_pending_debt - row.frozen()) as u128,
                        ..self.balance
                    },
                    ..self
                }
            },
            McMutationView::CancelLocalPendingTransaction(id) => {
                let i = request_index(self.local, id);
                let row = self.local[i];
                MutualCreditView {
                    local: self.local.remove(i),
                    balance: McBalance {
                        local_pending_debt: (self.balance.local_pending_debt - row.frozen()) as u128,
                        ..self.balance
                    },
                    ..self
                }
            },
            McMutationView::CancelRemotePendingTransaction(id) => {
                let i = request_index(self.remote, id);
                let row = self.remote[i];
                MutualCreditView {
                    remote: self.remote.remove(i),
                    balance: McBalance {
                        remote_pending_debt: (self.balance.remote_pending_debt - row.frozen()) as u128,
                        ..self.balance
                    },
                    ..self
                }
            },
            McMutationView::KeepFee(amount) => MutualCreditView {
                balance: McBalance {
                    out_fees: self.balance.out_fees.add_sat(amount),
                    ..self.balance
                },
                ..self
            },
        }
    }

    /// The mutual credit after a list of mutations, applied in order.
    pub open spec fn replay(self, mutations: Seq<McMutationView>) -> MutualCreditView
        decreases mutations.len(),
    {
        if mutations.len() == 0 {
            self
        } else {
            self.replay(mutations.drop_last()).apply(mutations.last())
        }
    }

    /// Whether each mutation of a list can be applied in its turn.
    pub open spec fn admits_all(self, mutations: Seq<McMutationView>) -> bool
        decreases mutations.len(),
    {
        if mutations.len() == 0 {
            true
        } else {
            self.admits_all(mutations.drop_last()) && self.replay(mutations.drop_last()).admits(
                mutations.last(),
            )
        }
    }
}

/// A mutual credit that is within trust keeps the balance bound: the
/// balance with the pending debt of the local side on top is within
/// `remote_max_debt`, the balance taken the other way with the pending debt
/// of the remote side on top is within `local_max_debt`, and so neither
/// capacity is below zero. It also keeps each side's own debt, once its own
/// requests are answered, within the limit of that side.
pub proof fn lemma_trust_gives_bounds(mc: MutualCreditView, local_max_debt: u128, remote_max_debt: u128)
    requires
        mc.within_trust(local_max_debt, remote_max_debt),
    ensures
        mc.balance.balance + mc.balance.local_pending_debt <= remote_max_debt,
        -mc.balance.balance + mc.balance.remote_pending_debt <= local_max_debt,
        mc.send_capacity(remote_max_debt) >= 0,
        mc.recv_capacity(local_max_debt) >= 0,
        mc.balance.balance - mc.balance.local_pending_debt >= -local_max_debt,
        -mc.balance.balance - mc.balance.remote_pending_debt >= -remote_max_debt,
{
}

/// Whether the balance with `total` credits on top is within
/// `remote_max_debt`, and the balance taken the other way with `total` on top
/// is within `local_max_debt`.
pub fn fits_limits(balance: i128, total: u128, local_max_debt: u128, remote_max_debt: u128) -> (r:
    bool)
    requires
        balance > i128::MIN,
    ensures
        r == (balance + total <= remote_max_debt && -balance + total <= local_max_debt),
{
    if balance >= 0 {
        let b = balance as u128;
        let first = remote_max_debt >= b && total <= remote_max_debt - b;
        let second = match local_max_debt.checked_add(b) {
            Some(room) => total <= room,
            None => true,
        };
        first && second
    } else {
        let owed = (-balance) as u128;
        let first = match remote_max_debt.checked_add(owed) {
            Some(room) => total <= room,
            None => true,
        };
        let second = local_max_debt >= owed && total <= local_max_debt - owed;
        first && second
    }
}

/// Taking a row out of a table keeps the rest distinct and named.
proof fn lemma_remove_keeps(rows: Seq<TransactionView>, i: int)
    requires
        distinct_requests(rows),
        routes_nonempty(rows),
        0 <= i < rows.len(),
    ensures
        distinct_requests(rows.remove(i)),
        routes_nonempty(rows.remove(i)),
        !has_request(rows.remove(i), rows[i].request_id),
        forall|id: Uid|
            id != rows[i].request_id ==> has_request(rows.remove(i), id) == has_request(rows, id),
{
    let rest = rows.remove(i);
    assert forall|a: int, b: int| 0 <= a < b < rest.len() implies (#[trigger] rest[a]).request_id
        != (#[trigger] rest[b]).request_id by {
        let a0 = if a < i { a } else { a + 1 };
        let b0 = if b < i { b } else { b + 1 };
        assert(rows[a0].request_id != rows[b0].request_id);
    }
    assert forall|a: int| 0 <= a < rest.len() implies (#[trigger] rest[a]).route_remainder.len()
        > 0 by {
        let a0 = if a < i { a } else { a + 1 };
        assert(rows[a0].route_remainder.len() > 0);
    }
    if has_request(rest, rows[i].request_id) {
        let a = request_index(rest, rows[i].request_id);
        let a0 = if a < i { a } else { a + 1 };
        assert(rest[a] == rows[a0]);
        if a0 < i {
            assert(rows[a0].request_id != rows[i].request_id);
        } else {
            assert(rows[i].request_id != rows[a0].request_id);
        }
    }
    assert forall|id: Uid| id != rows[i].request_id implies has_request(rest, id) == has_request(
        rows,
        id,
    ) by {
        if has_request(rest, id) {
            let a = request_index(rest, id);
            let a0 = if a < i { a } else { a + 1 };
            assert(rows[a0].request_id == id);
        }
        if has_request(rows, id) {
            let a0 = request_index(rows, id);
            let a = if a0 < i { a0 } else { a0 - 1 };
            assert(rest[a].request_id == id);
        }
    }
}

/// Adding a row for a request that has none keeps the table distinct and
/// named.
proof fn lemma_push_keeps(rows: Seq<TransactionView>, row: TransactionView)
    requires
        distinct_requests(rows),
        routes_nonempty(rows),
        !has_request(rows, row.request_id),
        row.route_remainder.len() > 0,
    ensures
        distinct_requests(rows.push(row)),
        routes_nonempty(rows.push(row)),
        forall|id: Uid|
            has_request(rows.push(row), id) == (id == row.request_id || has_request(rows, id)),
{
    let more = rows.push(row);
    assert forall|a: int, b: int| 0 <= a < b < more.len() implies (#[trigger] more[a]).request_id
        != (#[trigger] more[b]).request_id by {
        if b == rows.len() {
            assert(rows[a].request_id != row.request_id);
        } else {
            assert(rows[a].request_id != rows[b].request_id);
        }
    }
    assert forall|a: int| 0 <= a < more.len() implies (#[trigger] more[a]).route_remainder.len()
        > 0 by {
        if a < rows.len() {
            assert(rows[a].route_remainder.len() > 0);
        }
    }
    assert forall|id: Uid|
        has_request(more, id) == (id == row.request_id || has_request(rows, id)) by {
        if has_request(more, id) {
            let a = request_index(more, id);
            if a < rows.len() {
                assert(rows[a].request_id == id);
            }
        }
        if id == row.request_id {
            assert(more[rows.len() as int].request_id == id);
        }
        if has_request(rows, id) {
            let a = request_index(rows, id);
            assert(more[a].request_id == id);
        }
    }
}

/// A row freezes no more than its table does.
pub proof fn lemma_row_within_total(rows: Seq<TransactionView>, i: int)
    requires
        0 <= i < rows.len(),
    ensures
        rows[i].frozen() <= total_frozen(rows),
{
    lemma_total_remove(rows, i);
}

/// A mutation that a well-formed mutual credit admits leaves it well formed:
/// the pending debts still are what the rows freeze.
pub proof fn lemma_apply_keeps_wf(mc: MutualCreditView, mutation: McMutationView)
    requires
        mc.wf(),
        mc.admits(mutation),
    ensures
        mc.apply(mutation).wf(),
{
    match mutation {
        McMutationView::InsertLocalPendingTransaction(row) => {
            lemma_total_push(mc.local, row);
            lemma_push_keeps(mc.local, row);
        },
        McMutationView::InsertRemotePendingTransaction(row) => {
            lemma_total_push(mc.remote, row);
            lemma_push_keeps(mc.remote, row);
        },
        McMutationView::SettleLocalPendingTransaction(id) => {
            let i = request_index(mc.local, id);
            lemma_total_remove(mc.local, i);
            lemma_remove_keeps(mc.local, i);
        },
        McMutationView::SettleRemotePendingTransaction(id) => {
            let i = request_index(mc.remote, id);
            lemma_total_remove(mc.remote, i);
            lemma_remove_keeps(mc.remote, i);
        },
        McMutationView::CancelLocalPendingTransaction(id) => {
            let i = request_index(mc.local, id);
            lemma_total_remove(mc.local, i);
            lemma_remove_keeps(mc.local, i);
        },
        McMutationView::CancelRemotePendingTransaction(id) => {
            let i = request_index(mc.remote, id);
            lemma_total_remove(mc.remote, i);
            lemma_remove_keeps(mc.remote, i);
        },
        McMutationView::KeepFee(_) => {},
    }
}

/// A list of mutations, each admitted in its turn, leaves a well-formed
/// mutual credit well formed.
pub proof fn lemma_replay_keeps_wf(mc: MutualCreditView, mutations: Seq<McMutationView>)
    requires
        mc.wf(),
        mc.admits_all(mutations),
    ensures
        mc.replay(mutations).wf(),
    decreases mutations.len(),
{
    if mutations.len() > 0 {
        lemma_replay_keeps_wf(mc, mutations.drop_last());
        lemma_apply_keeps_wf(mc.replay(mutations.drop_last()), mutations.last());
    }
}

/// A mutation that answers a request, by a response or by a cancel, takes
/// out exactly the one row of that request and leaves every other row where
/// it was.
pub proof fn lemma_answer_removes_one_row(mc: MutualCreditView, mutation: McMutationView)
    requires
        mc.wf(),
        mc.admits(mutation),
        mc.removed_row(mutation).is_some(),
    ensures
        mc.apply(mutation).local.len() + mc.apply(mutation).remote.len() + 1 == mc.local.len()
            + mc.remote.len(),
        match mutation {
            McMutationView::SettleLocalPendingTransaction(id)
            | McMutationView::CancelLocalPendingTransaction(id) => {
                &&& mc.removed_row(mutation).unwrap().request_id == id
                &&& !has_request(mc.apply(mutation).local, id)
                &&& mc.apply(mutation).remote == mc.remote
                &&& forall|other: Uid|
                    other != id ==> has_request(mc.apply(mutation).local, other) == has_request(
                        mc.local,
                        other,
                    )
            },
            McMutationView::SettleRemotePendingTransaction(id)
            | McMutationView::CancelRemotePendingTransaction(id) => {
                &&& mc.removed_row(mutation).unwrap().request_id == id
                &&& !has_request(mc.apply(mutation).remote, id)
                &&& mc.apply(mutation).local == mc.local
                &&& forall|other: Uid|
                    other != id ==> has_request(mc.apply(mutation).remote, other) == has_request(
                        mc.remote,
                        other,
                    )
            },
            _ => true,
        },
{
    match mutation {
        McMutationView::SettleLocalPendingTransaction(id)
        | McMutationView::CancelLocalPendingTransaction(id) => {
            lemma_remove_keeps(mc.local, request_index(mc.local, id));
        },
        McMutationView::SettleRemotePendingTransaction(id)
        | McMutationView::CancelRemotePendingTransaction(id) => {
            lemma_remove_keeps(mc.remote, request_index(mc.remote, id));
        },
        _ => {},
    }
}

/// Where the row for a request stands in a table, if the table has one.
pub fn find_request(rows: &Vec<PendingTransaction>, request_id: &Uid) -> (r: Option<usize>)
    ensures
        r.is_some() == has_request(rows_view(rows@), *request_id),
        r.is_some() ==> r.unwrap() < rows.len() && rows@[r.unwrap() as int].request_id
            == *request_id,
{
    let mut i: usize = 0;
    while i < rows.len()
        invariant
            0 <= i <= rows.len(),
            forall|j: int| 0 <= j < i ==> (#[trigger] rows_view(rows@)[j]).request_id != *request_id,
        decreases rows.len() - i,
    {
        if array_eq(&rows[i].request_id, request_id) {
            assert(rows_view(rows@)[i as int].request_id == *request_id);
            return Some(i);
        }
        i += 1;
    }
    None
}

impl MutualCredit {
    /// A mutual credit with a balance and no request in flight. The balance
    /// must be one that the other side can hold too, with the opposite sign.
    pub fn new(currency: &Currency, balance: i128) -> (mc: MutualCredit)
        requires
            balance > i128::MIN,
        ensures
            mc@.wf(),
            mc@.currency == *currency,
            mc@.balance == (McBalance {
                balance,
                local_pending_debt: 0,
                remote_pending_debt: 0,
                in_fees: U256 { hi: 0, lo: 0 },
                out_fees: U256 { hi: 0, lo: 0 },
            }),
            mc@.local.len() == 0,
            mc@.remote.len() == 0,
    {
        proof {
            use_type_invariant(currency);
        }
        MutualCredit {
            currency: *currency,
            balance: McBalance {
                balance,
                local_pending_debt: 0,
                remote_pending_debt: 0,
                in_fees: U256::zero(),
                out_fees: U256::zero(),
            },
            pending_transactions: McPendingTransactions { local: Vec::new(), remote: Vec::new() },
        }
    }

    /// Applies a mutation. Returns the row that it took out of its table, if
    /// it took one out.
    pub fn mutate(&mut self, mutation: McMutation) -> (removed: Option<PendingTransaction>)
        requires
            old(self)@.wf(),
            old(self)@.admits(mutation@),
        ensures
            final(self)@ == old(self)@.apply(mutation@),
            final(self)@.wf(),
            removed.is_some() == old(self)@.removed_row(mutation@).is_some(),
            removed.is_some() ==> removed.unwrap()@ == old(self)@.removed_row(mutation@).unwrap(),
    {
        proof {
            lemma_apply_keeps_wf(self@, mutation@);
        }
        match mutation {
            McMutation::InsertLocalPendingTransaction(row) => {
                self.balance.local_pending_debt = self.balance.local_pending_debt + (
                row.dest_payment + row.left_fees);
                self.pending_transactions.local.push(row);
                assert(self@.local =~= old(self)@.local.push(row@));
                None
            },
            McMutation::InsertRemotePendingTransaction(row) => {
                self.balance.remote_pending_debt = self.balance.remote_pending_debt + (
                row.dest_payment + row.left_fees);
                self.pending_transactions.remote.push(row);
                assert(self@.remote =~= old(self)@.remote.push(row@));
                None
            },
            McMutation::SettleLocalPendingTransaction(id) => {
                let i = find_request(&self.pending_transactions.local, &id).unwrap();
                proof {
                    lemma_request_index(self@.local, i as int);
                    lemma_row_within_total(self@.local, i as int);
                }
                let row = self.pending_transactions.local.remove(i);
                assert(self@.local =~= old(self)@.local.remove(i as int));
                let frozen: u128 = row.dest_payment + row.left_fees;
                self.balance.local_pending_debt = self.balance.local_pending_debt - frozen;
                self.balance.balance = self.balance.balance.checked_sub_unsigned(frozen).unwrap();
                Some(row)
            },
            McMutation::SettleRemotePendingTransaction(id) => {
                let i = find_request(&self.pending_transactions.remote, &id).unwrap();
                proof {
                    lemma_request_index(self@.remote, i as int);
                    lemma_row_within_total(self@.remote, i as int);
                }
                let row = self.pending_transactions.remote.remove(i);
                assert(self@.remote =~= old(self)@.remote.remove(i as int));
                let frozen: u128 = row.dest_payment + row.left_fees;
                self.balance.remote_pending_debt = self.balance.remote_pending_debt - frozen;
                self.balance.balance = self.balance.balance.checked_add_unsigned(frozen).unwrap();
                Some(row)
            },
            McMutation::CancelLocalPendingTransaction(id) => {
                let i = find_request(&self.pending_transactions.local, &id).unwrap();
                proof {
                    lemma_request_index(self@.local, i as int);
                    lemma_row_within_total(self@.local, i as int);
                }
                let row = self.pending_transactions.local.remove(i);
                assert(self@.local =~= old(self)@.local.remove(i as int));
                let frozen: u128 = row.dest_payment + row.left_fees;
                self.balance.local_pending_debt = self.balance.local_pending_debt - frozen;
                Some(row)
            },
            McMutation::CancelRemotePendingTransaction(id) => {
                let i = find_request(&self.pending_transactions.remote, &id).unwrap();
                proof {
                    lemma_request_index(self@.remote, i as int);
                    lemma_row_within_total(self@.remote, i as int);
                }
                let row = self.pending_transactions.remote.remove(i);
                assert(self@.remote =~= old(self)@.remote.remove(i as int));
                let frozen: u128 = row.dest_payment + row.left_fees;
                self.balance.remote_pending_debt = self.balance.remote_pending_debt - frozen;
                Some(row)
            },
            McMutation::KeepFee(amount) => {
                self.balance.out_fees = self.balance.out_fees.saturating_add_u128(amount);
                None
            },
        }
    }
}

} // verus!
