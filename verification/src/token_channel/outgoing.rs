//! The local side composes a move token.

use crate::mutual_credit::{McMutation, McMutationView};
use crate::mutual_credit::outgoing::{
    lemma_outgoing_admitted, outgoing_check, queue_operation, QueueOperationError,
};
use crate::proto::{
    CurrencyOperations, FriendTcOp, FriendTcOpView, MoveToken, RelayAddress, TokenInfo,
};
use crate::signature_buff::{
    hash_token_info, move_token_signature_buff, move_token_signature_buffer,
};
use crate::token_channel::{ChannelView, info_hash_of, mcs_view, TcStatus, TokenChannel};
use crate::types::{Currency, PublicKey, RandValue, Signature};
use vstd::prelude::*;

verus! {

/// Why the local side cannot put something into its next move token.
#[derive(Clone, Copy, Debug, PartialEq, Eq, Structural)]
pub enum OutgoingError {
    /// The local side does not hold the token.
    NotTokenHolder,
    /// Currencies can be toggled only before the first operation is queued.
    OperationsQueued,
    /// The channel has no mutual credit for the currency.
    InvalidCurrency,
    /// A request names a currency that the two sides do not both trade.
    CurrencyNotActive,
    /// The mutual credit refuses the operation.
    Operation(QueueOperationError),
    /// The counter cannot go up any more.
    MoveTokenCounterOverflow,
}

/// Where queueing an operation leads: the channel with the operation
/// applied, or why the operation cannot be sent.
///
/// An operation is refused when the channel has no mutual credit for the
/// currency, when it is a request and the two sides do not both trade the
/// currency, or when the mutual credit refuses it. Once it is applied, the
/// mutual credit is dropped if neither side trades the currency and nothing
/// is pending in it.
pub open spec fn outgoing_op(
    ch: ChannelView,
    currency: Currency,
    op: FriendTcOpView,
    local_max_debt: u128,
    remote_max_debt: u128,
    local_public_key: PublicKey,
    remote_public_key: PublicKey,
) -> Result<(ChannelView, McMutationView), OutgoingError> {
    match ch.mc_position(currency) {
        None => Err(OutgoingError::InvalidCurrency),
        Some(i) => {
            if op is RequestSendFunds && !ch.is_active(currency) {
                Err(OutgoingError::CurrencyNotActive)
            } else {
                match outgoing_check(
                    ch.mutual_credits[i],
                    op,
                    local_max_debt,
                    remote_max_debt,
                    local_public_key,
                    remote_public_key,
                ) {
                    Err(e) => Err(OutgoingError::Operation(e)),
                    Ok(mutation) => Ok(
                        (
                            ChannelView {
                                mutual_credits: ch.mutual_credits.update(
                                    i,
                                    ch.mutual_credits[i].apply(mutation),
                                ),
                                ..ch
                            }.without_idle_mc(currency),
                            mutation,
                        ),
                    ),
                }
            }
        },
    }
}

/// A move token in the making: what the local side applied to the channel
/// since it got the token, and has yet to send.
#[derive(Clone, Debug, PartialEq, Eq)]
pub struct OutMoveToken {
    /// The operations, grouped by currency in the order in which they were
    /// queued.
    pub operations: Vec<CurrencyOperations>,
    /// The currencies that the local side toggled.
    pub currencies_diff: Vec<Currency>,
    pub opt_local_relays: Option<Vec<RelayAddress>>,
}

impl OutMoveToken {
    /// Every group of operations holds at least one.
    pub open spec fn wf(&self) -> bool {
        forall|i: int|
            0 <= i < self.operations@.len() ==> (#[trigger] self.operations@[i]).operations@.len()
                > 0
    }

    /// Nothing to send.
    pub fn new() -> (out: OutMoveToken)
        ensures
            out.wf(),
            out.operations@.len() == 0,
            out.currencies_diff@.len() == 0,
            out.opt_local_relays is None,
    {
        OutMoveToken { operations: Vec::new(), currencies_diff: Vec::new(), opt_local_relays: None }
    }

    /// Whether there is nothing to send: no operation, no currency toggled,
    /// no relays.
    pub fn is_empty(&self) -> (r: bool)
        ensures
            r == (self.operations@.len() == 0 && self.currencies_diff@.len() == 0
                && self.opt_local_relays is None),
    {
        self.operations.len() == 0 && self.currencies_diff.len() == 0
            && self.opt_local_relays.is_none()
    }

    /// Says through which relays the local node can be reached.
    pub fn set_local_relays(&mut self, relays: Vec<RelayAddress>)
        ensures
            final(self).operations == old(self).operations,
            final(self).currencies_diff == old(self).currencies_diff,
            final(self).opt_local_relays == Some(relays),
    {
        self.opt_local_relays = Some(relays);
    }

    /// Puts a currency among those that the local side trades, or takes it
    /// out if it stands there, and notes it for the move token. Allowed while
    /// the local side holds the token and has queued no operation.
    pub fn toggle_currency(&mut self, tc: &mut TokenChannel, currency: Currency) -> (r: Result<
        (),
        OutgoingError,
    >)
        requires
            old(tc).wf(),
        ensures
            final(tc).wf(),
            final(tc).status == old(tc).status,
            final(tc).local_max_debts == old(tc).local_max_debts,
            final(tc).remote_max_debts == old(tc).remote_max_debts,
            final(self).operations == old(self).operations,
            final(self).opt_local_relays == old(self).opt_local_relays,
            if !old(tc).is_consistent_in() {
                &&& r == Err::<(), OutgoingError>(OutgoingError::NotTokenHolder)
                &&& *final(tc) == *old(tc)
                &&& *final(self) == *old(self)
            } else if old(self).operations@.len() > 0 {
                &&& r == Err::<(), OutgoingError>(OutgoingError::OperationsQueued)
                &&& *final(tc) == *old(tc)
                &&& *final(self) == *old(self)
            } else {
                &&& r is Ok
                &&& final(tc).channel() == old(tc).channel().toggle_local(currency)
                &&& final(self).currencies_diff@ == old(self).currencies_diff@.push(currency)
            },
    {
        match &tc.status {
            TcStatus::ConsistentIn(_) => {},
            _ => return Err(OutgoingError::NotTokenHolder),
        }
        if self.operations.len() > 0 {
            return Err(OutgoingError::OperationsQueued);
        }
        tc.toggle_local_currency(&currency);
        self.currencies_diff.push(currency);
        Ok(())
    }

    /// Validates an operation against the debt limits that the channel holds
    /// for the currency, applies it to the channel, and queues it for the
    /// move token. On failure nothing changes.
    pub fn queue_operation(
        &mut self,
        tc: &mut TokenChannel,
        currency: &Currency,
        friend_tc_op: FriendTcOp,
        local_public_key: &PublicKey,
        remote_public_key: &PublicKey,
    ) -> (r: Result<McMutation, OutgoingError>)
        requires
            old(tc).wf(),
            old(self).wf(),
        ensures
            final(tc).wf(),
            final(self).wf(),
            final(tc).status == old(tc).status,
            final(tc).local_max_debts == old(tc).local_max_debts,
            final(tc).remote_max_debts == old(tc).remote_max_debts,
            final(self).currencies_diff == old(self).currencies_diff,
            final(self).opt_local_relays == old(self).opt_local_relays,
            if !old(tc).is_consistent_in() {
                &&& r == Err::<McMutation, OutgoingError>(OutgoingError::NotTokenHolder)
                &&& *final(tc) == *old(tc)
                &&& *final(self) == *old(self)
            } else {
                match outgoing_op(
                    old(tc).channel(),
                    *currency,
                    friend_tc_op@,
                    old(tc).local_max_debts.value_or(*currency, 0),
                    old(tc).remote_max_debts.value_or(*currency, 0),
                    *local_public_key,
                    *remote_public_key,
                ) {
                    Ok((ch, mutation)) => {
                        &&& r is Ok
                        &&& r.unwrap()@ == mutation
                        &&& final(tc).channel() == ch
                        &&& flat_operations(final(self).operations@) == flat_operations(
                            old(self).operations@,
                        ).push((*currency, friend_tc_op@))
                    },
                    Err(e) => {
                        &&& r == Err::<McMutation, OutgoingError>(e)
                        &&& *final(tc) == *old(tc)
                        &&& *final(self) == *old(self)
                    },
                }
            },
    {
        match &tc.status {
            TcStatus::ConsistentIn(_) => {},
            _ => return Err(OutgoingError::NotTokenHolder),
        }
        proof {
            tc.lemma_mc_keys();
        }
        let i = match tc.mutual_credits.position(currency) {
            Some(i) => i,
            None => return Err(OutgoingError::InvalidCurrency),
        };
        let is_request = match &friend_tc_op {
            FriendTcOp::RequestSendFunds(_) => true,
            _ => false,
        };
        if is_request && !(tc.local_currencies.has(currency) && tc.remote_currencies.has(
            currency,
        )) {
            return Err(OutgoingError::CurrencyNotActive);
        }
        let local_max_debt = tc.local_max_debts.get_or(currency, 0);
        let remote_max_debt = tc.remote_max_debts.get_or(currency, 0);
        let mut mutations = match queue_operation(
            tc.mutual_credits.value_at(i),
            &friend_tc_op,
            local_max_debt,
            remote_max_debt,
            local_public_key,
            remote_public_key,
        ) {
            Ok(mutations) => mutations,
            Err(e) => return Err(OutgoingError::Operation(e)),
        };
        let mutation = mutations.pop().unwrap();
        let ghost before = tc.mutual_credits.values();
        let ghost mc_before = before[i as int]@;
        proof {
            lemma_outgoing_admitted(
                mc_before,
                friend_tc_op@,
                local_max_debt,
                remote_max_debt,
                *local_public_key,
                *remote_public_key,
            );
            assert(old(tc).trusted_at(i as int));
            crate::mutual_credit::outgoing::lemma_outgoing_keeps_trust(
                mc_before,
                friend_tc_op@,
                local_max_debt,
                remote_max_debt,
                *local_public_key,
                *remote_public_key,
            );
        }
        let logged = copy_mutation(&mutation);
        let mc = tc.mutual_credits.value_at_mut(i);
        mc.mutate(mutation);
        proof {
            tc.lemma_updated_wf(*old(tc), i as int);
            assert(mcs_view(tc.mutual_credits.values()) =~= mcs_view(before).update(
                i as int,
                mc_before.apply(logged@),
            ));
        }
        tc.drop_idle_mutual_credit(currency);
        // Add the operation to the group of its currency, or start a group:
        let ghost flat_before = flat_operations(self.operations@);
        let n = self.operations.len();
        if n > 0 && self.operations[n - 1].currency.same(currency) {
            let ghost groups_before = self.operations@;
            let mut group = self.operations.pop().unwrap();
            let ghost ops_before = group.operations@;
            group.operations.push(friend_tc_op);
            self.operations.push(group);
            proof {
                assert(self.operations@.drop_last() =~= groups_before.drop_last());
                assert(group@.operations =~= groups_before.last()@.operations.push(friend_tc_op@));
                lemma_flat_extend(groups_before, self.operations@, *currency, friend_tc_op@);
                assert forall|k: int| 0 <= k < self.operations@.len() implies (
                #[trigger] self.operations@[k]).operations@.len() > 0 by {
                    if k < n - 1 {
                        assert(self.operations@[k] == groups_before[k]);
                    }
                }
            }
        } else {
            let ghost groups_before = self.operations@;
            let mut operations: Vec<FriendTcOp> = Vec::new();
            operations.push(friend_tc_op);
            self.operations.push(CurrencyOperations { currency: *currency, operations });
            proof {
                assert(self.operations@.drop_last() =~= groups_before);
                assert(self.operations@.last()@.operations =~= seq![friend_tc_op@]);
                assert(group_operations(self.operations@.last()@) =~= seq![
                    (*currency, friend_tc_op@),
                ]);
                assert forall|k: int| 0 <= k < self.operations@.len() implies (
                #[trigger] self.operations@[k]).operations@.len() > 0 by {
                    if k < n {
                        assert(self.operations@[k] == groups_before[k]);
                    }
                }
            }
        }
        Ok(logged)
    }

    /// Closes the move token and hands the token to the friend.
    ///
    /// Allowed while the local side holds the token. With nothing to send and
    /// no `token_wanted`, nothing happens and `Ok(false)` comes back: no
    /// counter is spent. Otherwise the counter goes up by one, the move token
    /// names the token received last as its `old_token`, carries the digest
    /// of the balances and of the new counter, is signed by the signer, and
    /// is kept in the status, which becomes `ConsistentOut`.
    pub fn finalize<F: Fn(&Vec<u8>) -> Signature>(
        self,
        tc: &mut TokenChannel,
        rand_nonce: RandValue,
        token_wanted: bool,
        local_public_key: &PublicKey,
        remote_public_key: &PublicKey,
        signer: &F,
    ) -> (r: Result<bool, OutgoingError>)
        requires
            old(tc).wf(),
            forall|buffer: &Vec<u8>| signer.requires((buffer,)),
        ensures
            final(tc).wf(),
            final(tc).local_max_debts == old(tc).local_max_debts,
            final(tc).remote_max_debts == old(tc).remote_max_debts,
            if !old(tc).is_consistent_in() {
                &&& r == Err::<bool, OutgoingError>(OutgoingError::NotTokenHolder)
                &&& *final(tc) == *old(tc)
            } else if self.operations@.len() == 0 && self.currencies_diff@.len() == 0
                && self.opt_local_relays is None && !token_wanted {
                r == Ok::<bool, OutgoingError>(false) && *final(tc) == *old(tc)
            } else if old(tc).move_token_counter == u128::MAX {
                &&& r == Err::<bool, OutgoingError>(OutgoingError::MoveTokenCounterOverflow)
                &&& *final(tc) == *old(tc)
            } else {
                &&& r == Ok::<bool, OutgoingError>(true)
                &&& final(tc).move_token_counter == old(tc).move_token_counter + 1
                &&& final(tc).mutual_credits == old(tc).mutual_credits
                &&& final(tc).local_currencies == old(tc).local_currencies
                &&& final(tc).remote_currencies == old(tc).remote_currencies
                &&& final(tc).status is ConsistentOut
                &&& final(tc).status->ConsistentOut_1 == Some(old(tc).status->ConsistentIn_0)
                &&& sent_token(
                    final(tc).status->ConsistentOut_0,
                    self,
                    *old(tc),
                    rand_nonce,
                    *local_public_key,
                    *remote_public_key,
                    signer,
                )
            },
    {
        let last_incoming = match &tc.status {
            TcStatus::ConsistentIn(last_incoming) => *last_incoming,
            _ => return Err(OutgoingError::NotTokenHolder),
        };
        if self.is_empty() && !token_wanted {
            return Ok(false);
        }
        if tc.move_token_counter == u128::MAX {
            return Err(OutgoingError::MoveTokenCounterOverflow);
        }
        let move_token_counter = tc.move_token_counter + 1;
        let balances_hash = tc.balances_hash(false);
        let info_hash = hash_token_info(
            local_public_key,
            remote_public_key,
            &TokenInfo { balances_hash, move_token_counter },
        );
        let mut move_token = MoveToken {
            operations: self.operations,
            opt_local_relays: self.opt_local_relays,
            currencies_diff: self.currencies_diff,
            old_token: last_incoming.new_token,
            info_hash,
            rand_nonce,
            new_token: [0u8; 64],
        };
        let buffer = move_token_signature_buff(&move_token);
        let new_token = signer(&buffer);
        move_token.new_token = new_token;
        proof {
            assert(buffer@ == move_token_signature_buffer(move_token.old_token, move_token.info_hash)
                && signer.ensures((&buffer,), move_token.new_token));
            assert(move_token.info_hash@ == info_hash_of(
                *local_public_key,
                *remote_public_key,
                tc.channel().mutual_credits,
                false,
                move_token_counter,
            ));
            assert(sent_token(
                move_token,
                self,
                *old(tc),
                rand_nonce,
                *local_public_key,
                *remote_public_key,
                signer,
            ));
        }
        tc.move_token_counter = move_token_counter;
        tc.status = TcStatus::ConsistentOut(move_token, Some(last_incoming));
        Ok(true)
    }
}

/// Whether `move_token` is the move token that closing `out` on the channel
/// `before` makes: it carries what was queued, continues the chain from the
/// token received last, commits to the balances of the channel and to its
/// counter plus one, and bears what the signer gave for its signature
/// buffer.
pub open spec fn sent_token<F: Fn(&Vec<u8>) -> Signature>(
    move_token: MoveToken,
    out: OutMoveToken,
    before: TokenChannel,
    rand_nonce: RandValue,
    local_public_key: PublicKey,
    remote_public_key: PublicKey,
    signer: &F,
) -> bool {
    &&& move_token.operations == out.operations
    &&& move_token.currencies_diff == out.currencies_diff
    &&& move_token.opt_local_relays == out.opt_local_relays
    &&& move_token.rand_nonce == rand_nonce
    &&& move_token.old_token == before.status->ConsistentIn_0.new_token
    &&& move_token.info_hash@ == info_hash_of(
        local_public_key,
        remote_public_key,
        before.channel().mutual_credits,
        false,
        (before.move_token_counter + 1) as u128,
    )
    &&& exists|buffer: Vec<u8>|
        buffer@ == move_token_signature_buffer(move_token.old_token, move_token.info_hash)
            && #[trigger] signer.ensures((&buffer,), move_token.new_token)
}

/// How many operations a list of groups holds.
pub open spec fn count_operations(groups: Seq<CurrencyOperations>) -> nat {
    flat_operations(groups).len()
}

/// The operations of one group, each with the currency of the group.
pub open spec fn group_operations(group: crate::proto::CurrencyOperationsView) -> Seq<
    (Currency, FriendTcOpView),
> {
    group.operations.map_values(|op: FriendTcOpView| (group.currency, op))
}

/// The operations of a list of groups, one after the other, each with its
/// currency.
pub open spec fn flat_operations(groups: Seq<CurrencyOperations>) -> Seq<
    (Currency, FriendTcOpView),
>
    decreases groups.len(),
{
    if groups.len() == 0 {
        Seq::empty()
    } else {
        flat_operations(groups.drop_last()) + group_operations(groups.last()@)
    }
}

/// Adding an operation to the last group adds it to the end of the
/// operations.
proof fn lemma_flat_extend(
    before: Seq<CurrencyOperations>,
    after: Seq<CurrencyOperations>,
    currency: Currency,
    op: FriendTcOpView,
)
    requires
        before.len() > 0,
        after.len() == before.len(),
        after.drop_last() == before.drop_last(),
        before.last().currency == currency,
        after.last().currency == currency,
        after.last()@.operations == before.last()@.operations.push(op),
    ensures
        flat_operations(after) == flat_operations(before).push((currency, op)),
{
    assert(group_operations(after.last()@) =~= group_operations(before.last()@).push(
        (currency, op),
    ));
    assert(flat_operations(after) =~= flat_operations(before).push((currency, op)));
}

/// A fresh mutation that says the same.
pub fn copy_mutation(mutation: &McMutation) -> (copy: McMutation)
    ensures
        copy@ == mutation@,
{
    match mutation {
        McMutation::InsertLocalPendingTransaction(row) => {
            McMutation::InsertLocalPendingTransaction(crate::proto::copy_pending_transaction(row))
        },
        McMutation::InsertRemotePendingTransaction(row) => {
            McMutation::InsertRemotePendingTransaction(crate::proto::copy_pending_transaction(row))
        },
        McMutation::SettleLocalPendingTransaction(id) => {
            McMutation::SettleLocalPendingTransaction(*id)
        },
        McMutation::SettleRemotePendingTransaction(id) => {
            McMutation::SettleRemotePendingTransaction(*id)
        },
        McMutation::CancelLocalPendingTransaction(id) => {
            McMutation::CancelLocalPendingTransaction(*id)
        },
        McMutation::CancelRemotePendingTransaction(id) => {
            McMutation::CancelRemotePendingTransaction(*id)
        },
        McMutation::KeepFee(amount) => McMutation::KeepFee(*amount),
    }
}

} // verus!
