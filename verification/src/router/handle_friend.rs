//! A message arrives from a friend.

use crate::currency_map::CurrencyMap;
use crate::index_server::{CurrencyIndexMutation, IndexMutation};
use crate::mutual_credit::incoming::IncomingMessage;
use crate::proto::{CancelSendFundsOp, FriendMessage, MoveToken, ResetBalance, ResetTermsMessage};
use crate::router::{
    AppEvent, BackwardsOp, Friend, FriendSend, lemma_friend_updated, McRequest, RequestOrigin,
    RouterOutput, RouterState,
};
use crate::router::flush::{
    backwards_handed, friend_flushed, friend_replaced, same_friend_but_backwards,
};
use crate::router::handle_route::request_handled;
use crate::token_channel::{ResetTerms, TcStatus};
use crate::token_channel::incoming::{
    handle_in_move_token, move_token_handled, CurrencyOutputs, MoveTokenReceived,
    ReceiveMoveTokenOutput,
};
use crate::token_channel::reset::{
    handle_in_reset_terms, reset_terms_accepted, reset_terms_handled, LostRequest,
    ResetTermsOutput,
};
use crate::types::{Currency, PublicKey, RandValue, Rate, Signature};
use vstd::prelude::*;

verus! {

/// Whether two states of a friend differ at most in what waits to be sent
/// to the friend.
pub open spec fn same_friend_but_queues(before: Friend, after: Friend) -> bool {
    &&& after.public_key == before.public_key
    &&& after.token_channel == before.token_channel
    &&& after.currency_configs == before.currency_configs
    &&& after.is_online == before.is_online
    &&& after.token_wanted == before.token_wanted
}

/// Whether two lists of friends list the same friends, each with the
/// channel and the configuration that it had.
pub open spec fn same_channels(before: Seq<Friend>, after: Seq<Friend>) -> bool {
    &&& after.len() == before.len()
    &&& forall|j: int|
        0 <= j < before.len() ==> same_friend_but_queues(before[j], #[trigger] after[j])
}

/// The reset terms that a message proposes: each currency that is listed,
/// with the balance of its last entry.
pub fn reset_terms_of(message: ResetTermsMessage) -> (terms: ResetTerms)
    ensures
        terms.reset_balances.wf(),
        terms.reset_token == message.reset_token,
        terms.move_token_counter == message.move_token_counter,
        forall|c: Currency|
            terms.reset_balances.contains(c) == (exists|k: int|
                0 <= k < message.reset_balances@.len() && (
                #[trigger] message.reset_balances@[k]).currency == c),
        forall|k: int|
            0 <= k < message.reset_balances@.len() && is_last_entry(message.reset_balances@, k)
                ==> terms.reset_balances.value_of((#[trigger] message.reset_balances@[k]).currency)
                == message.reset_balances@[k].reset_balance,
{
    let mut reset_balances: CurrencyMap<ResetBalance> = CurrencyMap::new();
    let mut k: usize = 0;
    while k < message.reset_balances.len()
        invariant
            0 <= k <= message.reset_balances@.len(),
            reset_balances.wf(),
            forall|c: Currency|
                reset_balances.contains(c) == (exists|j: int|
                    0 <= j < k && (#[trigger] message.reset_balances@[j]).currency == c),
            forall|j: int|
                0 <= j < k && is_last_entry(message.reset_balances@.take(k as int), j)
                    ==> reset_balances.value_of((#[trigger] message.reset_balances@[j]).currency)
                    == message.reset_balances@[j].reset_balance,
        decreases message.reset_balances@.len() - k,
    {
        let entry = message.reset_balances[k];
        let ghost before = reset_balances;
        reset_balances.set(entry.currency, entry.reset_balance);
        proof {
            let entries = message.reset_balances@;
            assert forall|j: int|
                0 <= j < k + 1 && is_last_entry(entries.take(k + 1), j) implies reset_balances.value_of(
                (#[trigger] entries[j]).currency,
            ) == entries[j].reset_balance by {
                if j < k {
                    assert(entries.take(k + 1)[k as int].currency != entries.take(k + 1)[j].currency);
                    assert(is_last_entry(entries.take(k as int), j)) by {
                        assert forall|later: int| j < later < k implies entries.take(k as int)[later].currency
                            != entries.take(k as int)[j].currency by {
                            assert(entries.take(k + 1)[later].currency != entries.take(k + 1)[j].currency);
                        }
                    }
                    assert(before.contains(entries[j].currency));
                }
            }
            assert forall|c: Currency|
                reset_balances.contains(c) == (exists|j: int|
                    0 <= j < k + 1 && (#[trigger] message.reset_balances@[j]).currency == c) by {
                if reset_balances.contains(c) {
                    if c == entry.currency {
                        assert(message.reset_balances@[k as int].currency == c);
                    } else {
                        assert(before.contains(c));
                        let j = choose|j: int|
                            0 <= j < k && (#[trigger] message.reset_balances@[j]).currency == c;
                        assert(message.reset_balances@[j].currency == c);
                    }
                }
                if exists|j: int|
                    0 <= j < k + 1 && (#[trigger] message.reset_balances@[j]).currency == c {
                    let j = choose|j: int|
                        0 <= j < k + 1 && (#[trigger] message.reset_balances@[j]).currency == c;
                    if j < k {
                        assert(before.contains(c));
                    }
                }
            }
        }
        k += 1;
    }
    proof {
        assert(message.reset_balances@.take(k as int) =~= message.reset_balances@);
    }
    ResetTerms {
        reset_token: message.reset_token,
        move_token_counter: message.move_token_counter,
        reset_balances,
    }
}

/// Whether no later entry of the list is for the currency of the entry at
/// `k`.
pub open spec fn is_last_entry(entries: Seq<crate::proto::CurrencyResetBalance>, k: int) -> bool {
    forall|later: int|
        k < later < entries.len() ==> (#[trigger] entries[later]).currency != entries[k].currency
}

impl Friend {
    /// What the local node charges the friend in each configured currency.
    pub fn rates(&self) -> (rates: CurrencyMap<Rate>)
        requires
            self.wf(),
        ensures
            rates.wf(),
            rates.keys() == self.currency_configs.keys(),
            rates.values().len() == self.currency_configs.values().len(),
            forall|k: int|
                0 <= k < rates.values().len() ==> #[trigger] rates.values()[k]
                    == self.currency_configs.values()[k].rate,
    {
        let n = self.currency_configs.len();
        let mut values: Vec<Rate> = Vec::new();
        let mut k: usize = 0;
        while k < n
            invariant
                0 <= k <= n,
                n == self.currency_configs.keys().len(),
                self.wf(),
                values@.len() == k,
                forall|j: int|
                    0 <= j < k ==> #[trigger] values@[j] == self.currency_configs.values()[j].rate,
            decreases n - k,
        {
            values.push(self.currency_configs.value_at(k).rate);
            k += 1;
        }
        CurrencyMap::with_keys_of(&self.currency_configs, values)
    }
}

/// The fee that the local node kept of a payment whose response came back:
/// what the request brought in fees from the friend that it came from, less
/// what it took on to the next node. Nothing for a payment of the node's own
/// application, and nothing for what is not a response.
pub open spec fn kept_fee(router: RouterState, currency: Currency, message: IncomingMessage) -> u128 {
    match message {
        IncomingMessage::Response(response) => match router.origin_of(
            currency,
            response.incoming_response.request_id,
        ) {
            RequestOrigin::Friend(k) => {
                let brought = router.friends@[k as int].remote_fees(
                    currency,
                    response.incoming_response.request_id,
                );
                if brought >= response.pending_transaction.left_fees {
                    (brought - response.pending_transaction.left_fees) as u128
                } else {
                    0
                }
            },
            _ => 0,
        },
        _ => 0,
    }
}

/// Whether two states of a friend differ at most in one fee counted on its
/// channel, as `with_fee_kept` says.
pub open spec fn same_friend_but_fee(
    before: Friend,
    after: Friend,
    currency: Currency,
    amount: u128,
) -> bool {
    &&& after.public_key == before.public_key
    &&& after.currency_configs == before.currency_configs
    &&& after.pending_backwards_ops == before.pending_backwards_ops
    &&& after.pending_requests == before.pending_requests
    &&& after.pending_user_requests == before.pending_user_requests
    &&& after.is_online == before.is_online
    &&& after.token_wanted == before.token_wanted
    &&& after.token_channel.status == before.token_channel.status
    &&& after.token_channel.local_max_debts == before.token_channel.local_max_debts
    &&& after.token_channel.remote_max_debts == before.token_channel.remote_max_debts
    &&& after.token_channel.channel() == before.token_channel.channel().with_fee_kept(
        currency,
        amount,
    )
}

/// Whether `after` is `before` with the fee counted that the local node
/// kept of one message of the friend at `from`: the fee is added, in the
/// mutual credit of the currency with that friend, to the fees that the node
/// kept, and nothing else changed. Where no fee was kept, nothing changed.
pub open spec fn fee_counted(
    before: RouterState,
    after: RouterState,
    from: int,
    currency: Currency,
    message: IncomingMessage,
) -> bool {
    if kept_fee(before, currency, message) == 0 {
        after == before
    } else {
        &&& after.local_public_key == before.local_public_key
        &&& after.max_operations_in_batch == before.max_operations_in_batch
        &&& after.local_requests == before.local_requests
        &&& after.friends@.len() == before.friends@.len()
        &&& forall|j: int|
            0 <= j < before.friends@.len() && j != from ==> after.friends@[j] == before.friends@[j]
        &&& same_friend_but_fee(
            before.friends@[from],
            after.friends@[from],
            currency,
            kept_fee(before, currency, message),
        )
    }
}

/// Whether `after` is `before` with the fees counted that the local node
/// kept of a list of messages of the friend at `from`, one after the other,
/// each as `fee_counted` says.
pub open spec fn fees_counted(
    before: RouterState,
    after: RouterState,
    from: int,
    messages: Seq<(Currency, IncomingMessage)>,
) -> bool
    decreases messages.len(),
{
    if messages.len() == 0 {
        after == before
    } else {
        exists|mid: RouterState|
            fees_counted(before, mid, from, messages.drop_last()) && #[trigger] fee_counted(
                mid,
                after,
                from,
                messages.last().0,
                messages.last().1,
            )
    }
}

/// One more fee counted makes a list that is one longer.
proof fn lemma_fees_counted_push(
    before: RouterState,
    mid: RouterState,
    after: RouterState,
    from: int,
    messages: Seq<(Currency, IncomingMessage)>,
    currency: Currency,
    message: IncomingMessage,
)
    requires
        fees_counted(before, mid, from, messages),
        fee_counted(mid, after, from, currency, message),
    ensures
        fees_counted(before, after, from, messages.push((currency, message))),
{
    let more = messages.push((currency, message));
    assert(more.drop_last() =~= messages);
    assert(more.last() == (currency, message));
    assert(fee_counted(mid, after, from, more.last().0, more.last().1));
}

/// Whether two lists of friends list the same friends, each as it was but
/// for the fees counted on its channel.
pub open spec fn same_but_fees(before: Seq<Friend>, after: Seq<Friend>) -> bool {
    &&& after.len() == before.len()
    &&& forall|j: int|
        0 <= j < before.len() ==> {
            &&& (#[trigger] after[j]).public_key == before[j].public_key
            &&& after[j].currency_configs == before[j].currency_configs
            &&& after[j].pending_backwards_ops == before[j].pending_backwards_ops
            &&& after[j].pending_requests == before[j].pending_requests
            &&& after[j].pending_user_requests == before[j].pending_user_requests
            &&& after[j].is_online == before[j].is_online
            &&& after[j].token_wanted == before[j].token_wanted
            &&& after[j].token_channel.status == before[j].token_channel.status
        }
}

/// Whether `after` and `out_after` are `before` and `out_before` with what
/// one accepted operation of the friend at `from` asks for passed on.
///
/// A request is acted on as `request_handled` says. A request whose fees do
/// not cover the local node's leaves a cancel, naming the local node, for
/// the friend that sent it. A response or a cancel is handed to where its
/// request came from, as `backwards_handed` says.
pub open spec fn message_dispatched(
    before: RouterState,
    after: RouterState,
    out_before: RouterOutput,
    out_after: RouterOutput,
    from: usize,
    currency: Currency,
    message: IncomingMessage,
) -> bool {
    match message {
        IncomingMessage::Request(request) => request_handled(
            before,
            after,
            out_before,
            out_after,
            from,
            currency,
            request,
        ),
        IncomingMessage::RequestCancel(request) => backwards_handed(
            before,
            after,
            out_before,
            out_after,
            RequestOrigin::Friend(from),
            BackwardsOp::Cancel(
                currency,
                CancelSendFundsOp {
                    request_id: request.request_id,
                    reporting_public_key: before.local_public_key,
                },
            ),
        ),
        IncomingMessage::Response(response) => backwards_handed(
            before,
            after,
            out_before,
            out_after,
            before.origin_of(currency, response.incoming_response.request_id),
            BackwardsOp::Response(currency, response.incoming_response),
        ),
        IncomingMessage::Cancel(cancel) => backwards_handed(
            before,
            after,
            out_before,
            out_after,
            before.origin_of(currency, cancel.incoming_cancel.request_id),
            BackwardsOp::Cancel(currency, cancel.incoming_cancel),
        ),
    }
}

/// What the operations of one currency ask for, each with the currency.
pub open spec fn group_messages(group: CurrencyOutputs) -> Seq<(Currency, IncomingMessage)> {
    group.outputs@.map_values(
        |one: crate::mutual_credit::incoming::ProcessOperationOutput|
            (group.currency, one.incoming_message),
    )
}

/// What the operations of a move token ask for, in the order of the
/// operations, each with its currency.
pub open spec fn flat_messages(groups: Seq<CurrencyOutputs>) -> Seq<(Currency, IncomingMessage)>
    decreases groups.len(),
{
    if groups.len() == 0 {
        Seq::empty()
    } else {
        flat_messages(groups.drop_last()) + group_messages(groups.last())
    }
}

/// Whether `after` and `out_after` are `before` and `out_before` with a list
/// of messages of the friend at `from` passed on, one after the other, each
/// as `message_dispatched` says, from the state that the one before it left.
pub open spec fn dispatched(
    before: RouterState,
    after: RouterState,
    out_before: RouterOutput,
    out_after: RouterOutput,
    from: usize,
    messages: Seq<(Currency, IncomingMessage)>,
) -> bool
    decreases messages.len(),
{
    if messages.len() == 0 {
        after == before && out_after == out_before
    } else {
        exists|mid: RouterState, out_mid: RouterOutput|
            dispatched(before, mid, out_before, out_mid, from, messages.drop_last())
                && #[trigger] message_dispatched(
                mid,
                after,
                out_mid,
                out_after,
                from,
                messages.last().0,
                messages.last().1,
            )
    }
}

/// One more message passed on makes a list that is one longer.
proof fn lemma_dispatched_push(
    before: RouterState,
    mid: RouterState,
    after: RouterState,
    out_before: RouterOutput,
    out_mid: RouterOutput,
    out_after: RouterOutput,
    from: usize,
    messages: Seq<(Currency, IncomingMessage)>,
    currency: Currency,
    message: IncomingMessage,
)
    requires
        dispatched(before, mid, out_before, out_mid, from, messages),
        message_dispatched(mid, after, out_mid, out_after, from, currency, message),
    ensures
        dispatched(before, after, out_before, out_after, from, messages.push((currency, message))),
{
    let more = messages.push((currency, message));
    assert(more.drop_last() =~= messages);
    assert(more.last() == (currency, message));
    assert(more.len() > 0);
    assert(dispatched(before, mid, out_before, out_mid, from, more.drop_last()));
    assert(message_dispatched(
        mid,
        after,
        out_mid,
        out_after,
        from,
        more.last().0,
        more.last().1,
    ));
}

/// Whether `after` and `out_after` are `before` and `out_before` with the
/// friend at `j` flushed as `friend_flushed` says, without forcing a move
/// token, and with the indexes of the friend's open currencies told the
/// capacities that the move token leaves, if one was composed.
pub open spec fn friend_flushed_and_reported<F: Fn(&Vec<u8>) -> Signature>(
    before: RouterState,
    after: RouterState,
    out_before: RouterOutput,
    out_after: RouterOutput,
    j: usize,
    rand_nonce: RandValue,
    signer: &F,
) -> bool {
    exists|out_mid: RouterOutput|
        #[trigger] friend_flushed(
            before,
            after,
            out_before,
            out_mid,
            j,
            rand_nonce,
            false,
            signer,
        ) && if before.friends@[j as int].is_online
            && before.friends@[j as int].token_channel.is_consistent_in()
            && !after.friends@[j as int].token_channel.is_consistent_in() {
            &&& out_after.friends_messages == out_mid.friends_messages
            &&& out_after.app_events == out_mid.app_events
            &&& out_after.index_mutations@ == out_mid.index_mutations@ + after.friends@[j as int].open_reports(
                after.friends@[j as int].currency_configs.keys().len() as int,
            )
        } else {
            out_after == out_mid
        }
}

/// Whether `after` and `out_after` are `before` and `out_before` with the
/// first `upto` friends flushed, one after the other in the order in which
/// they are listed, each as `friend_flushed_and_reported` says, from the
/// state that the one before it left.
pub open spec fn flushed_all<F: Fn(&Vec<u8>) -> Signature>(
    before: RouterState,
    after: RouterState,
    out_before: RouterOutput,
    out_after: RouterOutput,
    upto: int,
    rand_nonce: RandValue,
    signer: &F,
) -> bool
    decreases upto,
{
    if upto <= 0 {
        after == before && out_after == out_before
    } else {
        exists|mid: RouterState, out_mid: RouterOutput|
            flushed_all(before, mid, out_before, out_mid, upto - 1, rand_nonce, signer)
                && #[trigger] friend_flushed_and_reported(
                mid,
                after,
                out_mid,
                out_after,
                (upto - 1) as usize,
                rand_nonce,
                signer,
            )
    }
}

impl RouterState {
    /// The fee that the local node kept of a payment whose response came
    /// back.
    fn fee_kept(&self, currency: &Currency, message: &IncomingMessage) -> (kept: u128)
        requires
            self.wf(),
        ensures
            kept == kept_fee(*self, *currency, *message),
    {
        match message {
            IncomingMessage::Response(response) => {
                match self.find_request_origin(currency, &response.incoming_response.request_id) {
                    RequestOrigin::Friend(k) => {
                        let brought = self.friends[k].get_remote_fees(
                            currency,
                            &response.incoming_response.request_id,
                        );
                        if brought >= response.pending_transaction.left_fees {
                            brought - response.pending_transaction.left_fees
                        } else {
                            0
                        }
                    },
                    _ => 0,
                }
            },
            _ => 0,
        }
    }

    /// Counts the fee that the local node kept of one message of a friend.
    fn count_fee(&mut self, from: usize, currency: &Currency, message: &IncomingMessage)
        requires
            old(self).wf(),
            from < old(self).friends@.len(),
        ensures
            final(self).wf(),
            fee_counted(*old(self), *final(self), from as int, *currency, *message),
            final(self).local_public_key == old(self).local_public_key,
            final(self).max_operations_in_batch == old(self).max_operations_in_batch,
            final(self).local_requests == old(self).local_requests,
            same_but_fees(old(self).friends@, final(self).friends@),
            forall|j: int|
                0 <= j < old(self).friends@.len() && j != from ==> final(self).friends@[j] == old(
                    self,
                ).friends@[j],
    {
        let kept = self.fee_kept(currency, message);
        if kept > 0 {
            let ghost before = self.friends@;
            self.friends[from].token_channel.keep_fee(currency, kept);
            proof {
                lemma_friend_updated(before, self.friends@, from as int, self.local_public_key);
            }
        }
    }

    /// Counts the fees that the local node kept of the payments whose
    /// responses came with a move token of a friend, in the order of the
    /// operations.
    fn count_fees(&mut self, from: usize, groups: &Vec<CurrencyOutputs>)
        requires
            old(self).wf(),
            from < old(self).friends@.len(),
        ensures
            final(self).wf(),
            fees_counted(*old(self), *final(self), from as int, flat_messages(groups@)),
            final(self).local_public_key == old(self).local_public_key,
            final(self).max_operations_in_batch == old(self).max_operations_in_batch,
            final(self).local_requests == old(self).local_requests,
            same_but_fees(old(self).friends@, final(self).friends@),
            forall|j: int|
                0 <= j < old(self).friends@.len() && j != from ==> final(self).friends@[j] == old(
                    self,
                ).friends@[j],
    {
        let ghost all = groups@;
        let mut k: usize = 0;
        proof {
            assert(all.take(0) =~= Seq::<CurrencyOutputs>::empty());
        }
        while k < groups.len()
            invariant
                self.wf(),
                from < self.friends@.len(),
                all == groups@,
                0 <= k <= all.len(),
                fees_counted(*old(self), *self, from as int, flat_messages(all.take(k as int))),
                self.local_public_key == old(self).local_public_key,
                self.max_operations_in_batch == old(self).max_operations_in_batch,
                self.local_requests == old(self).local_requests,
                same_but_fees(old(self).friends@, self.friends@),
                forall|j: int|
                    0 <= j < old(self).friends@.len() && j != from ==> self.friends@[j] == old(
                        self,
                    ).friends@[j],
            decreases all.len() - k,
        {
            let group = &groups[k];
            let ghost whole = *group;
            let ghost before_group = flat_messages(all.take(k as int));
            let ghost in_group = group_messages(whole);
            proof {
                assert(all.take(k + 1).drop_last() =~= all.take(k as int));
                assert(all.take(k + 1).last() == whole);
                assert(before_group + in_group.take(0) =~= before_group);
            }
            let mut m: usize = 0;
            while m < group.outputs.len()
                invariant
                    self.wf(),
                    from < self.friends@.len(),
                    whole == *group,
                    in_group == group_messages(whole),
                    0 <= m <= whole.outputs@.len(),
                    fees_counted(
                        *old(self),
                        *self,
                        from as int,
                        before_group + in_group.take(m as int),
                    ),
                    self.local_public_key == old(self).local_public_key,
                    self.max_operations_in_batch == old(self).max_operations_in_batch,
                    self.local_requests == old(self).local_requests,
                    same_but_fees(old(self).friends@, self.friends@),
                    forall|j: int|
                        0 <= j < old(self).friends@.len() && j != from ==> self.friends@[j] == old(
                            self,
                        ).friends@[j],
                decreases whole.outputs@.len() - m,
            {
                let ghost mid = *self;
                let ghost message = group.outputs@[m as int].incoming_message;
                self.count_fee(from, &group.currency, &group.outputs[m].incoming_message);
                proof {
                    assert(in_group[m as int] == (whole.currency, message));
                    lemma_fees_counted_push(
                        *old(self),
                        mid,
                        *self,
                        from as int,
                        before_group + in_group.take(m as int),
                        whole.currency,
                        message,
                    );
                    assert((before_group + in_group.take(m as int)).push((whole.currency, message))
                        =~= before_group + in_group.take(m + 1));
                    assert forall|j: int| 0 <= j < old(self).friends@.len() implies ({
                        &&& (#[trigger] self.friends@[j]).public_key == old(self).friends@[j].public_key
                        &&& self.friends@[j].token_channel.status == old(self).friends@[j].token_channel.status
                    }) by {
                        assert(mid.friends@[j].public_key == old(self).friends@[j].public_key);
                    }
                }
                m += 1;
            }
            proof {
                assert(in_group.take(m as int) =~= in_group);
                assert(flat_messages(all.take(k + 1)) == before_group + in_group);
            }
            k += 1;
        }
        proof {
            assert(all.take(k as int) =~= all);
        }
    }
}

impl RouterState {
    /// Passes on what one accepted operation asks for: a request goes where
    /// `forward_decision` says, a request whose fees do not cover the local
    /// node's is cancelled toward the friend that sent it, a response or a
    /// cancel goes to where its request came from.
    fn dispatch_message(
        &mut self,
        from: usize,
        currency: Currency,
        message: IncomingMessage,
        output: &mut RouterOutput,
    )
        requires
            old(self).wf(),
            from < old(self).friends@.len(),
        ensures
            final(self).wf(),
            message_dispatched(
                *old(self),
                *final(self),
                *old(output),
                *final(output),
                from,
                currency,
                message,
            ),
            final(self).local_public_key == old(self).local_public_key,
            final(self).max_operations_in_batch == old(self).max_operations_in_batch,
            same_channels(old(self).friends@, final(self).friends@),
            final(output).friends_messages == old(output).friends_messages,
            final(output).index_mutations == old(output).index_mutations,
    {
        match message {
            IncomingMessage::Request(request) => {
                self.handle_incoming_request(from, currency, request, output);
            },
            IncomingMessage::RequestCancel(request) => {
                self.queue_backwards(
                    RequestOrigin::Friend(from),
                    BackwardsOp::Cancel(
                        currency,
                        CancelSendFundsOp {
                            request_id: request.request_id,
                            reporting_public_key: self.local_public_key,
                        },
                    ),
                    output,
                );
            },
            IncomingMessage::Response(response) => {
                let origin = self.find_request_origin(
                    &currency,
                    &response.incoming_response.request_id,
                );
                self.queue_backwards(
                    origin,
                    BackwardsOp::Response(currency, response.incoming_response),
                    output,
                );
            },
            IncomingMessage::Cancel(cancel) => {
                let origin = self.find_request_origin(&currency, &cancel.incoming_cancel.request_id);
                self.queue_backwards(
                    origin,
                    BackwardsOp::Cancel(currency, cancel.incoming_cancel),
                    output,
                );
            },
        }
    }

    /// Passes on what the operations of an accepted move token ask for, in
    /// the order of the operations.
    fn dispatch_incoming(
        &mut self,
        from: usize,
        currency_outputs: Vec<CurrencyOutputs>,
        output: &mut RouterOutput,
    )
        requires
            old(self).wf(),
            from < old(self).friends@.len(),
        ensures
            final(self).wf(),
            dispatched(
                *old(self),
                *final(self),
                *old(output),
                *final(output),
                from,
                flat_messages(currency_outputs@),
            ),
            final(self).local_public_key == old(self).local_public_key,
            final(self).max_operations_in_batch == old(self).max_operations_in_batch,
            same_channels(old(self).friends@, final(self).friends@),
            final(output).friends_messages == old(output).friends_messages,
            final(output).index_mutations == old(output).index_mutations,
    {
        let ghost all = currency_outputs@;
        let ghost mut taken: int = 0;
        let mut groups = currency_outputs;
        proof {
            assert(all.skip(0) =~= all);
            assert(all.take(0) =~= Seq::<CurrencyOutputs>::empty());
        }
        while groups.len() > 0
            invariant
                self.wf(),
                from < self.friends@.len(),
                0 <= taken <= all.len(),
                groups@ == all.skip(taken),
                dispatched(
                    *old(self),
                    *self,
                    *old(output),
                    *output,
                    from,
                    flat_messages(all.take(taken)),
                ),
                self.local_public_key == old(self).local_public_key,
                self.max_operations_in_batch == old(self).max_operations_in_batch,
                same_channels(old(self).friends@, self.friends@),
                output.friends_messages == old(output).friends_messages,
                output.index_mutations == old(output).index_mutations,
            decreases groups@.len(),
        {
            let group = groups.remove(0);
            let ghost whole = group;
            let ghost before_group = flat_messages(all.take(taken));
            let ghost in_group = group_messages(whole);
            let ghost mut passed: int = 0;
            proof {
                assert(whole == all[taken]);
                assert(groups@ =~= all.skip(taken + 1));
                assert(all.take(taken + 1).drop_last() =~= all.take(taken));
                assert(all.take(taken + 1).last() == whole);
                assert(before_group + in_group.take(0) =~= before_group);
            }
            let currency = group.currency;
            let mut outputs = group.outputs;
            while outputs.len() > 0
                invariant
                    self.wf(),
                    from < self.friends@.len(),
                    currency == whole.currency,
                    in_group == group_messages(whole),
                    0 <= passed <= whole.outputs@.len(),
                    outputs@ == whole.outputs@.skip(passed),
                    dispatched(
                        *old(self),
                        *self,
                        *old(output),
                        *output,
                        from,
                        before_group + in_group.take(passed),
                    ),
                    self.local_public_key == old(self).local_public_key,
                    self.max_operations_in_batch == old(self).max_operations_in_batch,
                    same_channels(old(self).friends@, self.friends@),
                    output.friends_messages == old(output).friends_messages,
                    output.index_mutations == old(output).index_mutations,
                decreases outputs@.len(),
            {
                let one = outputs.remove(0);
                let ghost message = one.incoming_message;
                let ghost mid = *self;
                let ghost out_mid = *output;
                proof {
                    assert(one == whole.outputs@[passed]);
                    assert(outputs@ =~= whole.outputs@.skip(passed + 1));
                    assert(in_group[passed] == (currency, message));
                }
                self.dispatch_message(from, currency, one.incoming_message, output);
                proof {
                    lemma_dispatched_push(
                        *old(self),
                        mid,
                        *self,
                        *old(output),
                        out_mid,
                        *output,
                        from,
                        before_group + in_group.take(passed),
                        currency,
                        message,
                    );
                    assert((before_group + in_group.take(passed)).push((currency, message))
                        =~= before_group + in_group.take(passed + 1));
                    assert forall|j: int| 0 <= j < old(self).friends@.len() implies
                        same_friend_but_queues(old(self).friends@[j], #[trigger] self.friends@[j]) by {
                        assert(same_friend_but_queues(old(self).friends@[j], mid.friends@[j]));
                        assert(same_friend_but_queues(mid.friends@[j], self.friends@[j]));
                    }
                    passed = passed + 1;
                }
            }
            proof {
                assert(in_group.take(passed) =~= in_group);
                assert(flat_messages(all.take(taken + 1)) == before_group + in_group);
                taken = taken + 1;
            }
        }
        proof {
            assert(all.take(taken) =~= all);
        }
    }

    /// Cleans up around a channel that froze: the application is told, the
    /// index of every open currency of the friend is told that the friend is
    /// gone, every request that was pending over the channel or waits to be
    /// sent over it is cancelled toward where it came from, and the responses
    /// and cancels that wait to be sent over it are dropped.
    fn clean_frozen_channel(
        &mut self,
        friend_index: usize,
        lost_requests: Vec<LostRequest>,
        output: &mut RouterOutput,
    )
        requires
            old(self).wf(),
            friend_index < old(self).friends@.len(),
        ensures
            final(self).wf(),
            final(self).local_public_key == old(self).local_public_key,
            final(self).max_operations_in_batch == old(self).max_operations_in_batch,
            same_channels(old(self).friends@, final(self).friends@),
            final(self).friends@[friend_index as int].pending_requests@.len() == 0,
            final(self).friends@[friend_index as int].pending_user_requests@.len() == 0,
            final(output).friends_messages == old(output).friends_messages,
            final(output).app_events@.len() > old(output).app_events@.len(),
            final(output).app_events@[old(output).app_events@.len() as int]
                == AppEvent::ChannelInconsistent(old(self).friends@[friend_index as int].public_key),
    {
        let friend_public_key = self.friends[friend_index].public_key;
        output.add_app_event(AppEvent::ChannelInconsistent(friend_public_key));
        let ghost events = output.app_events@;
        // Every open currency leaves the index:
        let n = self.friends[friend_index].currency_configs.len();
        let mut k: usize = 0;
        while k < n
            invariant
                0 <= k <= n,
                *self == *old(self),
                self.wf(),
                friend_index < self.friends@.len(),
                n == self.friends@[friend_index as int].currency_configs.keys().len(),
                output.friends_messages == old(output).friends_messages,
                output.app_events@ == events,
            decreases n - k,
        {
            let configs = &self.friends[friend_index].currency_configs;
            if configs.value_at(k).is_open {
                output.add_index_mutation(
                    CurrencyIndexMutation {
                        currency: configs.key_at(k),
                        index_mutation: IndexMutation::RemoveFriend(friend_public_key),
                    },
                );
            }
            k += 1;
        }
        // What waits to be sent over the channel:
        let ghost before = self.friends@;
        let mut forwarded: Vec<McRequest> = Vec::new();
        core::mem::swap(&mut self.friends[friend_index].pending_requests, &mut forwarded);
        let mut user: Vec<McRequest> = Vec::new();
        core::mem::swap(&mut self.friends[friend_index].pending_user_requests, &mut user);
        self.friends[friend_index].pending_backwards_ops = Vec::new();
        proof {
            assert(self.friends@ =~= before.update(
                friend_index as int,
                self.friends@[friend_index as int],
            ));
            lemma_friend_updated(
                before,
                self.friends@,
                friend_index as int,
                self.local_public_key,
            );
        }
        let ghost emptied = self.friends@;
        let mut lost = lost_requests;
        while lost.len() > 0
            invariant
                self.wf(),
                self.local_public_key == old(self).local_public_key,
                self.max_operations_in_batch == old(self).max_operations_in_batch,
                self.friends@.len() == emptied.len(),
                forall|j: int|
                    0 <= j < emptied.len() ==> same_friend_but_backwards(
                        emptied[j],
                        #[trigger] self.friends@[j],
                    ),
                output.friends_messages == old(output).friends_messages,
                output.app_events@.len() >= events.len(),
                output.app_events@.take(events.len() as int) == events,
            decreases lost@.len(),
        {
            let request = lost.remove(0);
            let ghost mid = self.friends@;
            let ghost mid_events = output.app_events@;
            self.cancel_lost(&request.currency, &request.request_id, output);
            proof {
                assert forall|j: int| 0 <= j < emptied.len() implies same_friend_but_backwards(
                    emptied[j],
                    #[trigger] self.friends@[j],
                ) by {
                    assert(same_friend_but_backwards(emptied[j], mid[j]));
                }
                assert(output.app_events@.take(events.len() as int) =~= mid_events.take(
                    events.len() as int,
                ));
            }
        }
        while forwarded.len() > 0
            invariant
                self.wf(),
                self.local_public_key == old(self).local_public_key,
                self.max_operations_in_batch == old(self).max_operations_in_batch,
                self.friends@.len() == emptied.len(),
                forall|j: int|
                    0 <= j < emptied.len() ==> same_friend_but_backwards(
                        emptied[j],
                        #[trigger] self.friends@[j],
                    ),
                output.friends_messages == old(output).friends_messages,
                output.app_events@.len() >= events.len(),
                output.app_events@.take(events.len() as int) == events,
            decreases forwarded@.len(),
        {
            let request = forwarded.remove(0);
            let ghost mid = self.friends@;
            let ghost mid_events = output.app_events@;
            self.cancel_lost(&request.currency, &request.request.request_id, output);
            proof {
                assert forall|j: int| 0 <= j < emptied.len() implies same_friend_but_backwards(
                    emptied[j],
                    #[trigger] self.friends@[j],
                ) by {
                    assert(same_friend_but_backwards(emptied[j], mid[j]));
                }
                assert(output.app_events@.take(events.len() as int) =~= mid_events.take(
                    events.len() as int,
                ));
            }
        }
        while user.len() > 0
            invariant
                self.wf(),
                self.local_public_key == old(self).local_public_key,
                self.max_operations_in_batch == old(self).max_operations_in_batch,
                self.friends@.len() == emptied.len(),
                forall|j: int|
                    0 <= j < emptied.len() ==> same_friend_but_backwards(
                        emptied[j],
                        #[trigger] self.friends@[j],
                    ),
                output.friends_messages == old(output).friends_messages,
                output.app_events@.len() >= events.len(),
                output.app_events@.take(events.len() as int) == events,
            decreases user@.len(),
        {
            let request = user.remove(0);
            let ghost mid = self.friends@;
            let ghost mid_events = output.app_events@;
            self.cancel_lost(&request.currency, &request.request.request_id, output);
            proof {
                assert forall|j: int| 0 <= j < emptied.len() implies same_friend_but_backwards(
                    emptied[j],
                    #[trigger] self.friends@[j],
                ) by {
                    assert(same_friend_but_backwards(emptied[j], mid[j]));
                }
                assert(output.app_events@.take(events.len() as int) =~= mid_events.take(
                    events.len() as int,
                ));
            }
        }
        proof {
            assert(same_friend_but_backwards(
                emptied[friend_index as int],
                self.friends@[friend_index as int],
            ));
            assert(output.app_events@[events.len() - 1] == output.app_events@.take(
                events.len() as int,
            )[events.len() - 1]);
            assert forall|j: int| 0 <= j < old(self).friends@.len() implies same_friend_but_queues(
                old(self).friends@[j],
                #[trigger] self.friends@[j],
            ) by {
                assert(same_friend_but_backwards(emptied[j], self.friends@[j]));
            }
        }
    }

    /// Cleans up around a channel that froze, as `clean_frozen_channel` does,
    /// and sends the local reset terms.
    fn channel_froze(
        &mut self,
        friend_index: usize,
        lost_requests: Vec<LostRequest>,
        output: &mut RouterOutput,
    )
        requires
            old(self).wf(),
            friend_index < old(self).friends@.len(),
        ensures
            final(self).wf(),
            final(self).local_public_key == old(self).local_public_key,
            final(self).max_operations_in_batch == old(self).max_operations_in_batch,
            same_channels(old(self).friends@, final(self).friends@),
            final(self).friends@[friend_index as int].pending_requests@.len() == 0,
            final(self).friends@[friend_index as int].pending_user_requests@.len() == 0,
            final(output).friends_messages@ == old(output).friends_messages@.push(
                crate::router::FriendOutput {
                    friend_public_key: old(self).friends@[friend_index as int].public_key,
                    send: FriendSend::ResetTerms,
                },
            ),
            final(output).app_events@.len() > old(output).app_events@.len(),
            final(output).app_events@[old(output).app_events@.len() as int]
                == AppEvent::ChannelInconsistent(old(self).friends@[friend_index as int].public_key),
    {
        let friend_public_key = self.friends[friend_index].public_key;
        self.clean_frozen_channel(friend_index, lost_requests, output);
        output.add_friend_message(friend_public_key, FriendSend::ResetTerms);
    }

    /// Gives up a request that hung on a channel: a cancel that names the
    /// local node goes to where the request came from, as `backwards_handed`
    /// says. What the application was told before stays in front.
    pub(crate) fn cancel_lost(
        &mut self,
        currency: &Currency,
        request_id: &crate::types::Uid,
        output: &mut RouterOutput,
    )
        requires
            old(self).wf(),
        ensures
            final(self).wf(),
            backwards_handed(
                *old(self),
                *final(self),
                *old(output),
                *final(output),
                old(self).origin_of(*currency, *request_id),
                BackwardsOp::Cancel(
                    *currency,
                    CancelSendFundsOp {
                        request_id: *request_id,
                        reporting_public_key: old(self).local_public_key,
                    },
                ),
            ),
            final(self).local_public_key == old(self).local_public_key,
            final(self).max_operations_in_batch == old(self).max_operations_in_batch,
            final(self).friends@.len() == old(self).friends@.len(),
            final(output).friends_messages == old(output).friends_messages,
            final(output).index_mutations == old(output).index_mutations,
            final(output).app_events@.len() >= old(output).app_events@.len(),
            final(output).app_events@.take(old(output).app_events@.len() as int) == old(output).app_events@,
            forall|j: int|
                0 <= j < old(self).friends@.len() ==> same_friend_but_backwards(
                    old(self).friends@[j],
                    #[trigger] final(self).friends@[j],
                ),
    {
        let origin = self.find_request_origin(currency, request_id);
        let ghost events = output.app_events@;
        self.queue_backwards(
            origin,
            BackwardsOp::Cancel(
                *currency,
                CancelSendFundsOp {
                    request_id: *request_id,
                    reporting_public_key: self.local_public_key,
                },
            ),
            output,
        );
        proof {
            assert(output.app_events@.take(events.len() as int) =~= events);
        }
    }

    /// Sends to every friend what waits for it, in the order in which the
    /// friends are listed, as `flushed_all` says: each friend is flushed as
    /// `flush_friend` does, without forcing a move token, and after a move
    /// token for a friend is composed, the indexes of the friend's open
    /// currencies are told the capacities that it leaves.
    pub fn flush_all<F: Fn(&Vec<u8>) -> Signature>(
        &mut self,
        rand_nonce: RandValue,
        signer: &F,
        output: &mut RouterOutput,
    )
        requires
            old(self).wf(),
            forall|buffer: &Vec<u8>| signer.requires((buffer,)),
        ensures
            final(self).wf(),
            flushed_all(
                *old(self),
                *final(self),
                *old(output),
                *final(output),
                old(self).friends@.len() as int,
                rand_nonce,
                signer,
            ),
            final(self).local_public_key == old(self).local_public_key,
            final(self).max_operations_in_batch == old(self).max_operations_in_batch,
            final(self).friends@.len() == old(self).friends@.len(),
            forall|j: int|
                0 <= j < old(self).friends@.len() ==> {
                    &&& (#[trigger] final(self).friends@[j]).public_key == old(self).friends@[j].public_key
                    &&& final(self).friends@[j].currency_configs == old(self).friends@[j].currency_configs
                    &&& final(self).friends@[j].is_online == old(self).friends@[j].is_online
                    &&& final(self).friends@[j].token_channel.local_max_debts == old(self).friends@[j].token_channel.local_max_debts
                    &&& final(self).friends@[j].token_channel.remote_max_debts == old(self).friends@[j].token_channel.remote_max_debts
                    &&& !(old(self).friends@[j].is_online && old(self).friends@[j].token_channel.is_consistent_in()) ==> final(self).friends@[j].token_channel == old(self).friends@[j].token_channel
                },
    {
        let n = self.friends.len();
        let mut j: usize = 0;
        while j < n
            invariant
                0 <= j <= n,
                n == self.friends@.len(),
                n == old(self).friends@.len(),
                self.wf(),
                flushed_all(*old(self), *self, *old(output), *output, j as int, rand_nonce, signer),
                self.local_public_key == old(self).local_public_key,
                self.max_operations_in_batch == old(self).max_operations_in_batch,
                forall|k: int|
                    0 <= k < n ==> {
                        &&& (#[trigger] self.friends@[k]).public_key == old(self).friends@[k].public_key
                        &&& self.friends@[k].currency_configs == old(self).friends@[k].currency_configs
                        &&& self.friends@[k].is_online == old(self).friends@[k].is_online
                        &&& self.friends@[k].token_channel.local_max_debts == old(self).friends@[k].token_channel.local_max_debts
                        &&& self.friends@[k].token_channel.remote_max_debts == old(self).friends@[k].token_channel.remote_max_debts
                    },
                forall|k: int|
                    0 <= k < j && !(old(self).friends@[k].is_online && old(self).friends@[k].token_channel.is_consistent_in()) ==> (
                    #[trigger] self.friends@[k]).token_channel == old(self).friends@[k].token_channel,
                forall|k: int|
                    j <= k < n ==> (#[trigger] self.friends@[k]).token_channel == old(self).friends@[k].token_channel,
                forall|buffer: &Vec<u8>| signer.requires((buffer,)),
            decreases n - j,
        {
            let held = self.friends[j].is_online && self.friends[j].token_channel.holds_token();
            let ghost before = self.friends@;
            let ghost mid = *self;
            let ghost out_mid = *output;
            self.flush_friend(j, rand_nonce, false, signer, output);
            let ghost out_flushed = *output;
            proof {
                assert forall|k: int| 0 <= k < n && k != j implies (
                #[trigger] self.friends@[k]).token_channel == before[k].token_channel by {
                    assert(same_friend_but_backwards(before[k], self.friends@[k]));
                }
                if !held {
                    assert(self.friends@[j as int] == before[j as int]);
                }
            }
            if held && !self.friends[j].token_channel.holds_token() {
                self.friends[j].report_open_currencies(output);
            }
            proof {
                assert(friend_flushed(
                    mid,
                    *self,
                    out_mid,
                    out_flushed,
                    j,
                    rand_nonce,
                    false,
                    signer,
                ));
                assert(friend_flushed_and_reported(
                    mid,
                    *self,
                    out_mid,
                    *output,
                    j,
                    rand_nonce,
                    signer,
                ));
                assert(((j + 1) - 1) as usize == j);
                assert(friend_flushed_and_reported(
                    mid,
                    *self,
                    out_mid,
                    *output,
                    ((j + 1) - 1) as usize,
                    rand_nonce,
                    signer,
                ));
                assert(flushed_all(
                    *old(self),
                    mid,
                    *old(output),
                    out_mid,
                    (j + 1) - 1,
                    rand_nonce,
                    signer,
                ));
                assert(flushed_all(
                    *old(self),
                    *self,
                    *old(output),
                    *output,
                    j + 1,
                    rand_nonce,
                    signer,
                ));
            }
            j += 1;
        }
    }
}

/// Whether `rates` holds what the local node charges a friend in each
/// configured currency.
pub open spec fn rates_of(friend: Friend, rates: CurrencyMap<Rate>) -> bool {
    &&& rates.wf()
    &&& rates.keys() == friend.currency_configs.keys()
    &&& rates.values().len() == friend.currency_configs.values().len()
    &&& forall|k: int|
        0 <= k < rates.values().len() ==> #[trigger] rates.values()[k]
            == friend.currency_configs.values()[k].rate
}

/// Whether `terms` are the reset terms that a message proposes: each
/// currency that is listed, with the balance of its last entry.
pub open spec fn terms_of(message: ResetTermsMessage, terms: ResetTerms) -> bool {
    &&& terms.reset_balances.wf()
    &&& terms.reset_token == message.reset_token
    &&& terms.move_token_counter == message.move_token_counter
    &&& forall|c: Currency|
        terms.reset_balances.contains(c) == (exists|k: int|
            0 <= k < message.reset_balances@.len() && (
            #[trigger] message.reset_balances@[k]).currency == c)
    &&& forall|k: int|
        0 <= k < message.reset_balances@.len() && is_last_entry(message.reset_balances@, k)
            ==> terms.reset_balances.value_of((#[trigger] message.reset_balances@[k]).currency)
            == message.reset_balances@[k].reset_balance
}

/// Whether the channel with the friend at `i` is, in `after`, what the
/// friend's message makes of the channel in `before`.
///
/// A move token is handled as `move_token_handled` says, charged at the
/// rates that are configured for the friend, and then the fees that the
/// local node kept of the payments whose responses it brought are counted,
/// as `fees_counted` says; if the move token was accepted, what it asks for
/// is passed on as `accepted_passed_on` says. Reset terms are handled as
/// `reset_terms_handled` says, and then taken up, if the local side is the
/// one to send first, as `reset_terms_accepted` says. An update of relays
/// leaves the channel as it is.
pub open spec fn channel_received<F: Fn(&Vec<u8>) -> Signature>(
    before: RouterState,
    after: RouterState,
    out_before: RouterOutput,
    out_after: RouterOutput,
    i: int,
    message: FriendMessage,
    signer: &F,
    flush: bool,
) -> bool {
    let friend = before.friends@[i];
    let channel = after.friends@[i].token_channel;
    match message {
        FriendMessage::MoveTokenRequest(request) => exists|
            output: ReceiveMoveTokenOutput,
            rates: CurrencyMap<Rate>,
            handled: RouterState,
            counted: RouterState,
        |
            rates_of(friend, rates) && channel_replaced(before, handled, i)
                && #[trigger] move_token_handled(
                friend.token_channel,
                handled.friends@[i].token_channel,
                output,
                request.move_token,
                rates,
                before.local_public_key,
                friend.public_key,
                signer,
            ) && #[trigger] fees_counted(handled, counted, i, received_messages(output))
                && channel == counted.friends@[i].token_channel && flush
                == flush_after_move_token(output, request.token_wanted) && (output matches ReceiveMoveTokenOutput::Received(
                accepted,
            ) ==> accepted_passed_on(
                counted,
                after,
                out_before,
                out_after,
                i,
                request.token_wanted,
                friend.token_channel.status is Inconsistent,
                accepted,
            )),
        FriendMessage::InconsistencyError(proposed) => exists|
            terms: ResetTerms,
            mid: crate::token_channel::TokenChannel,
            output: ResetTermsOutput,
            accepted: bool,
        |
            terms_of(proposed, terms) && #[trigger] reset_terms_handled(
                friend.token_channel,
                mid,
                output,
                terms,
                before.local_public_key,
                friend.public_key,
                signer,
            ) && #[trigger] reset_terms_accepted(mid, channel, accepted) && flush == (
            output is Frozen || accepted),
        FriendMessage::RelaysUpdate(_) => channel == friend.token_channel && !flush,
    }
}

/// Whether `handled` is `before` with another channel for the friend at
/// `i`, and nothing else changed.
pub open spec fn channel_replaced(before: RouterState, handled: RouterState, i: int) -> bool {
    &&& handled.local_public_key == before.local_public_key
    &&& handled.max_operations_in_batch == before.max_operations_in_batch
    &&& handled.local_requests == before.local_requests
    &&& handled.friends@.len() == before.friends@.len()
    &&& forall|j: int|
        0 <= j < before.friends@.len() && j != i ==> handled.friends@[j] == before.friends@[j]
    &&& handled.friends@[i].public_key == before.friends@[i].public_key
    &&& handled.friends@[i].currency_configs == before.friends@[i].currency_configs
    &&& handled.friends@[i].pending_backwards_ops == before.friends@[i].pending_backwards_ops
    &&& handled.friends@[i].pending_requests == before.friends@[i].pending_requests
    &&& handled.friends@[i].pending_user_requests == before.friends@[i].pending_user_requests
    &&& handled.friends@[i].is_online == before.friends@[i].is_online
    &&& handled.friends@[i].token_wanted == before.friends@[i].token_wanted
}

/// What the operations of a move token ask for, if the move token was
/// accepted: nothing if it was not.
pub open spec fn received_messages(output: ReceiveMoveTokenOutput) -> Seq<(Currency, IncomingMessage)> {
    match output {
        ReceiveMoveTokenOutput::Received(accepted) => flat_messages(accepted.currency_outputs@),
        _ => Seq::empty(),
    }
}

/// Whether `after` and `out_after` are what becomes of `counted` and
/// `out_before` after a move token of the friend at `i` was accepted and the
/// fees were counted: the friend's wish for the token is noted; the
/// application is told that the channel restarted, if it was frozen, and of
/// the friend's relays, if the token names any; what the operations ask for
/// is passed on, as `dispatched` says; and the indexes of the friend's open
/// currencies are told the capacities that are left.
pub open spec fn accepted_passed_on(
    counted: RouterState,
    after: RouterState,
    out_before: RouterOutput,
    out_after: RouterOutput,
    i: int,
    token_wanted: bool,
    was_inconsistent: bool,
    accepted: MoveTokenReceived,
) -> bool {
    exists|prepared: RouterState, out_prepared: RouterOutput, out_passed: RouterOutput|
        {
            &&& friend_replaced(
                counted,
                prepared,
                i,
                (Friend { token_wanted, ..counted.friends@[i] }),
            )
            &&& out_prepared.friends_messages == out_before.friends_messages
            &&& out_prepared.index_mutations == out_before.index_mutations
            &&& out_prepared.app_events@ == out_before.app_events@ + (if was_inconsistent {
                seq![AppEvent::ChannelConsistent(counted.friends@[i].public_key)]
            } else {
                Seq::empty()
            }) + (match accepted.opt_remote_relays {
                Some(relays) => seq![AppEvent::RelaysUpdate(counted.friends@[i].public_key, relays)],
                None => Seq::empty(),
            })
            &&& #[trigger] dispatched(
                prepared,
                after,
                out_prepared,
                out_passed,
                i as usize,
                flat_messages(accepted.currency_outputs@),
            )
            &&& out_after.friends_messages == out_passed.friends_messages
            &&& out_after.app_events == out_passed.app_events
            &&& out_after.index_mutations@ == out_passed.index_mutations@
                + after.friends@[i].open_reports(
                after.friends@[i].currency_configs.keys().len() as int,
            )
        }
}

/// The parts of `accepted_passed_on`, put together.
proof fn lemma_accepted_passed_on(
    counted: RouterState,
    prepared: RouterState,
    after: RouterState,
    out_before: RouterOutput,
    out_prepared: RouterOutput,
    out_passed: RouterOutput,
    out_after: RouterOutput,
    i: int,
    token_wanted: bool,
    was_inconsistent: bool,
    accepted: MoveTokenReceived,
)
    requires
        friend_replaced(counted, prepared, i, (Friend { token_wanted, ..counted.friends@[i] })),
        out_prepared.friends_messages == out_before.friends_messages,
        out_prepared.index_mutations == out_before.index_mutations,
        out_prepared.app_events@ == out_before.app_events@ + (if was_inconsistent {
            seq![AppEvent::ChannelConsistent(counted.friends@[i].public_key)]
        } else {
            Seq::empty()
        }) + (match accepted.opt_remote_relays {
            Some(relays) => seq![AppEvent::RelaysUpdate(counted.friends@[i].public_key, relays)],
            None => Seq::empty(),
        }),
        dispatched(
            prepared,
            after,
            out_prepared,
            out_passed,
            i as usize,
            flat_messages(accepted.currency_outputs@),
        ),
        out_after.friends_messages == out_passed.friends_messages,
        out_after.app_events == out_passed.app_events,
        out_after.index_mutations@ == out_passed.index_mutations@
            + after.friends@[i].open_reports(
            after.friends@[i].currency_configs.keys().len() as int,
        ),
    ensures
        accepted_passed_on(
            counted,
            after,
            out_before,
            out_after,
            i,
            token_wanted,
            was_inconsistent,
            accepted,
        ),
{
}

/// Whether there is something to send after a move token: after one that
/// was accepted, after one that froze the channel, and after one that came
/// a second time and asks for the token.
pub open spec fn flush_after_move_token(output: ReceiveMoveTokenOutput, token_wanted: bool) -> bool {
    match output {
        ReceiveMoveTokenOutput::Duplicate => token_wanted,
        ReceiveMoveTokenOutput::RetransmitOutgoing => false,
        ReceiveMoveTokenOutput::Received(_) => true,
        ReceiveMoveTokenOutput::ChainInconsistent(_) => true,
        ReceiveMoveTokenOutput::ResetRefused(_) => false,
    }
}

/// Whether `after`, `out_after` and `flush` are what a message of the
/// friend at `i` makes of `before` and `out_before` when it is taken in.
///
/// The channel with the friend is what `channel_received` says, and `flush`
/// says whether there is something to send. Of the friend, the key, the
/// configuration and whether it can be reached stay; of the other friends,
/// everything but the queues. An update of relays is handed to the
/// application and changes nothing else. A move token that came before and
/// does not ask for the token changes nothing at all.
pub open spec fn message_received<F: Fn(&Vec<u8>) -> Signature>(
    before: RouterState,
    after: RouterState,
    out_before: RouterOutput,
    out_after: RouterOutput,
    i: int,
    friend_public_key: PublicKey,
    message: FriendMessage,
    signer: &F,
    flush: bool,
) -> bool {
    &&& after.local_public_key == before.local_public_key
    &&& after.max_operations_in_batch == before.max_operations_in_batch
    &&& after.friends@.len() == before.friends@.len()
    &&& out_after.friends_messages@.len() >= out_before.friends_messages@.len()
    &&& channel_received(before, after, out_before, out_after, i, message, signer, flush)
    &&& after.friends@[i].public_key == friend_public_key
    &&& after.friends@[i].currency_configs == before.friends@[i].currency_configs
    &&& after.friends@[i].is_online == before.friends@[i].is_online
    &&& forall|j: int|
        0 <= j < before.friends@.len() && j != i ==> same_friend_but_queues(
            before.friends@[j],
            #[trigger] after.friends@[j],
        )
    &&& message is RelaysUpdate ==> {
        &&& after.friends@ == before.friends@
        &&& after.local_requests == before.local_requests
        &&& out_after.friends_messages == out_before.friends_messages
        &&& out_after.index_mutations == out_before.index_mutations
        &&& out_after.app_events@ == out_before.app_events@.push(
            AppEvent::RelaysUpdate(friend_public_key, message->RelaysUpdate_0),
        )
        &&& !flush
    }
    &&& duplicate_without_wish(before, friend_public_key, message) ==> {
        &&& after.friends@ == before.friends@
        &&& after.local_requests == before.local_requests
        &&& out_after == out_before
        &&& !flush
    }
}

/// Takes in a message that a friend sent, and says whether there is
/// something to send after it.
///
/// A message from a node that is not a friend changes nothing. A move token
/// goes to the friend's channel: if it is accepted, what its operations ask
/// for is passed on and the indexes of the friend's open currencies are told
/// the new capacities; if the channel freezes, what hung on the channel is
/// cancelled and the local reset terms are to be sent. Reset terms go to the
/// friend's channel too; when both sides' terms are known and the local side
/// is the one to send, it restarts the channel from the friend's terms and
/// notes that a move token must go out. Only the channel with the sender
/// changes; of the other friends, only the queues do.
pub fn receive_friend_message<F: Fn(&Vec<u8>) -> Signature>(
    router: &mut RouterState,
    friend_public_key: PublicKey,
    message: FriendMessage,
    signer: &F,
    output: &mut RouterOutput,
) -> (flush: bool)
    requires
        old(router).wf(),
        forall|buffer: &Vec<u8>| signer.requires((buffer,)),
    ensures
        final(router).wf(),
        final(router).local_public_key == old(router).local_public_key,
        final(router).max_operations_in_batch == old(router).max_operations_in_batch,
        final(router).friends@.len() == old(router).friends@.len(),
        final(output).friends_messages@.len() >= old(output).friends_messages@.len(),
        match old(router).find_friend_spec(friend_public_key) {
            None => {
                &&& *final(router) == *old(router)
                &&& *final(output) == *old(output)
                &&& !flush
            },
            Some(i) => message_received(
                *old(router),
                *final(router),
                *old(output),
                *final(output),
                i,
                friend_public_key,
                message,
                signer,
                flush,
            ),
        },
{
    let i = match router.find_friend(&friend_public_key) {
        Some(i) => i,
        None => return false,
    };
    proof {
        old(router).lemma_find_friend(i as int);
    }
    let local_public_key = router.local_public_key;
    let ghost before = router.friends@;
    match message {
        FriendMessage::MoveTokenRequest(request) => {
            let rates = router.friends[i].rates();
            let was_inconsistent = match &router.friends[i].token_channel.status {
                TcStatus::Inconsistent(_, _) => true,
                _ => false,
            };
            let received = handle_in_move_token(
                &mut router.friends[i].token_channel,
                request.move_token,
                &rates,
                &local_public_key,
                &friend_public_key,
                signer,
            );
            let ghost handled = received;
            let ghost handled_state = *router;
            let ghost mut counted = *router;
            proof {
                lemma_friend_updated(before, router.friends@, i as int, router.local_public_key);
                assert(rates_of(before[i as int], rates));
            }
            let flush = match received {
                ReceiveMoveTokenOutput::Duplicate => {
                    if request.token_wanted {
                        router.friends[i].token_wanted = true;
                        proof {
                            assert(router.friends@ =~= before.update(
                                i as int,
                                router.friends@[i as int],
                            ));
                            lemma_friend_updated(
                                before,
                                router.friends@,
                                i as int,
                                router.local_public_key,
                            );
                        }
                        true
                    } else {
                        proof {
                            assert(router.friends@[i as int] == before[i as int]);
                            assert(router.friends@ =~= before);
                        }
                        false
                    }
                },
                ReceiveMoveTokenOutput::RetransmitOutgoing => {
                    output.add_friend_message(friend_public_key, FriendSend::MoveToken(true));
                    false
                },
                ReceiveMoveTokenOutput::Received(accepted) => {
                    router.count_fees(i, &accepted.currency_outputs);
                    proof {
                        counted = *router;
                    }
                    router.friends[i].token_wanted = request.token_wanted;
                    proof {
                        assert(router.friends@ =~= before.update(
                            i as int,
                            router.friends@[i as int],
                        ));
                        lemma_friend_updated(
                            before,
                            router.friends@,
                            i as int,
                            router.local_public_key,
                        );
                    }
                    let ghost prepared = *router;
                    if was_inconsistent {
                        output.add_app_event(AppEvent::ChannelConsistent(friend_public_key));
                    }
                    match accepted.opt_remote_relays {
                        Some(relays) => {
                            output.add_app_event(AppEvent::RelaysUpdate(friend_public_key, relays));
                        },
                        None => {},
                    }
                    let ghost out_prepared = *output;
                    router.dispatch_incoming(i, accepted.currency_outputs, output);
                    let ghost out_passed = *output;
                    router.friends[i].report_open_currencies(output);
                    proof {
                        assert(counted.friends@[i as int].public_key == friend_public_key);
                        assert(prepared.friends@ =~= counted.friends@.update(
                            i as int,
                            (Friend {
                                token_wanted: request.token_wanted,
                                ..counted.friends@[i as int]
                            }),
                        ));
                        assert(out_prepared.app_events@ =~= old(output).app_events@ + (
                        if was_inconsistent {
                            seq![AppEvent::ChannelConsistent(friend_public_key)]
                        } else {
                            Seq::empty()
                        }) + (match accepted.opt_remote_relays {
                            Some(relays) => seq![AppEvent::RelaysUpdate(friend_public_key, relays)],
                            None => Seq::empty(),
                        }));
                        lemma_accepted_passed_on(
                            counted,
                            prepared,
                            *router,
                            *old(output),
                            out_prepared,
                            out_passed,
                            *output,
                            i as int,
                            request.token_wanted,
                            was_inconsistent,
                            accepted,
                        );
                    }
                    true
                },
                ReceiveMoveTokenOutput::ChainInconsistent(frozen) => {
                    router.channel_froze(i, frozen.lost_requests, output);
                    true
                },
                ReceiveMoveTokenOutput::ResetRefused(_) => {
                    output.add_friend_message(friend_public_key, FriendSend::ResetTerms);
                    false
                },
            };
            proof {
                assert(router.friends@[i as int].token_channel
                    == counted.friends@[i as int].token_channel);
                assert(channel_replaced(*old(router), handled_state, i as int));
                assert(move_token_handled(
                    before[i as int].token_channel,
                    handled_state.friends@[i as int].token_channel,
                    handled,
                    request.move_token,
                    rates,
                    local_public_key,
                    friend_public_key,
                    signer,
                ));
                assert(fees_counted(
                    handled_state,
                    counted,
                    i as int,
                    received_messages(handled),
                ));
                assert forall|j: int| 0 <= j < before.len() && j != i implies same_friend_but_queues(
                    before[j],
                    #[trigger] router.friends@[j],
                ) by {}
            }
            flush
        },
        FriendMessage::InconsistencyError(terms_message) => {
            let terms = reset_terms_of(terms_message);
            let ghost proposed = terms;
            let taken = handle_in_reset_terms(
                &mut router.friends[i].token_channel,
                terms,
                &local_public_key,
                &friend_public_key,
                signer,
            );
            let ghost handled = taken;
            let ghost mid_channel = router.friends@[i as int].token_channel;
            proof {
                lemma_friend_updated(before, router.friends@, i as int, router.local_public_key);
            }
            let froze = match taken {
                ResetTermsOutput::Rejected => false,
                ResetTermsOutput::Recorded => false,
                ResetTermsOutput::Frozen(lost_requests) => {
                    router.clean_frozen_channel(i, lost_requests, output);
                    true
                },
            };
            let ghost mid = router.friends@;
            let restarted = router.friends[i].token_channel.accept_remote_reset_terms();
            proof {
                lemma_friend_updated(mid, router.friends@, i as int, router.local_public_key);
            }
            if restarted {
                // The local side sends the first move token: the friend needs
                // no terms from it.
                output.add_app_event(AppEvent::ChannelConsistent(friend_public_key));
                let ghost accepted = router.friends@;
                router.friends[i].token_wanted = true;
                proof {
                    assert(router.friends@ =~= accepted.update(
                        i as int,
                        router.friends@[i as int],
                    ));
                    lemma_friend_updated(
                        accepted,
                        router.friends@,
                        i as int,
                        router.local_public_key,
                    );
                }
            } else if froze {
                output.add_friend_message(friend_public_key, FriendSend::ResetTerms);
            }
            proof {
                assert(terms_of(terms_message, proposed));
                assert(reset_terms_handled(
                    before[i as int].token_channel,
                    mid_channel,
                    handled,
                    proposed,
                    local_public_key,
                    friend_public_key,
                    signer,
                ));
                assert(mid[i as int].token_channel == mid_channel);
                assert(reset_terms_accepted(
                    mid_channel,
                    router.friends@[i as int].token_channel,
                    restarted,
                ));
                assert forall|j: int| 0 <= j < before.len() && j != i implies same_friend_but_queues(
                    before[j],
                    #[trigger] router.friends@[j],
                ) by {
                    assert(same_friend_but_queues(before[j], mid[j]));
                }
            }
            froze || restarted
        },
        FriendMessage::RelaysUpdate(relays) => {
            output.add_app_event(AppEvent::RelaysUpdate(friend_public_key, relays));
            false
        },
    }
}

/// Handles a message that a friend sent: takes it in, as
/// `receive_friend_message` does, and then, if there is something to send,
/// sends to every friend what waits for it, as `flush_all` does. A message
/// from a node that is not a friend changes nothing.
pub fn handle_friend_message<F: Fn(&Vec<u8>) -> Signature>(
    router: &mut RouterState,
    friend_public_key: PublicKey,
    message: FriendMessage,
    rand_nonce: RandValue,
    signer: &F,
) -> (output: RouterOutput)
    requires
        old(router).wf(),
        forall|buffer: &Vec<u8>| signer.requires((buffer,)),
    ensures
        final(router).wf(),
        final(router).local_public_key == old(router).local_public_key,
        final(router).max_operations_in_batch == old(router).max_operations_in_batch,
        final(router).friends@.len() == old(router).friends@.len(),
        forall|j: int|
            0 <= j < old(router).friends@.len() ==> {
                &&& (#[trigger] final(router).friends@[j]).public_key == old(router).friends@[j].public_key
                &&& final(router).friends@[j].currency_configs == old(router).friends@[j].currency_configs
                &&& final(router).friends@[j].is_online == old(router).friends@[j].is_online
            },
        old(router).find_friend_spec(friend_public_key) is None ==> {
            &&& *final(router) == *old(router)
            &&& output.friends_messages@.len() == 0
            &&& output.index_mutations@.len() == 0
            &&& output.app_events@.len() == 0
        },
        old(router).find_friend_spec(friend_public_key) is Some && message is RelaysUpdate ==> {
            &&& final(router).friends@ == old(router).friends@
            &&& final(router).local_requests == old(router).local_requests
            &&& output.friends_messages@.len() == 0
            &&& output.index_mutations@.len() == 0
            &&& output.app_events@ == seq![
                AppEvent::RelaysUpdate(friend_public_key, message->RelaysUpdate_0),
            ]
        },
        duplicate_without_wish(*old(router), friend_public_key, message) ==> {
            &&& final(router).friends@ == old(router).friends@
            &&& final(router).local_requests == old(router).local_requests
            &&& output.friends_messages@.len() == 0
            &&& output.index_mutations@.len() == 0
            &&& output.app_events@.len() == 0
        },
        forall|j: int|
            0 <= j < old(router).friends@.len() && old(router).find_friend_spec(friend_public_key)
                != Some(j) && !(old(router).friends@[j].is_online && old(router).friends@[j].token_channel.is_consistent_in()) ==> (
            #[trigger] final(router).friends@[j]).token_channel == old(router).friends@[j].token_channel,
        old(router).find_friend_spec(friend_public_key) matches Some(i) ==> exists|
            mid: RouterState,
            start: RouterOutput,
            out_mid: RouterOutput,
            flush: bool,
        |
            {
                &&& start.is_blank()
                &&& #[trigger] message_received(
                    *old(router),
                    mid,
                    start,
                    out_mid,
                    i,
                    friend_public_key,
                    message,
                    signer,
                    flush,
                )
                &&& if flush {
                    flushed_all(
                        mid,
                        *final(router),
                        out_mid,
                        output,
                        old(router).friends@.len() as int,
                        rand_nonce,
                        signer,
                    )
                } else {
                    *final(router) == mid && output == out_mid
                }
            },
{
    let mut output = RouterOutput::new();
    let ghost start = output;
    let flush = receive_friend_message(router, friend_public_key, message, signer, &mut output);
    let ghost mid = *router;
    let ghost out_mid = output;
    proof {
        if old(router).find_friend_spec(friend_public_key) is Some && message is RelaysUpdate {
            assert(output.app_events@ =~= seq![
                AppEvent::RelaysUpdate(friend_public_key, message->RelaysUpdate_0),
            ]);
        }
    }
    if flush {
        router.flush_all(rand_nonce, signer, &mut output);
    }
    proof {
        if let Some(i) = old(router).find_friend_spec(friend_public_key) {
            assert(start.is_blank());
            assert(message_received(
                *old(router),
                mid,
                start,
                out_mid,
                i,
                friend_public_key,
                message,
                signer,
                flush,
            ));
        }
    }
    output
}

/// Whether a message is a move token that its sender's channel has received
/// last already, and that does not ask for the token.
pub open spec fn duplicate_without_wish(
    router: RouterState,
    friend_public_key: PublicKey,
    message: FriendMessage,
) -> bool {
    match (router.find_friend_spec(friend_public_key), message) {
        (Some(i), FriendMessage::MoveTokenRequest(request)) => {
            &&& !request.token_wanted
            &&& router.friends@[i].token_channel.status is ConsistentIn
            &&& request.move_token.new_token
                == router.friends@[i].token_channel.status->ConsistentIn_0.new_token
        },
        _ => false,
    }
}

} // verus!
