//! Sending what waits for a friend.

use crate::currency_map::CurrencyMap;
use crate::proto::{CancelSendFundsOp, FriendTcOp, FriendTcOpView};
use crate::router::{
    AppEvent, BackwardsOp, CurrencyConfig, Friend, FriendSend, is_suffix, lemma_suffix_has_none,
    McRequest, only_currency, RequestOrigin, RouterOutput, RouterState,
};
use crate::signature_buff::move_token_signature_buffer;
use crate::token_channel::{ChannelView, info_hash_of, TcStatus};
use crate::token_channel::outgoing::{count_operations, flat_operations, outgoing_op, OutMoveToken};
use crate::token_channel::reset::LostRequest;
use crate::types::{array_eq, Currency, PublicKey, RandValue, Signature, Uid};
use vstd::prelude::*;

verus! {

/// What came of flushing one friend.
pub struct FlushResult {
    /// Whether a move token was composed, and if so whether it asks for the
    /// token back.
    pub sent: Option<bool>,
    /// The requests that the channel refused. They must be cancelled toward
    /// where they came from.
    pub rejected: Vec<McRequest>,
}

/// What is taken from the queues of a friend next: a response or a cancel on
/// its way back before a forwarded request, a forwarded request before a
/// request of the local application.
pub enum NextOperation {
    Backwards(BackwardsOp),
    Forwarded(McRequest),
    User(McRequest),
}

/// The operation that a response or a cancel on its way back is sent as.
pub open spec fn backwards_op(op: BackwardsOp) -> (Currency, FriendTcOpView) {
    match op {
        BackwardsOp::Response(currency, response) => (
            currency,
            FriendTcOpView::ResponseSendFunds(response),
        ),
        BackwardsOp::Cancel(currency, cancel) => (currency, FriendTcOpView::CancelSendFunds(cancel)),
    }
}

/// The channel after the currencies that the local side trades were brought
/// in line with the first `upto` configured currencies, and the currencies
/// that were toggled for it, in the order of the configuration.
pub open spec fn reconciled(
    ch: ChannelView,
    configs: CurrencyMap<CurrencyConfig>,
    upto: int,
) -> (ChannelView, Seq<Currency>)
    decreases upto,
{
    if upto <= 0 {
        (ch, Seq::empty())
    } else {
        let (before, diff) = reconciled(ch, configs, upto - 1);
        let currency = configs.keys()[upto - 1];
        if Friend::wants_currency(configs.values()[upto - 1]) != before.local_currencies.contains(
            currency,
        ) {
            (before.toggle_local(currency), diff.push(currency))
        } else {
            (before, diff)
        }
    }
}

/// Where a flush stands: the channel, the operations that went into the
/// move token, the requests that the channel refused, and what still waits.
pub struct Drained {
    pub channel: ChannelView,
    pub operations: Seq<(Currency, FriendTcOpView)>,
    pub rejected: Seq<McRequest>,
    pub backwards: Seq<BackwardsOp>,
    pub forwarded: Seq<McRequest>,
    pub user: Seq<McRequest>,
}

/// Takes one operation from the queues, a response or cancel before a
/// forwarded request before a request of the application, and puts it into
/// the move token if the channel admits it. A request that the channel
/// refuses is rejected; a response or cancel that it refuses is dropped.
/// With nothing waiting, nothing happens.
pub open spec fn drain_step(
    d: Drained,
    local_max_debts: CurrencyMap<u128>,
    remote_max_debts: CurrencyMap<u128>,
    local_public_key: PublicKey,
    friend_public_key: PublicKey,
) -> Drained {
    if d.backwards.len() > 0 {
        let (currency, op) = backwards_op(d.backwards[0]);
        match outgoing_op(
            d.channel,
            currency,
            op,
            local_max_debts.value_or(currency, 0),
            remote_max_debts.value_or(currency, 0),
            local_public_key,
            friend_public_key,
        ) {
            Ok((channel, _)) => Drained {
                channel,
                operations: d.operations.push((currency, op)),
                backwards: d.backwards.drop_first(),
                ..d
            },
            Err(_) => Drained { backwards: d.backwards.drop_first(), ..d },
        }
    } else if d.forwarded.len() > 0 {
        let request = d.forwarded[0];
        let op = FriendTcOpView::RequestSendFunds(request.request@);
        match outgoing_op(
            d.channel,
            request.currency,
            op,
            local_max_debts.value_or(request.currency, 0),
            remote_max_debts.value_or(request.currency, 0),
            local_public_key,
            friend_public_key,
        ) {
            Ok((channel, _)) => Drained {
                channel,
                operations: d.operations.push((request.currency, op)),
                forwarded: d.forwarded.drop_first(),
                ..d
            },
            Err(_) => Drained {
                rejected: d.rejected.push(request),
                forwarded: d.forwarded.drop_first(),
                ..d
            },
        }
    } else if d.user.len() > 0 {
        let request = d.user[0];
        let op = FriendTcOpView::RequestSendFunds(request.request@);
        match outgoing_op(
            d.channel,
            request.currency,
            op,
            local_max_debts.value_or(request.currency, 0),
            remote_max_debts.value_or(request.currency, 0),
            local_public_key,
            friend_public_key,
        ) {
            Ok((channel, _)) => Drained {
                channel,
                operations: d.operations.push((request.currency, op)),
                user: d.user.drop_first(),
                ..d
            },
            Err(_) => Drained { rejected: d.rejected.push(request), user: d.user.drop_first(), ..d },
        }
    } else {
        d
    }
}

/// Takes `count` operations from the queues, one after the other.
pub open spec fn drained(
    start: Drained,
    local_max_debts: CurrencyMap<u128>,
    remote_max_debts: CurrencyMap<u128>,
    local_public_key: PublicKey,
    friend_public_key: PublicKey,
    count: nat,
) -> Drained
    decreases count,
{
    if count == 0 {
        start
    } else {
        drain_step(
            drained(start, local_max_debts,
            remote_max_debts, local_public_key, friend_public_key, (count - 1) as nat),
            local_max_debts,
            remote_max_debts,
            local_public_key,
            friend_public_key,
        )
    }
}

/// Once nothing waits, taking more operations changes nothing.
pub proof fn lemma_drained_rests(
    start: Drained,
    local_max_debts: CurrencyMap<u128>,
    remote_max_debts: CurrencyMap<u128>,
    local_public_key: PublicKey,
    friend_public_key: PublicKey,
    count: nat,
    more: nat,
)
    requires
        count <= more,
        ({
            let d = drained(start, local_max_debts,
            remote_max_debts, local_public_key, friend_public_key, count);
            d.backwards.len() == 0 && d.forwarded.len() == 0 && d.user.len() == 0
        }),
    ensures
        drained(start, local_max_debts,
            remote_max_debts, local_public_key, friend_public_key, more) == drained(
            start,
            local_max_debts,
            remote_max_debts,
            local_public_key,
            friend_public_key,
            count,
        ),
    decreases more - count,
{
    if count < more {
        lemma_drained_rests(
            start,
            local_max_debts,
            remote_max_debts,
            local_public_key,
            friend_public_key,
            count,
            (more - 1) as nat,
        );
    }
}

/// What a flush of a friend that can be reached and whose token the local
/// side holds leads to, before the move token is closed: the currencies
/// reconciled with the configuration, and at most `max_operations_in_batch`
/// operations taken from the queues.
pub open spec fn flush_plan(
    friend: Friend,
    local_public_key: PublicKey,
    max_operations_in_batch: usize,
) -> (Drained, Seq<Currency>) {
    let (channel, diff) = reconciled(
        friend.token_channel.channel(),
        friend.currency_configs,
        friend.currency_configs.keys().len() as int,
    );
    (
        drained(
            Drained {
                channel,
                operations: Seq::empty(),
                rejected: Seq::empty(),
                backwards: friend.pending_backwards_ops@,
                forwarded: friend.pending_requests@,
                user: friend.pending_user_requests@,
            },
            friend.token_channel.local_max_debts,
            friend.token_channel.remote_max_debts,
            local_public_key,
            friend.public_key,
            max_operations_in_batch as nat,
        ),
        diff,
    )
}

/// Whether `after` and `result` are what flushing `before` gives.
///
/// A friend that cannot be reached, or whose token the local side does not
/// hold, is left as it is. Otherwise the queues hold what the plan leaves
/// waiting, and the requests that the plan rejects are handed back. A move
/// token is sent if the plan puts an operation into it or toggles a
/// currency, or if the friend asked for the token, or if `force` is set,
/// unless the counter is at its largest value. If it is sent, the channel
/// is where the plan leads with the counter one up, and the move token holds
/// the operations and currencies of the plan, continues the chain, commits
/// to the balances and the counter, is signed by the signer, and asks for
/// the token exactly if operations still wait. If it is not sent, the
/// channel is where the plan leads, with the counter and the token where
/// they were.
pub open spec fn flushed<F: Fn(&Vec<u8>) -> Signature>(
    before: Friend,
    after: Friend,
    result: FlushResult,
    local_public_key: PublicKey,
    max_operations_in_batch: usize,
    rand_nonce: RandValue,
    force: bool,
    signer: &F,
) -> bool {
    if !before.is_online || !before.token_channel.is_consistent_in() {
        &&& after == before
        &&& result.sent is None
        &&& result.rejected@.len() == 0
    } else {
        let (plan, diff) = flush_plan(before, local_public_key, max_operations_in_batch);
        let send = (plan.operations.len() > 0 || diff.len() > 0 || force || before.token_wanted)
            && before.token_channel.move_token_counter < u128::MAX;
        &&& after.public_key == before.public_key
        &&& after.currency_configs == before.currency_configs
        &&& after.is_online == before.is_online
        &&& after.token_channel.local_max_debts == before.token_channel.local_max_debts
        &&& after.token_channel.remote_max_debts == before.token_channel.remote_max_debts
        &&& after.pending_backwards_ops@ == plan.backwards
        &&& after.pending_requests@ == plan.forwarded
        &&& after.pending_user_requests@ == plan.user
        &&& result.rejected@ == plan.rejected
        &&& after.token_channel.channel().mutual_credits == plan.channel.mutual_credits
        &&& after.token_channel.channel().local_currencies == plan.channel.local_currencies
        &&& after.token_channel.channel().remote_currencies == plan.channel.remote_currencies
        &&& if send {
            let move_token = after.token_channel.status->ConsistentOut_0;
            &&& result.sent == Some(after.queued() > 0)
            &&& !after.token_wanted
            &&& after.token_channel.move_token_counter
                == before.token_channel.move_token_counter + 1
            &&& after.token_channel.status is ConsistentOut
            &&& after.token_channel.status->ConsistentOut_1 == Some(
                before.token_channel.status->ConsistentIn_0,
            )
            &&& flat_operations(move_token.operations@) == plan.operations
            &&& move_token.currencies_diff@ == diff
            &&& move_token.opt_local_relays is None
            &&& move_token.rand_nonce == rand_nonce
            &&& move_token.old_token == before.token_channel.status->ConsistentIn_0.new_token
            &&& move_token.info_hash@ == info_hash_of(
                local_public_key,
                before.public_key,
                plan.channel.mutual_credits,
                false,
                (before.token_channel.move_token_counter + 1) as u128,
            )
            &&& exists|buffer: Vec<u8>|
                buffer@ == move_token_signature_buffer(move_token.old_token, move_token.info_hash)
                    && #[trigger] signer.ensures((&buffer,), move_token.new_token)
        } else {
            &&& result.sent is None
            &&& after.token_wanted == before.token_wanted
            &&& after.token_channel.move_token_counter == before.token_channel.move_token_counter
            &&& after.token_channel.status == before.token_channel.status
        }
    }
}

impl Friend {
    /// How many operations wait to be sent to the friend.
    pub open spec fn queued(&self) -> nat {
        self.pending_backwards_ops@.len() + self.pending_requests@.len()
            + self.pending_user_requests@.len()
    }

    /// Takes the operation that is to be sent next out of its queue.
    pub fn pop_next_operation(&mut self) -> (next: Option<NextOperation>)
        ensures
            final(self).public_key == old(self).public_key,
            final(self).token_channel == old(self).token_channel,
            final(self).currency_configs == old(self).currency_configs,
            final(self).is_online == old(self).is_online,
            final(self).token_wanted == old(self).token_wanted,
            if old(self).pending_backwards_ops@.len() > 0 {
                &&& next matches Some(NextOperation::Backwards(op))
                &&& op == old(self).pending_backwards_ops@[0]
                &&& final(self).pending_backwards_ops@ == old(self).pending_backwards_ops@.drop_first()
                &&& final(self).pending_requests == old(self).pending_requests
                &&& final(self).pending_user_requests == old(self).pending_user_requests
            } else if old(self).pending_requests@.len() > 0 {
                &&& next matches Some(NextOperation::Forwarded(request))
                &&& request == old(self).pending_requests@[0]
                &&& final(self).pending_requests@ == old(self).pending_requests@.drop_first()
                &&& final(self).pending_backwards_ops == old(self).pending_backwards_ops
                &&& final(self).pending_user_requests == old(self).pending_user_requests
            } else if old(self).pending_user_requests@.len() > 0 {
                &&& next matches Some(NextOperation::User(request))
                &&& request == old(self).pending_user_requests@[0]
                &&& final(self).pending_user_requests@ == old(self).pending_user_requests@.drop_first()
                &&& final(self).pending_backwards_ops == old(self).pending_backwards_ops
                &&& final(self).pending_requests == old(self).pending_requests
            } else {
                next is None && *final(self) == *old(self)
            },
    {
        if self.pending_backwards_ops.len() > 0 {
            let op = self.pending_backwards_ops.remove(0);
            assert(self.pending_backwards_ops@ =~= old(self).pending_backwards_ops@.drop_first());
            Some(NextOperation::Backwards(op))
        } else if self.pending_requests.len() > 0 {
            let request = self.pending_requests.remove(0);
            assert(self.pending_requests@ =~= old(self).pending_requests@.drop_first());
            Some(NextOperation::Forwarded(request))
        } else if self.pending_user_requests.len() > 0 {
            let request = self.pending_user_requests.remove(0);
            assert(self.pending_user_requests@ =~= old(self).pending_user_requests@.drop_first());
            Some(NextOperation::User(request))
        } else {
            None
        }
    }

    /// Whether the currencies that the local side trades differ from what is
    /// configured, looking at the first `upto` configured currencies.
    pub open spec fn currencies_differ(&self, upto: int) -> bool {
        exists|k: int|
            0 <= k < upto && k < self.currency_configs.keys().len() && Self::wants_currency(
                #[trigger] self.currency_configs.values()[k],
            ) != self.token_channel.local_currencies.contains(self.currency_configs.keys()[k])
    }

    /// Whether the local side has something to send to the friend and must
    /// ask for the token: the friend can be reached, the local side awaits the
    /// friend's move token, and operations wait in the queues or the
    /// currencies that the local side trades differ from what is configured.
    pub open spec fn needs_token(&self) -> bool {
        &&& self.is_online
        &&& self.token_channel.status is ConsistentOut
        &&& (self.queued() > 0 || self.currencies_differ(
            self.currency_configs.keys().len() as int,
        ))
    }

    /// Whether the local side must ask the friend for the token.
    pub fn check_needs_token(&self) -> (r: bool)
        requires
            self.wf(),
        ensures
            r == self.needs_token(),
    {
        if !self.is_online {
            return false;
        }
        match &self.token_channel.status {
            TcStatus::ConsistentOut(_, _) => {},
            _ => return false,
        }
        if self.pending_backwards_ops.len() > 0 || self.pending_requests.len() > 0
            || self.pending_user_requests.len() > 0 {
            return true;
        }
        let n = self.currency_configs.len();
        let mut k: usize = 0;
        while k < n
            invariant
                0 <= k <= n,
                n == self.currency_configs.keys().len(),
                self.wf(),
                self.is_online,
                self.token_channel.status is ConsistentOut,
                self.queued() == 0,
                !self.currencies_differ(k as int),
            decreases n - k,
        {
            let currency = self.currency_configs.key_at(k);
            let config = *self.currency_configs.value_at(k);
            let wanted = config.is_open && !config.remove;
            if wanted != self.token_channel.local_currencies.has(&currency) {
                assert(Self::wants_currency(self.currency_configs.values()[k as int])
                    != self.token_channel.local_currencies.contains(
                    self.currency_configs.keys()[k as int],
                ));
                assert(self.currencies_differ(n as int));
                return true;
            }
            k += 1;
        }
        false
    }

    /// Whether the local node wants to trade a currency with the friend: the
    /// currency is open and not marked for removal.
    pub open spec fn wants_currency(config: CurrencyConfig) -> bool {
        config.is_open && !config.remove
    }

    /// Composes a move token for the friend out of what waits for it.
    ///
    /// Nothing happens unless the friend can be reached and the local side
    /// holds the token. Then the currencies that the local side trades are
    /// brought in line with what is configured, and at most
    /// `max_operations_in_batch` operations are taken from the queues, in the
    /// order that `pop_next_operation` gives. Each is put into the move token
    /// if the channel admits it; a request that the channel refuses is handed
    /// back as rejected, a response or cancel that it refuses is dropped. The
    /// move token is closed and kept in the channel as sent if it holds
    /// anything, or if the friend asked for the token, or if `force` is set.
    /// It asks for the token back if operations are left waiting.
    pub fn flush<F: Fn(&Vec<u8>) -> Signature>(
        &mut self,
        local_public_key: &PublicKey,
        max_operations_in_batch: usize,
        rand_nonce: RandValue,
        force: bool,
        signer: &F,
    ) -> (result: FlushResult)
        requires
            old(self).wf(),
            forall|buffer: &Vec<u8>| signer.requires((buffer,)),
        ensures
            final(self).wf(),
            flushed(
                *old(self),
                *final(self),
                result,
                *local_public_key,
                max_operations_in_batch,
                rand_nonce,
                force,
                signer,
            ),
            final(self).public_key == old(self).public_key,
            final(self).currency_configs == old(self).currency_configs,
            final(self).is_online == old(self).is_online,
            final(self).token_channel.local_max_debts == old(self).token_channel.local_max_debts,
            final(self).token_channel.remote_max_debts == old(self).token_channel.remote_max_debts,
            is_suffix(final(self).pending_requests@, old(self).pending_requests@),
            is_suffix(final(self).pending_user_requests@, old(self).pending_user_requests@),
            old(self).is_online && old(self).token_channel.is_consistent_in() ==> {
                &&& final(self).queued() + max_operations_in_batch >= old(self).queued()
                &&& final(self).queued() <= old(self).queued()
                &&& result.rejected@.len() <= old(self).queued() - final(self).queued()
                &&& match result.sent {
                    Some(token_wanted) => {
                        &&& final(self).token_channel.status is ConsistentOut
                        &&& final(self).token_channel.move_token_counter == old(self).token_channel.move_token_counter + 1
                        &&& count_operations(
                            final(self).token_channel.status->ConsistentOut_0.operations@,
                        ) <= max_operations_in_batch
                    },
                    None => final(self).token_channel.status == old(self).token_channel.status,
                }
            },
    {
        let mut rejected: Vec<McRequest> = Vec::new();
        proof {
            assert(self.pending_requests@.skip(0) =~= self.pending_requests@);
            assert(self.pending_user_requests@.skip(0) =~= self.pending_user_requests@);
        }
        if !self.is_online || !self.token_channel.holds_token() {
            return FlushResult { sent: None, rejected };
        }
        let mut out = OutMoveToken::new();
        // Bring the currencies that the local side trades in line with the
        // configuration:
        let n = self.currency_configs.len();
        let ghost configs = self.currency_configs;
        let ghost lmds = self.token_channel.local_max_debts;
        let ghost rmds = self.token_channel.remote_max_debts;
        let ghost friend_public_key = self.public_key;
        let mut k: usize = 0;
        while k < n
            invariant
                0 <= k <= n,
                n == self.currency_configs.keys().len(),
                self.wf(),
                out.wf(),
                out.operations@.len() == 0,
                out.opt_local_relays is None,
                self.token_channel.is_consistent_in(),
                self.token_channel.status == old(self).token_channel.status,
                self.token_channel.move_token_counter == old(self).token_channel.move_token_counter,
                self.token_channel.local_max_debts == old(self).token_channel.local_max_debts,
                self.token_channel.remote_max_debts == old(self).token_channel.remote_max_debts,
                lmds == old(self).token_channel.local_max_debts,
                rmds == old(self).token_channel.remote_max_debts,
                self.public_key == old(self).public_key,
                self.currency_configs == old(self).currency_configs,
                configs == old(self).currency_configs,
                self.is_online == old(self).is_online,
                self.token_wanted == old(self).token_wanted,
                self.pending_backwards_ops == old(self).pending_backwards_ops,
                self.pending_requests == old(self).pending_requests,
                self.pending_user_requests == old(self).pending_user_requests,
                reconciled(old(self).token_channel.channel(), configs, k as int) == (
                    self.token_channel.channel(),
                    out.currencies_diff@,
                ),
            decreases n - k,
        {
            let currency = self.currency_configs.key_at(k);
            let config = *self.currency_configs.value_at(k);
            let wanted = config.is_open && !config.remove;
            if wanted != self.token_channel.local_currencies.has(&currency) {
                let _ = out.toggle_currency(&mut self.token_channel, currency);
            }
            k += 1;
        }
        let ghost start = Drained {
            channel: self.token_channel.channel(),
            operations: Seq::empty(),
            rejected: Seq::empty(),
            backwards: self.pending_backwards_ops@,
            forwarded: self.pending_requests@,
            user: self.pending_user_requests@,
        };
        let ghost diff = out.currencies_diff@;
        proof {
            assert(flat_operations(out.operations@) =~= Seq::empty());
        }
        let mut taken: usize = 0;
        let mut done = false;
        while taken < max_operations_in_batch && !done
            invariant
                0 <= taken <= max_operations_in_batch,
                is_suffix(self.pending_requests@, old(self).pending_requests@),
                is_suffix(self.pending_user_requests@, old(self).pending_user_requests@),
                self.wf(),
                out.wf(),
                out.currencies_diff@ == diff,
                out.opt_local_relays is None,
                self.token_channel.is_consistent_in(),
                self.token_channel.status == old(self).token_channel.status,
                self.token_channel.move_token_counter == old(self).token_channel.move_token_counter,
                self.token_channel.local_max_debts == old(self).token_channel.local_max_debts,
                self.token_channel.remote_max_debts == old(self).token_channel.remote_max_debts,
                lmds == old(self).token_channel.local_max_debts,
                rmds == old(self).token_channel.remote_max_debts,
                self.public_key == old(self).public_key,
                friend_public_key == old(self).public_key,
                self.currency_configs == old(self).currency_configs,
                configs == old(self).currency_configs,
                self.is_online == old(self).is_online,
                self.token_wanted == old(self).token_wanted,
                self.queued() + taken == old(self).queued() || done,
                self.queued() + taken >= old(self).queued(),
                self.queued() <= old(self).queued(),
                rejected@.len() <= old(self).queued() - self.queued(),
                count_operations(out.operations@) <= taken,
                done ==> self.queued() == 0,
                drained(
                    start,
                    lmds,
                    rmds,
                    *local_public_key,
                    friend_public_key,
                    taken as nat,
                ) == (
                Drained {
                    channel: self.token_channel.channel(),
                    operations: flat_operations(out.operations@),
                    rejected: rejected@,
                    backwards: self.pending_backwards_ops@,
                    forwarded: self.pending_requests@,
                    user: self.pending_user_requests@,
                }),
            decreases max_operations_in_batch - taken, (if done { 0int } else { 1int }),
        {
            let ghost forwarded = self.pending_requests@;
            let ghost user = self.pending_user_requests@;
            let ghost d = drained(
                    start,
                    lmds,
                    rmds,
                    *local_public_key,
                    friend_public_key,
                    taken as nat,
                );
            match self.pop_next_operation() {
                None => {
                    done = true;
                },
                Some(next) => {
                    proof {
                        lemma_suffix_step(
                            self.pending_requests@,
                            forwarded,
                            old(self).pending_requests@,
                        );
                        lemma_suffix_step(
                            self.pending_user_requests@,
                            user,
                            old(self).pending_user_requests@,
                        );
                    }
                    taken += 1;
                    match next {
                        NextOperation::Backwards(BackwardsOp::Response(currency, response)) => {
                            let _ = out.queue_operation(
                                &mut self.token_channel,
                                &currency,
                                FriendTcOp::ResponseSendFunds(response),
                                local_public_key,
                                &self.public_key,
                            );
                        },
                        NextOperation::Backwards(BackwardsOp::Cancel(currency, cancel)) => {
                            let _ = out.queue_operation(
                                &mut self.token_channel,
                                &currency,
                                FriendTcOp::CancelSendFunds(cancel),
                                local_public_key,
                                &self.public_key,
                            );
                        },
                        NextOperation::Forwarded(request) | NextOperation::User(request) => {
                            let copy = crate::proto::copy_request(&request.request);
                            match out.queue_operation(
                                &mut self.token_channel,
                                &request.currency,
                                FriendTcOp::RequestSendFunds(copy),
                                local_public_key,
                                &self.public_key,
                            ) {
                                Ok(_) => {},
                                Err(_) => {
                                    rejected.push(request);
                                },
                            }
                        },
                    }
                },
            }
        }
        proof {
            if done {
                lemma_drained_rests(
                    start,
                    lmds,
                    rmds,
                    *local_public_key,
                    friend_public_key,
                    taken as nat,
                    max_operations_in_batch as nat,
                );
            }
        }
        let more = self.pending_backwards_ops.len() > 0 || self.pending_requests.len() > 0
            || self.pending_user_requests.len() > 0;
        let send_empty = force || self.token_wanted;
        match out.finalize(
            &mut self.token_channel,
            rand_nonce,
            send_empty,
            local_public_key,
            &self.public_key,
            signer,
        ) {
            Ok(true) => {
                self.token_wanted = false;
                FlushResult { sent: Some(more), rejected }
            },
            _ => FlushResult { sent: None, rejected },
        }
    }
}

/// Whether `after` is `before` with the friend at `i` replaced by `friend`,
/// and nothing else changed.
pub open spec fn friend_replaced(
    before: RouterState,
    after: RouterState,
    i: int,
    friend: Friend,
) -> bool {
    &&& after.local_public_key == before.local_public_key
    &&& after.max_operations_in_batch == before.max_operations_in_batch
    &&& after.local_requests == before.local_requests
    &&& after.friends@ == before.friends@.update(i, friend)
}

/// Whether `after` and `out_after` are `before` and `out_before` with the
/// friend at `friend_index` flushed.
///
/// The friend is flushed as `flushed` says, and then each request that its
/// channel refused is given up, the one refused last first, with one cancel
/// each toward where it came from, as `requests_cancelled` says, which
/// changes nothing but queues of responses and cancels, and what the
/// application is told. If a move token was composed, it is to be sent to the friend, with
/// the flag that asks for the token back. A friend that cannot be reached,
/// or whose token the local side does not hold, is left as it is; the move
/// token sent last goes out once more, asking for the token, exactly if the
/// local side needs the token.
pub open spec fn friend_flushed<F: Fn(&Vec<u8>) -> Signature>(
    before: RouterState,
    after: RouterState,
    out_before: RouterOutput,
    out_after: RouterOutput,
    friend_index: usize,
    rand_nonce: RandValue,
    force: bool,
    signer: &F,
) -> bool {
    &&& after.local_public_key == before.local_public_key
    &&& after.max_operations_in_batch == before.max_operations_in_batch
    &&& after.friends@.len() == before.friends@.len()
    &&& forall|j: int|
        0 <= j < before.friends@.len() ==> (#[trigger] after.friends@[j]).public_key
            == before.friends@[j].public_key
    &&& forall|j: int|
        0 <= j < before.friends@.len() && j != friend_index ==> same_friend_but_backwards(
            before.friends@[j],
            #[trigger] after.friends@[j],
        )
    &&& !before.friends@[friend_index as int].is_online || !before.friends@[friend_index as int].token_channel.is_consistent_in() ==> {
        &&& after == before
        &&& out_after.app_events == out_before.app_events
        &&& out_after.friends_messages@ == if before.friends@[friend_index as int].needs_token() {
            out_before.friends_messages@.push(
                crate::router::FriendOutput {
                    friend_public_key: before.friends@[friend_index as int].public_key,
                    send: FriendSend::MoveToken(true),
                },
            )
        } else {
            out_before.friends_messages@
        }
    }
    &&& after.friends@[friend_index as int].currency_configs == before.friends@[friend_index as int].currency_configs
    &&& after.friends@[friend_index as int].is_online == before.friends@[friend_index as int].is_online
    &&& after.friends@[friend_index as int].token_channel.local_max_debts == before.friends@[friend_index as int].token_channel.local_max_debts
    &&& after.friends@[friend_index as int].token_channel.remote_max_debts == before.friends@[friend_index as int].token_channel.remote_max_debts
    &&& is_suffix(
        after.friends@[friend_index as int].pending_requests@,
        before.friends@[friend_index as int].pending_requests@,
    )
    &&& is_suffix(
        after.friends@[friend_index as int].pending_user_requests@,
        before.friends@[friend_index as int].pending_user_requests@,
    )
    &&& out_after.index_mutations == out_before.index_mutations
    &&& exists|mid: Friend, result: FlushResult|
        {
            &&& #[trigger] flushed(
                before.friends@[friend_index as int],
                mid,
                result,
                before.local_public_key,
                before.max_operations_in_batch,
                rand_nonce,
                force,
                signer,
            )
            &&& same_friend_but_backwards(mid, after.friends@[friend_index as int])
            &&& result.sent matches Some(token_wanted) ==> out_after.friends_messages@
                == out_before.friends_messages@.push(
                crate::router::FriendOutput {
                    friend_public_key: before.friends@[friend_index as int].public_key,
                    send: FriendSend::MoveToken(token_wanted),
                },
            )
            &&& before.friends@[friend_index as int].is_online
                && before.friends@[friend_index as int].token_channel.is_consistent_in()
                ==> exists|sent: RouterState, out_sent: RouterOutput|
                {
                    &&& friend_replaced(before, sent, friend_index as int, mid)
                    &&& out_sent.index_mutations == out_before.index_mutations
                    &&& out_sent.app_events == out_before.app_events
                    &&& out_sent.friends_messages@ == match result.sent {
                        Some(token_wanted) => out_before.friends_messages@.push(
                            crate::router::FriendOutput {
                                friend_public_key: before.friends@[friend_index as int].public_key,
                                send: FriendSend::MoveToken(token_wanted),
                            },
                        ),
                        None => out_before.friends_messages@,
                    }
                    &&& #[trigger] requests_cancelled(
                        sent,
                        after,
                        out_sent,
                        out_after,
                        named_backwards(result.rejected@),
                    )
                }
        }
    &&& after.friends@[friend_index as int].token_channel.status is ConsistentOut && before.friends@[friend_index as int].token_channel.is_consistent_in() ==> {
        &&& after.friends@[friend_index as int].token_channel.move_token_counter
            == before.friends@[friend_index as int].token_channel.move_token_counter + 1
        &&& count_operations(
            after.friends@[friend_index as int].token_channel.status->ConsistentOut_0.operations@,
        ) <= before.max_operations_in_batch
        &&& out_after.friends_messages@.len() == out_before.friends_messages@.len() + 1
        &&& out_after.friends_messages@.last().friend_public_key == before.friends@[friend_index as int].public_key
        &&& out_after.friends_messages@.last().send is MoveToken
    }
}

impl RouterState {
    /// Hands a response or a cancel to where its request came from: into the
    /// queue of the friend it came from, to the application if the
    /// application sent the request, and nowhere if the request is not known
    /// any more.
    pub fn queue_backwards(
        &mut self,
        origin: RequestOrigin,
        op: BackwardsOp,
        output: &mut RouterOutput,
    )
        requires
            old(self).wf(),
            origin matches RequestOrigin::Friend(i) ==> i < old(self).friends@.len(),
        ensures
            final(self).wf(),
            backwards_handed(*old(self), *final(self), *old(output), *final(output), origin, op),
    {
        match origin {
            RequestOrigin::Friend(i) => {
                let ghost before = self.friends@;
                self.friends[i].pending_backwards_ops.push(op);
                proof {
                    assert forall|a: int, b: int| 0 <= a < b < self.friends@.len() implies (
                    #[trigger] self.friends@[a]).public_key != (
                    #[trigger] self.friends@[b]).public_key by {
                        assert(before[a].public_key != before[b].public_key);
                    }
                    assert forall|a: int| 0 <= a < self.friends@.len() implies (
                    #[trigger] self.friends@[a]).wf() && self.friends@[a].public_key
                        != self.local_public_key by {
                        assert(before[a].wf());
                    }
                }
            },
            RequestOrigin::Local => {
                let id = match op {
                    BackwardsOp::Response(_, response) => response.request_id,
                    BackwardsOp::Cancel(_, cancel) => cancel.request_id,
                };
                remove_all(&mut self.local_requests, &id);
                match op {
                    BackwardsOp::Response(currency, response) => {
                        output.add_app_event(AppEvent::Response(currency, response));
                    },
                    BackwardsOp::Cancel(currency, cancel) => {
                        output.add_app_event(AppEvent::Cancel(currency, cancel));
                    },
                }
            },
            RequestOrigin::Unknown => {},
        }
    }

    /// Gives a request up: a cancel that names the local node goes to where
    /// the request came from, as `queue_backwards` hands it there.
    pub fn cancel_request(&mut self, currency: &Currency, request_id: &Uid, output: &mut RouterOutput)
        requires
            old(self).wf(),
        ensures
            final(self).wf(),
            backwards_handed(
                *old(self),
                *final(self),
                *old(output),
                *final(output),
                old(self).origin_of(*currency, *request_id),
                BackwardsOp::Cancel(
                    *currency,
                    CancelSendFundsOp {
                        request_id: *request_id,
                        reporting_public_key: old(self).local_public_key,
                    },
                ),
            ),
            final(self).local_public_key == old(self).local_public_key,
            final(self).max_operations_in_batch == old(self).max_operations_in_batch,
            final(self).friends@.len() == old(self).friends@.len(),
            final(output).friends_messages == old(output).friends_messages,
            final(output).index_mutations == old(output).index_mutations,
            forall|j: int|
                0 <= j < old(self).friends@.len() ==> same_friend_but_backwards(
                    old(self).friends@[j],
                    #[trigger] final(self).friends@[j],
                ),
    {
        let origin = self.find_request_origin(currency, request_id);
        self.queue_backwards(
            origin,
            BackwardsOp::Cancel(
                *currency,
                CancelSendFundsOp {
                    request_id: *request_id,
                    reporting_public_key: self.local_public_key,
                },
            ),
            output,
        );
    }

    /// Sends to a friend what waits for it, as `Friend::flush` does, and
    /// then cancels each request that its channel refused toward where the
    /// request came from, as `cancel_request` does, the request refused last
    /// first. If the local side has something to send but awaits the friend's
    /// move token, the move token sent last goes out once more, asking for
    /// the token.
    pub fn flush_friend<F: Fn(&Vec<u8>) -> Signature>(
        &mut self,
        friend_index: usize,
        rand_nonce: RandValue,
        force: bool,
        signer: &F,
        output: &mut RouterOutput,
    )
        requires
            old(self).wf(),
            friend_index < old(self).friends@.len(),
            forall|buffer: &Vec<u8>| signer.requires((buffer,)),
        ensures
            final(self).wf(),
            friend_flushed(
                *old(self),
                *final(self),
                *old(output),
                *final(output),
                friend_index,
                rand_nonce,
                force,
                signer,
            ),
    {
        proof {
            let friend = self.friends@[friend_index as int];
            assert(friend.pending_requests@.skip(0) =~= friend.pending_requests@);
            assert(friend.pending_user_requests@.skip(0) =~= friend.pending_user_requests@);
        }
        if !self.friends[friend_index].is_online
            || !self.friends[friend_index].token_channel.holds_token() {
            if self.friends[friend_index].check_needs_token() {
                output.add_friend_message(
                    self.friends[friend_index].public_key,
                    FriendSend::MoveToken(true),
                );
            }
            let idle = FlushResult { sent: None, rejected: Vec::new() };
            proof {
                assert(flushed(
                    old(self).friends@[friend_index as int],
                    old(self).friends@[friend_index as int],
                    idle,
                    old(self).local_public_key,
                    old(self).max_operations_in_batch,
                    rand_nonce,
                    force,
                    signer,
                ));
            }
            return ;
        }
        let ghost before = self.friends@;
        let local_public_key = self.local_public_key;
        let max_operations_in_batch = self.max_operations_in_batch;
        let result = self.friends[friend_index].flush(
            &local_public_key,
            max_operations_in_batch,
            rand_nonce,
            force,
            signer,
        );
        let ghost mid = self.friends@[friend_index as int];
        let ghost flush_result = result;
        proof {
            assert forall|a: int, b: int| 0 <= a < b < self.friends@.len() implies (
            #[trigger] self.friends@[a]).public_key != (#[trigger] self.friends@[b]).public_key by {
                assert(before[a].public_key != before[b].public_key);
            }
            assert forall|a: int| 0 <= a < self.friends@.len() implies (
            #[trigger] self.friends@[a]).wf() && self.friends@[a].public_key
                != self.local_public_key by {
                assert(before[a].wf());
            }
        }
        let friend_public_key = self.friends[friend_index].public_key;
        match result.sent {
            Some(token_wanted) => {
                output.add_friend_message(friend_public_key, FriendSend::MoveToken(token_wanted));
            },
            None => {},
        }
        let ghost after_flush = self.friends@;
        let ghost sent = *self;
        let ghost out_sent = *output;
        proof {
            assert(self.friends@ =~= before.update(friend_index as int, mid));
        }
        self.cancel_requests(name_requests_backwards(result.rejected), output);
        proof {
            assert(same_friend_but_backwards(mid, self.friends@[friend_index as int]));
            assert(flushed(
                old(self).friends@[friend_index as int],
                mid,
                flush_result,
                old(self).local_public_key,
                old(self).max_operations_in_batch,
                rand_nonce,
                force,
                signer,
            ));
            assert(friend_replaced(*old(self), sent, friend_index as int, mid));
            assert(requests_cancelled(
                sent,
                *self,
                out_sent,
                *output,
                named_backwards(flush_result.rejected@),
            ));
        }
    }
}

/// A queue that lost its first request, or none, is still what is left of
/// the queue that it is left of.
proof fn lemma_suffix_step(now: Seq<McRequest>, before: Seq<McRequest>, orig: Seq<McRequest>)
    requires
        is_suffix(before, orig),
        now == before || (before.len() > 0 && now == before.drop_first()),
    ensures
        is_suffix(now, orig),
{
    if now != before {
        let k = choose|k: int| 0 <= k <= orig.len() && before == #[trigger] orig.skip(k);
        assert(now =~= orig.skip(k + 1));
    }
}

/// A friend that held no request in a currency holds none after a flush,
/// which only takes requests away.
pub proof fn lemma_flush_keeps_none(before: Friend, after: Friend, currency: Currency)
    requires
        is_suffix(after.pending_requests@, before.pending_requests@),
        is_suffix(after.pending_user_requests@, before.pending_user_requests@),
        only_currency(before.pending_requests@, currency).len() == 0,
        only_currency(before.pending_user_requests@, currency).len() == 0,
    ensures
        only_currency(after.pending_requests@, currency).len() == 0,
        only_currency(after.pending_user_requests@, currency).len() == 0,
{
    lemma_suffix_has_none(after.pending_requests@, before.pending_requests@, currency);
    lemma_suffix_has_none(after.pending_user_requests@, before.pending_user_requests@, currency);
}

/// Whether `after` and `out_after` are `before` and `out_before` with a
/// response or a cancel handed to where its request came from.
///
/// If the request came from a friend, the operation stands at the end of
/// the queue of responses and cancels for that friend, and nothing else
/// changed. If the application sent the request, the application is told,
/// the request is no longer remembered as sent, and nothing else changed. If
/// the request is not known, nothing changed at all.
pub open spec fn backwards_handed(
    before: RouterState,
    after: RouterState,
    out_before: RouterOutput,
    out_after: RouterOutput,
    origin: RequestOrigin,
    op: BackwardsOp,
) -> bool {
    &&& after.local_public_key == before.local_public_key
    &&& after.max_operations_in_batch == before.max_operations_in_batch
    &&& after.friends@.len() == before.friends@.len()
    &&& out_after.friends_messages == out_before.friends_messages
    &&& out_after.index_mutations == out_before.index_mutations
    &&& match origin {
        RequestOrigin::Friend(i) => {
            &&& after.friends@[i as int].pending_backwards_ops@
                == before.friends@[i as int].pending_backwards_ops@.push(op)
            &&& same_friend_but_backwards(before.friends@[i as int], after.friends@[i as int])
            &&& forall|j: int|
                0 <= j < before.friends@.len() && j != i ==> after.friends@[j] == before.friends@[j]
            &&& after.local_requests == before.local_requests
            &&& out_after.app_events == out_before.app_events
        },
        RequestOrigin::Local => {
            &&& after.friends == before.friends
            &&& out_after.app_events@ == out_before.app_events@.push(app_event_of(op))
            &&& !after.local_requests@.contains(request_id_of(op))
            &&& forall|id: Uid|
                id != request_id_of(op) ==> after.local_requests@.contains(id)
                    == before.local_requests@.contains(id)
        },
        RequestOrigin::Unknown => {
            &&& after == before
            &&& out_after.app_events == out_before.app_events
        },
    }
}

/// A list of requests that wait to be sent, each named by its currency and
/// its id.
pub open spec fn named(requests: Seq<McRequest>) -> Seq<LostRequest> {
    requests.map_values(
        |one: McRequest| LostRequest { currency: one.currency, request_id: one.request.request_id },
    )
}

/// Names each request of a list by its currency and its id.
pub fn name_requests(requests: &Vec<McRequest>) -> (names: Vec<LostRequest>)
    ensures
        names@ == named(requests@),
{
    let mut names: Vec<LostRequest> = Vec::new();
    let mut k: usize = 0;
    while k < requests.len()
        invariant
            0 <= k <= requests@.len(),
            names@ == named(requests@.take(k as int)),
        decreases requests@.len() - k,
    {
        names.push(
            LostRequest {
                currency: requests[k].currency,
                request_id: requests[k].request.request_id,
            },
        );
        proof {
            assert(named(requests@.take(k + 1)) =~= named(requests@.take(k as int)).push(
                LostRequest {
                    currency: requests@[k as int].currency,
                    request_id: requests@[k as int].request.request_id,
                },
            ));
        }
        k += 1;
    }
    proof {
        assert(requests@.take(k as int) =~= requests@);
    }
    names
}

/// A list of requests, each named by its currency and its id, the last of
/// the list first.
pub open spec fn named_backwards(requests: Seq<McRequest>) -> Seq<LostRequest>
    decreases requests.len(),
{
    if requests.len() == 0 {
        Seq::empty()
    } else {
        seq![
            LostRequest {
                currency: requests.last().currency,
                request_id: requests.last().request.request_id,
            },
        ] + named_backwards(requests.drop_last())
    }
}

/// Names each request of a list by its currency and its id, the last of the
/// list first.
pub fn name_requests_backwards(requests: Vec<McRequest>) -> (names: Vec<LostRequest>)
    ensures
        names@ == named_backwards(requests@),
{
    let ghost all = requests@;
    let mut rest = requests;
    let mut names: Vec<LostRequest> = Vec::new();
    assert(names@ + named_backwards(rest@) =~= named_backwards(all));
    while rest.len() > 0
        invariant
            names@ + named_backwards(rest@) == named_backwards(all),
        decreases rest@.len(),
    {
        let ghost before = rest@;
        let ghost named_before = names@;
        let request = rest.pop().unwrap();
        names.push(LostRequest { currency: request.currency, request_id: request.request.request_id });
        proof {
            assert(rest@ =~= before.drop_last());
            assert(request == before.last());
            assert(names@ + named_backwards(rest@) =~= named_before + named_backwards(before));
        }
    }
    assert(names@ + named_backwards(rest@) =~= names@);
    names
}

/// The cancel that gives a request up in the name of a node.
pub open spec fn cancel_of(request: LostRequest, reporting_public_key: PublicKey) -> BackwardsOp {
    BackwardsOp::Cancel(
        request.currency,
        CancelSendFundsOp { request_id: request.request_id, reporting_public_key },
    )
}

/// Whether `after` and `out_after` are `before` and `out_before` with each
/// request of a list given up, one after the other in the order of the
/// list: for each, one cancel that names the local node is handed to where
/// the request came from, as `backwards_handed` says.
pub open spec fn requests_cancelled(
    before: RouterState,
    after: RouterState,
    out_before: RouterOutput,
    out_after: RouterOutput,
    requests: Seq<LostRequest>,
) -> bool
    decreases requests.len(),
{
    if requests.len() == 0 {
        after == before && out_after == out_before
    } else {
        exists|mid: RouterState, out_mid: RouterOutput|
            requests_cancelled(before, mid, out_before, out_mid, requests.drop_last())
                && #[trigger] backwards_handed(
                mid,
                after,
                out_mid,
                out_after,
                mid.origin_of(requests.last().currency, requests.last().request_id),
                cancel_of(requests.last(), mid.local_public_key),
            )
    }
}

/// One more request given up makes a list that is one longer.
proof fn lemma_cancelled_push(
    before: RouterState,
    mid: RouterState,
    after: RouterState,
    out_before: RouterOutput,
    out_mid: RouterOutput,
    out_after: RouterOutput,
    requests: Seq<LostRequest>,
    request: LostRequest,
)
    requires
        requests_cancelled(before, mid, out_before, out_mid, requests),
        backwards_handed(
            mid,
            after,
            out_mid,
            out_after,
            mid.origin_of(request.currency, request.request_id),
            cancel_of(request, mid.local_public_key),
        ),
    ensures
        requests_cancelled(before, after, out_before, out_after, requests.push(request)),
{
    let more = requests.push(request);
    assert(more.drop_last() =~= requests);
    assert(more.last() == request);
    assert(backwards_handed(
        mid,
        after,
        out_mid,
        out_after,
        mid.origin_of(more.last().currency, more.last().request_id),
        cancel_of(more.last(), mid.local_public_key),
    ));
}

impl RouterState {
    /// Gives up each request of a list, in the order of the list, as
    /// `cancel_request` does. What the application was told before stays in
    /// front.
    pub fn cancel_requests(&mut self, requests: Vec<LostRequest>, output: &mut RouterOutput)
        requires
            old(self).wf(),
        ensures
            final(self).wf(),
            requests_cancelled(*old(self), *final(self), *old(output), *final(output), requests@),
            final(self).local_public_key == old(self).local_public_key,
            final(self).max_operations_in_batch == old(self).max_operations_in_batch,
            final(self).friends@.len() == old(self).friends@.len(),
            final(output).friends_messages == old(output).friends_messages,
            final(output).index_mutations == old(output).index_mutations,
            forall|j: int|
                0 <= j < old(self).friends@.len() ==> same_friend_but_backwards(
                    old(self).friends@[j],
                    #[trigger] final(self).friends@[j],
                ),
    {
        let ghost all = requests@;
        let ghost mut k: int = 0;
        let mut rest = requests;
        assert(all.take(0) =~= Seq::<LostRequest>::empty());
        while rest.len() > 0
            invariant
                self.wf(),
                self.local_public_key == old(self).local_public_key,
                self.max_operations_in_batch == old(self).max_operations_in_batch,
                self.friends@.len() == old(self).friends@.len(),
                output.friends_messages == old(output).friends_messages,
                output.index_mutations == old(output).index_mutations,
                forall|j: int|
                    0 <= j < old(self).friends@.len() ==> same_friend_but_backwards(
                        old(self).friends@[j],
                        #[trigger] self.friends@[j],
                    ),
                0 <= k <= all.len(),
                rest@ == all.skip(k),
                requests_cancelled(*old(self), *self, *old(output), *output, all.take(k)),
            decreases rest@.len(),
        {
            let ghost mid = *self;
            let ghost out_mid = *output;
            let request = rest.remove(0);
            self.cancel_request(&request.currency, &request.request_id, output);
            proof {
                assert(request == all[k]);
                assert(rest@ =~= all.skip(k + 1));
                assert(all.take(k + 1) =~= all.take(k).push(request));
                lemma_cancelled_push(
                    *old(self),
                    mid,
                    *self,
                    *old(output),
                    out_mid,
                    *output,
                    all.take(k),
                    request,
                );
                assert forall|j: int|
                    0 <= j < old(self).friends@.len() implies same_friend_but_backwards(
                    old(self).friends@[j],
                    #[trigger] self.friends@[j],
                ) by {
                    assert(same_friend_but_backwards(old(self).friends@[j], mid.friends@[j]));
                }
                k = k + 1;
            }
        }
        assert(all.take(k) =~= all);
    }
}

/// Whether two states of a friend differ at most in the queue of responses
/// and cancels on their way back.
pub open spec fn same_friend_but_backwards(before: Friend, after: Friend) -> bool {
    &&& after.public_key == before.public_key
    &&& after.token_channel == before.token_channel
    &&& after.currency_configs == before.currency_configs
    &&& after.pending_requests == before.pending_requests
    &&& after.pending_user_requests == before.pending_user_requests
    &&& after.is_online == before.is_online
    &&& after.token_wanted == before.token_wanted
}

/// The request that a response or a cancel answers.
pub open spec fn request_id_of(op: BackwardsOp) -> Uid {
    match op {
        BackwardsOp::Response(_, response) => response.request_id,
        BackwardsOp::Cancel(_, cancel) => cancel.request_id,
    }
}

/// What the application is told of a response or a cancel.
pub open spec fn app_event_of(op: BackwardsOp) -> AppEvent {
    match op {
        BackwardsOp::Response(currency, response) => AppEvent::Response(currency, response),
        BackwardsOp::Cancel(currency, cancel) => AppEvent::Cancel(currency, cancel),
    }
}

/// Takes every occurrence of an id out of a list.
pub fn remove_all(ids: &mut Vec<Uid>, id: &Uid)
    ensures
        !final(ids)@.contains(*id),
        forall|other: Uid| other != *id ==> final(ids)@.contains(other) == old(ids)@.contains(other),
{
    let mut i: usize = 0;
    while i < ids.len()
        invariant
            0 <= i <= ids@.len(),
            forall|j: int| 0 <= j < i ==> ids@[j] != *id,
            forall|other: Uid| other != *id ==> ids@.contains(other) == old(ids)@.contains(other),
        decreases ids@.len() - i,
    {
        if array_eq(&ids[i], id) {
            let ghost before = ids@;
            ids.remove(i);
            proof {
                assert forall|other: Uid| other != *id implies ids@.contains(other)
                    == before.contains(other) by {
                    if ids@.contains(other) {
                        let j = ids@.index_of(other);
                        let j0 = if j < i { j } else { j + 1 };
                        assert(before[j0] == other);
                    }
                    if before.contains(other) {
                        let j0 = before.index_of(other);
                        let j = if j0 < i { j0 } else { j0 - 1 };
                        assert(ids@[j] == other);
                    }
                }
            }
        } else {
            i += 1;
        }
    }
    assert forall|j: int| 0 <= j < ids@.len() implies ids@[j] != *id by {}
}

} // verus!
