//! The node's scheduler: it owns the channels of all friends, queues what is
//! to be sent to each, and passes requests, responses and cancels from one
//! channel to the next.

use crate::currency_map::CurrencyMap;
use crate::index_server::{CurrencyIndexMutation, IndexMutation, UpdateFriend};
use crate::mutual_credit::{
    find_request, has_request, lemma_request_index, request_index, MutualCreditView,
};
use crate::proto::{
    CancelSendFundsOp, McBalance, RelayAddress, RequestSendFundsOp, ResponseSendFundsOp,
};
use crate::token_channel::TokenChannel;
use crate::types::{array_eq, Currency, PublicKey, Rate, Uid};
use vstd::prelude::*;

pub mod flush;
pub mod handle_config;
pub mod handle_friend;
pub mod handle_liveness;
pub mod handle_route;

verus! {

/// How many batches of operations a friend's queue of forwarded requests
/// holds before further requests for that friend are cancelled.
pub const QUEUE_BATCHES: usize = 16;

/// What the local node has configured for one currency of one friend.
#[derive(Clone, Copy, Debug, PartialEq, Eq)]
pub struct CurrencyConfig {
    /// What the local node charges the friend for forwarding.
    pub rate: Rate,
    /// Whether requests are let through in this currency.
    pub is_open: bool,
    /// Whether the local node wants out of this currency.
    pub remove: bool,
}

/// A request that waits to be sent to a friend.
#[derive(Clone, Debug, PartialEq, Eq)]
pub struct McRequest {
    pub currency: Currency,
    pub request: RequestSendFundsOp,
}

/// A response or a cancel that waits to be sent back to a friend.
#[derive(Clone, Copy, Debug, PartialEq, Eq)]
pub enum BackwardsOp {
    Response(Currency, ResponseSendFundsOp),
    Cancel(Currency, CancelSendFundsOp),
}

/// The currency of a response or a cancel.
pub open spec fn backwards_currency(op: BackwardsOp) -> Currency {
    match op {
        BackwardsOp::Response(currency, _) => currency,
        BackwardsOp::Cancel(currency, _) => currency,
    }
}

/// One friend: the channel with it, and what waits to be sent over it.
#[derive(Clone, Debug, PartialEq, Eq)]
pub struct Friend {
    pub public_key: PublicKey,
    pub token_channel: TokenChannel,
    pub currency_configs: CurrencyMap<CurrencyConfig>,
    /// Responses and cancels on their way back, oldest first.
    pub pending_backwards_ops: Vec<BackwardsOp>,
    /// Requests that came from other friends, oldest first.
    pub pending_requests: Vec<McRequest>,
    /// Requests of the local application, oldest first.
    pub pending_user_requests: Vec<McRequest>,
    /// Whether the friend can be reached.
    pub is_online: bool,
    /// Whether the friend asked for the token.
    pub token_wanted: bool,
}

/// The state of the router.
#[derive(Clone, Debug, PartialEq, Eq)]
pub struct RouterState {
    pub local_public_key: PublicKey,
    pub friends: Vec<Friend>,
    /// Requests that the local application sent and that are not answered
    /// yet.
    pub local_requests: Vec<Uid>,
    /// The most operations that one move token carries.
    pub max_operations_in_batch: usize,
}

/// What is to be sent to a friend. The content is read from the friend's
/// channel when it is sent.
#[derive(Clone, Copy, Debug, PartialEq, Eq)]
pub enum FriendSend {
    /// The move token that the channel holds as sent, with the flag that
    /// asks for the token back.
    MoveToken(bool),
    /// The local reset terms of the channel.
    ResetTerms,
}

/// One thing to send to one friend.
#[derive(Clone, Copy, Debug, PartialEq, Eq)]
pub struct FriendOutput {
    pub friend_public_key: PublicKey,
    pub send: FriendSend,
}

/// What the application is told.
#[derive(Clone, Debug, PartialEq, Eq)]
pub enum AppEvent {
    /// A request for the local node arrived from a friend.
    Request(PublicKey, Currency, RequestSendFundsOp),
    /// A request of the application was fulfilled.
    Response(Currency, ResponseSendFundsOp),
    /// A request of the application was given up.
    Cancel(Currency, CancelSendFundsOp),
    /// The channel with a friend froze.
    ChannelInconsistent(PublicKey),
    /// The channel with a friend restarted.
    ChannelConsistent(PublicKey),
    /// A friend said through which relays it can be reached.
    RelaysUpdate(PublicKey, Vec<RelayAddress>),
}

/// What the router asks of the rest of the node after it handled an event.
#[derive(Clone, Debug, PartialEq, Eq)]
pub struct RouterOutput {
    pub friends_messages: Vec<FriendOutput>,
    pub index_mutations: Vec<CurrencyIndexMutation>,
    pub app_events: Vec<AppEvent>,
}

impl RouterOutput {
    /// Whether there is nothing to do.
    pub open spec fn is_blank(&self) -> bool {
        &&& self.friends_messages@.len() == 0
        &&& self.index_mutations@.len() == 0
        &&& self.app_events@.len() == 0
    }

    /// Nothing to do.
    pub fn new() -> (output: RouterOutput)
        ensures
            output.is_blank(),
            output.friends_messages@.len() == 0,
            output.index_mutations@.len() == 0,
            output.app_events@.len() == 0,
    {
        RouterOutput {
            friends_messages: Vec::new(),
            index_mutations: Vec::new(),
            app_events: Vec::new(),
        }
    }

    /// Adds something to send to a friend.
    pub fn add_friend_message(&mut self, friend_public_key: PublicKey, send: FriendSend)
        ensures
            final(self).friends_messages@ == old(self).friends_messages@.push(
                FriendOutput { friend_public_key, send },
            ),
            final(self).index_mutations == old(self).index_mutations,
            final(self).app_events == old(self).app_events,
    {
        self.friends_messages.push(FriendOutput { friend_public_key, send });
    }

    /// Adds a mutation for the index of a currency.
    pub fn add_index_mutation(&mut self, mutation: CurrencyIndexMutation)
        ensures
            final(self).index_mutations@ == old(self).index_mutations@.push(mutation),
            final(self).friends_messages == old(self).friends_messages,
            final(self).app_events == old(self).app_events,
    {
        self.index_mutations.push(mutation);
    }

    /// Adds something to tell the application.
    pub fn add_app_event(&mut self, event: AppEvent)
        ensures
            final(self).app_events@ == old(self).app_events@.push(event),
            final(self).friends_messages == old(self).friends_messages,
            final(self).index_mutations == old(self).index_mutations,
    {
        self.app_events.push(event);
    }
}

/// A number of credits as the index takes it: nothing if it is negative,
/// the largest number if it is above that.
pub open spec fn clamp_capacity(room: int) -> u128 {
    if room <= 0 {
        0
    } else if room > u128::MAX {
        u128::MAX
    } else {
        room as u128
    }
}

/// The credits that the local node can still send to a friend in a
/// currency: what `remote_max_debt` leaves above the balance and the pending
/// debt of the local side, and never less than nothing.
pub open spec fn send_capacity(balance: McBalance, remote_max_debt: u128) -> u128 {
    clamp_capacity(remote_max_debt - (balance.balance + balance.local_pending_debt))
}

/// The credits that the local node can still receive from a friend in a
/// currency: what `local_max_debt` and the balance leave above the pending
/// debt of the remote side, and never less than nothing.
pub open spec fn recv_capacity(balance: McBalance, local_max_debt: u128) -> u128 {
    clamp_capacity(local_max_debt + balance.balance - balance.remote_pending_debt)
}

/// `limit + balance - pending`, as the index takes it.
fn room_with(limit: u128, balance: i128, pending: u128) -> (room: u128)
    ensures
        room == clamp_capacity(limit + balance - pending),
{
    if balance >= 0 {
        match limit.checked_add(balance as u128) {
            Some(have) => if have <= pending {
                0
            } else {
                have - pending
            },
            None => {
                // limit + balance is above the largest number by `over`
                let over = limit - (u128::MAX - balance as u128);
                if over > pending {
                    u128::MAX
                } else {
                    u128::MAX - (pending - over)
                }
            },
        }
    } else {
        let owed: u128 = if balance == i128::MIN {
            0x8000_0000_0000_0000_0000_0000_0000_0000
        } else {
            (-balance) as u128
        };
        match owed.checked_add(pending) {
            Some(used) => if used >= limit {
                0
            } else {
                limit - used
            },
            None => 0,
        }
    }
}

/// `limit - balance - pending`, as the index takes it.
fn room_against(limit: u128, balance: i128, pending: u128) -> (room: u128)
    ensures
        room == clamp_capacity(limit - balance - pending),
{
    if balance >= 0 {
        match (balance as u128).checked_add(pending) {
            Some(used) => if used >= limit {
                0
            } else {
                limit - used
            },
            None => 0,
        }
    } else {
        let owed: u128 = if balance == i128::MIN {
            0x8000_0000_0000_0000_0000_0000_0000_0000
        } else {
            (-balance) as u128
        };
        if pending >= owed {
            let used = pending - owed;
            if used >= limit {
                0
            } else {
                limit - used
            }
        } else {
            match limit.checked_add(owed - pending) {
                Some(room) => room,
                None => u128::MAX,
            }
        }
    }
}

/// The two capacities of a currency of a friend: how much can be sent, how
/// much can be received.
pub fn calc_capacities(balance: &McBalance, local_max_debt: u128, remote_max_debt: u128) -> (r: (
    u128,
    u128,
))
    ensures
        r.0 == send_capacity(*balance, remote_max_debt),
        r.1 == recv_capacity(*balance, local_max_debt),
{
    (
        room_against(remote_max_debt, balance.balance, balance.local_pending_debt),
        room_with(local_max_debt, balance.balance, balance.remote_pending_debt),
    )
}

/// A mutual credit that is within trust has no capacity below zero before
/// it is clamped, so that what the index is told is what is there; and a
/// request that keeps the mutual credit within trust freezes no more than
/// can still be sent.
pub proof fn lemma_capacity_is_trust(
    mc: MutualCreditView,
    local_max_debt: u128,
    remote_max_debt: u128,
    frozen: nat,
)
    ensures
        mc.within_trust(local_max_debt, remote_max_debt) ==> mc.send_capacity(remote_max_debt) >= 0
            && mc.recv_capacity(local_max_debt) >= 0,
        send_capacity(mc.balance, remote_max_debt) == clamp_capacity(
            mc.send_capacity(remote_max_debt),
        ),
        recv_capacity(mc.balance, local_max_debt) == clamp_capacity(
            mc.recv_capacity(local_max_debt),
        ),
        mc.balance.balance + mc.balance.local_pending_debt + mc.balance.remote_pending_debt
            + frozen <= remote_max_debt ==> frozen <= mc.send_capacity(remote_max_debt),
{
}

/// What the index of a currency is told about a friend: its capacities and
/// rate while the currency is open and has a mutual credit, its removal
/// otherwise.
pub open spec fn index_mutation_of(
    friend_public_key: PublicKey,
    config: CurrencyConfig,
    opt_balance: Option<McBalance>,
    local_max_debt: u128,
    remote_max_debt: u128,
) -> IndexMutation {
    if config.is_open && opt_balance is Some {
        IndexMutation::UpdateFriend(
            UpdateFriend {
                public_key: friend_public_key,
                send_capacity: send_capacity(opt_balance.unwrap(), remote_max_debt),
                recv_capacity: recv_capacity(opt_balance.unwrap(), local_max_debt),
                rate: config.rate,
            },
        )
    } else {
        IndexMutation::RemoveFriend(friend_public_key)
    }
}

/// Makes the mutation for the index of a currency.
pub fn create_index_mutation(
    friend_public_key: &PublicKey,
    config: &CurrencyConfig,
    opt_balance: Option<McBalance>,
    local_max_debt: u128,
    remote_max_debt: u128,
) -> (mutation: IndexMutation)
    ensures
        mutation == index_mutation_of(
            *friend_public_key,
            *config,
            opt_balance,
            local_max_debt,
            remote_max_debt,
        ),
{
    match opt_balance {
        Some(balance) if config.is_open => {
            let (send_capacity, recv_capacity) = calc_capacities(
                &balance,
                local_max_debt,
                remote_max_debt,
            );
            IndexMutation::UpdateFriend(
                UpdateFriend {
                    public_key: *friend_public_key,
                    send_capacity,
                    recv_capacity,
                    rate: config.rate,
                },
            )
        },
        _ => IndexMutation::RemoveFriend(*friend_public_key),
    }
}

impl Friend {
    /// What holds of a friend at all times: its channel and its
    /// configuration are well formed, and every mutual credit of the channel
    /// keeps the balance bound.
    pub open spec fn wf(&self) -> bool {
        &&& self.token_channel.wf()
        &&& self.currency_configs.wf()
        &&& self.keeps_balance_bound()
    }

    /// Whether every mutual credit of the channel keeps the balance bound
    /// under the debt limits that are configured for its currency, zero
    /// where none is configured: the balance with the pending debt of the
    /// local side on top is within the remote limit, and the balance taken
    /// the other way with the pending debt of the remote side on top is
    /// within the local limit.
    pub open spec fn keeps_balance_bound(&self) -> bool {
        forall|k: int|
            0 <= k < self.token_channel.mutual_credits.values().len() ==> {
                let balance = (#[trigger] self.token_channel.mutual_credits.values()[k])@.balance;
                let currency = self.token_channel.mutual_credits.keys()[k];
                &&& balance.balance + balance.local_pending_debt
                    <= self.token_channel.remote_max_debts.value_or(currency, 0)
                &&& -balance.balance + balance.remote_pending_debt
                    <= self.token_channel.local_max_debts.value_or(currency, 0)
            }
    }

    /// The balance of a currency, if the channel has a mutual credit for it.
    pub open spec fn balance_of(&self, currency: Currency) -> Option<McBalance> {
        match self.token_channel.channel().mc_position(currency) {
            Some(i) => Some(self.token_channel.channel().mutual_credits[i].balance),
            None => None,
        }
    }

    /// Whether a request of the friend is pending under this id in the
    /// currency.
    pub open spec fn has_remote_pending(&self, currency: Currency, request_id: Uid) -> bool {
        match self.token_channel.channel().mc_position(currency) {
            Some(i) => has_request(
                self.token_channel.channel().mutual_credits[i].remote,
                request_id,
            ),
            None => false,
        }
    }

    /// A friend that was just added: a fresh channel, nothing configured,
    /// nothing queued, not reachable yet.
    pub fn new(local_public_key: &PublicKey, friend_public_key: &PublicKey) -> (friend: Friend)
        ensures
            friend.wf(),
            friend.public_key == *friend_public_key,
            friend.token_channel.is_fresh(*local_public_key, *friend_public_key),
            friend.currency_configs.keys().len() == 0,
            friend.pending_backwards_ops@.len() == 0,
            friend.pending_requests@.len() == 0,
            friend.pending_user_requests@.len() == 0,
            !friend.is_online,
            !friend.token_wanted,
    {
        Friend {
            public_key: *friend_public_key,
            token_channel: TokenChannel::new(local_public_key, friend_public_key),
            currency_configs: CurrencyMap::new(),
            pending_backwards_ops: Vec::new(),
            pending_requests: Vec::new(),
            pending_user_requests: Vec::new(),
            is_online: false,
            token_wanted: false,
        }
    }

    /// The balance of a currency, if the channel has a mutual credit for it.
    pub fn get_balance(&self, currency: &Currency) -> (r: Option<McBalance>)
        requires
            self.wf(),
        ensures
            r == self.balance_of(*currency),
    {
        proof {
            self.token_channel.lemma_mc_keys();
        }
        match self.token_channel.mutual_credits.position(currency) {
            Some(i) => Some(self.token_channel.mutual_credits.value_at(i).balance),
            None => None,
        }
    }

    /// The fees that a request of the friend brought with it, if one is
    /// pending under this id in the currency, and nothing if none is.
    pub open spec fn remote_fees(&self, currency: Currency, request_id: Uid) -> u128 {
        match self.token_channel.channel().mc_position(currency) {
            Some(i) => {
                let rows = self.token_channel.channel().mutual_credits[i].remote;
                if has_request(rows, request_id) {
                    rows[request_index(rows, request_id)].left_fees
                } else {
                    0
                }
            },
            None => 0,
        }
    }

    /// The fees that a request of the friend brought with it, if one is
    /// pending under this id in the currency, and nothing if none is.
    pub fn get_remote_fees(&self, currency: &Currency, request_id: &Uid) -> (r: u128)
        requires
            self.wf(),
        ensures
            r == self.remote_fees(*currency, *request_id),
    {
        proof {
            self.token_channel.lemma_mc_keys();
        }
        match self.token_channel.mutual_credits.position(currency) {
            Some(i) => {
                let rows = &self.token_channel.mutual_credits.value_at(i).pending_transactions.remote;
                match find_request(rows, request_id) {
                    Some(k) => {
                        proof {
                            lemma_request_index(
                                self.token_channel.channel().mutual_credits[i as int].remote,
                                k as int,
                            );
                        }
                        rows[k].left_fees
                    },
                    None => 0,
                }
            },
            None => 0,
        }
    }

    /// Whether a request of the friend is pending under this id in the
    /// currency.
    pub fn is_remote_pending(&self, currency: &Currency, request_id: &Uid) -> (r: bool)
        requires
            self.wf(),
        ensures
            r == self.has_remote_pending(*currency, *request_id),
    {
        proof {
            self.token_channel.lemma_mc_keys();
        }
        match self.token_channel.mutual_credits.position(currency) {
            Some(i) => find_request(
                &self.token_channel.mutual_credits.value_at(i).pending_transactions.remote,
                request_id,
            ).is_some(),
            None => false,
        }
    }

    /// The mutation that the index of a currency is due, as things stand.
    pub fn index_mutation(&self, currency: &Currency) -> (r: Option<CurrencyIndexMutation>)
        requires
            self.wf(),
        ensures
            match r {
                Some(m) => {
                    &&& self.currency_configs.contains(*currency)
                    &&& m.currency == *currency
                    &&& m.index_mutation == index_mutation_of(
                        self.public_key,
                        self.currency_configs.value_of(*currency),
                        if self.is_online {
                            self.balance_of(*currency)
                        } else {
                            None
                        },
                        self.token_channel.local_max_debts.value_or(*currency, 0),
                        self.token_channel.remote_max_debts.value_or(*currency, 0),
                    )
                },
                None => !self.currency_configs.contains(*currency),
            },
    {
        match self.currency_configs.position(currency) {
            Some(i) => {
                let config = self.currency_configs.value_at(i);
                let opt_balance = if self.is_online {
                    self.get_balance(currency)
                } else {
                    None
                };
                let local_max_debt = self.token_channel.local_max_debts.get_or(currency, 0);
                let remote_max_debt = self.token_channel.remote_max_debts.get_or(currency, 0);
                Some(
                    CurrencyIndexMutation {
                        currency: *currency,
                        index_mutation: create_index_mutation(
                            &self.public_key,
                            config,
                            opt_balance,
                            local_max_debt,
                            remote_max_debt,
                        ),
                    },
                )
            },
            None => None,
        }
    }
}

/// Whether no friend is listed twice, and none is the local node.
pub open spec fn distinct_friends(friends: Seq<Friend>, local_public_key: PublicKey) -> bool {
    &&& forall|i: int, j: int|
        0 <= i < j < friends.len() ==> (#[trigger] friends[i]).public_key != (
        #[trigger] friends[j]).public_key
    &&& forall|i: int|
        0 <= i < friends.len() ==> (#[trigger] friends[i]).public_key != local_public_key
}

/// A list of friends in which one friend changed, stayed well formed and
/// kept its key, is still a list of well-formed friends, each listed once.
pub proof fn lemma_friend_updated(
    before: Seq<Friend>,
    after: Seq<Friend>,
    i: int,
    local_public_key: PublicKey,
)
    requires
        0 <= i < before.len(),
        after == before.update(i, after[i]),
        after[i].wf(),
        after[i].public_key == before[i].public_key,
        distinct_friends(before, local_public_key),
        forall|j: int| 0 <= j < before.len() ==> (#[trigger] before[j]).wf(),
    ensures
        distinct_friends(after, local_public_key),
        forall|j: int| 0 <= j < after.len() ==> (#[trigger] after[j]).wf(),
{
    assert forall|a: int, b: int| 0 <= a < b < after.len() implies (#[trigger] after[a]).public_key
        != (#[trigger] after[b]).public_key by {
        assert(before[a].public_key != before[b].public_key);
    }
    assert forall|a: int| 0 <= a < after.len() implies (#[trigger] after[a]).wf() && after[a].public_key
        != local_public_key by {
        assert(before[a].wf());
        assert(before[a].public_key != local_public_key);
    }
}

/// The requests of a queue that are not in a currency, in their order.
pub open spec fn without_currency(queue: Seq<McRequest>, currency: Currency) -> Seq<McRequest>
    decreases queue.len(),
{
    if queue.len() == 0 {
        Seq::empty()
    } else if queue.last().currency == currency {
        without_currency(queue.drop_last(), currency)
    } else {
        without_currency(queue.drop_last(), currency).push(queue.last())
    }
}

/// The requests of a queue that are in a currency, in their order.
pub open spec fn only_currency(queue: Seq<McRequest>, currency: Currency) -> Seq<McRequest>
    decreases queue.len(),
{
    if queue.len() == 0 {
        Seq::empty()
    } else if queue.last().currency == currency {
        only_currency(queue.drop_last(), currency).push(queue.last())
    } else {
        only_currency(queue.drop_last(), currency)
    }
}

/// A queue holds no request in a currency exactly if none of its requests
/// is in the currency.
pub proof fn lemma_only_currency_empty(queue: Seq<McRequest>, currency: Currency)
    ensures
        (only_currency(queue, currency).len() == 0) == (forall|i: int|
            0 <= i < queue.len() ==> (#[trigger] queue[i]).currency != currency),
    decreases queue.len(),
{
    if queue.len() > 0 {
        lemma_only_currency_empty(queue.drop_last(), currency);
        if only_currency(queue, currency).len() == 0 {
            assert forall|i: int| 0 <= i < queue.len() implies (#[trigger] queue[i]).currency
                != currency by {
                if i < queue.len() - 1 {
                    assert(queue.drop_last()[i] == queue[i]);
                }
            }
        } else if queue.last().currency != currency {
            let i = choose|i: int|
                0 <= i < queue.drop_last().len() && (#[trigger] queue.drop_last()[i]).currency
                    == currency;
            assert(queue[i].currency == currency);
        }
    }
}

/// Once the requests in a currency are taken out, none is left.
pub proof fn lemma_none_left(queue: Seq<McRequest>, currency: Currency)
    ensures
        only_currency(without_currency(queue, currency), currency).len() == 0,
    decreases queue.len(),
{
    if queue.len() > 0 {
        lemma_none_left(queue.drop_last(), currency);
        if queue.last().currency != currency {
            assert(without_currency(queue, currency).drop_last() =~= without_currency(
                queue.drop_last(),
                currency,
            ));
        }
    }
}

/// Whether a queue is what is left of another once requests were taken from
/// its front.
pub open spec fn is_suffix(after: Seq<McRequest>, before: Seq<McRequest>) -> bool {
    exists|k: int| 0 <= k <= before.len() && after == #[trigger] before.skip(k)
}

/// What is left of a queue that holds no request in a currency holds none
/// either.
pub proof fn lemma_suffix_has_none(
    after: Seq<McRequest>,
    before: Seq<McRequest>,
    currency: Currency,
)
    requires
        is_suffix(after, before),
        only_currency(before, currency).len() == 0,
    ensures
        only_currency(after, currency).len() == 0,
{
    lemma_only_currency_empty(before, currency);
    lemma_only_currency_empty(after, currency);
    let k = choose|k: int| 0 <= k <= before.len() && after == #[trigger] before.skip(k);
    assert forall|i: int| 0 <= i < after.len() implies (#[trigger] after[i]).currency
        != currency by {
        assert(after[i] == before[i + k]);
    }
}

/// Takes the requests in a currency out of a queue, and hands them back in
/// their order.
pub fn take_currency_requests(queue: &mut Vec<McRequest>, currency: &Currency) -> (taken: Vec<
    McRequest,
>)
    ensures
        final(queue)@ == without_currency(old(queue)@, *currency),
        taken@ == only_currency(old(queue)@, *currency),
{
    let mut all: Vec<McRequest> = Vec::new();
    core::mem::swap(queue, &mut all);
    let ghost orig = all@;
    let mut taken: Vec<McRequest> = Vec::new();
    let ghost mut i: int = 0;
    while all.len() > 0
        invariant
            0 <= i <= orig.len(),
            all@ == orig.skip(i),
            queue@ == without_currency(orig.take(i), *currency),
            taken@ == only_currency(orig.take(i), *currency),
        decreases all@.len(),
    {
        proof {
            assert(orig.take(i + 1).drop_last() =~= orig.take(i));
            assert(orig.take(i + 1).last() == orig[i]);
            assert(all@[0] == orig[i]);
        }
        let request = all.remove(0);
        assert(all@ =~= orig.skip(i + 1));
        if request.currency.same(currency) {
            taken.push(request);
        } else {
            queue.push(request);
        }
        proof {
            i = i + 1;
        }
    }
    assert(orig.take(i) =~= orig);
    taken
}

/// In a well-formed router, every mutual credit of every channel keeps the
/// balance bound under the debt limits that are configured for its currency:
/// the balance with the pending debt of the local side on top is within the
/// remote limit, and the balance taken the other way with the pending debt of
/// the remote side on top is within the local limit.
pub proof fn lemma_balance_bound(router: RouterState, friend_index: int, mc_index: int)
    requires
        router.wf(),
        0 <= friend_index < router.friends@.len(),
        0 <= mc_index < router.friends@[friend_index].token_channel.channel().mutual_credits.len(),
    ensures
        ({
            let channel = router.friends@[friend_index].token_channel;
            let mc = channel.channel().mutual_credits[mc_index];
            let local_max_debt = channel.local_max_debts.value_or(mc.currency, 0);
            let remote_max_debt = channel.remote_max_debts.value_or(mc.currency, 0);
            &&& mc.balance.balance + mc.balance.local_pending_debt <= remote_max_debt
            &&& -mc.balance.balance + mc.balance.remote_pending_debt <= local_max_debt
        }),
{
    let friend = router.friends@[friend_index];
    assert(friend.wf());
    let channel = friend.token_channel;
    assert(channel.mutual_credits.values()[mc_index]@.wf());
    assert(channel.trusted_at(mc_index));
}

/// In a well-formed router, every mutual credit of every channel holds
/// what its pending rows say: each pending debt is the sum, over the rows of
/// its table, of the payment and the fees left of the row.
pub proof fn lemma_pending_consistency(router: RouterState, friend_index: int, mc_index: int)
    requires
        router.wf(),
        0 <= friend_index < router.friends@.len(),
        0 <= mc_index < router.friends@[friend_index].token_channel.channel().mutual_credits.len(),
    ensures
        ({
            let mc = router.friends@[friend_index].token_channel.channel().mutual_credits[mc_index];
            &&& crate::mutual_credit::total_frozen(mc.remote) == mc.balance.remote_pending_debt
            &&& crate::mutual_credit::total_frozen(mc.local) == mc.balance.local_pending_debt
        }),
{
    let friend = router.friends@[friend_index];
    assert(friend.wf());
    assert(friend.token_channel.mutual_credits.values()[mc_index]@.wf());
}

/// Where a request came from.
#[derive(Clone, Copy, Debug, PartialEq, Eq, Structural)]
pub enum RequestOrigin {
    /// From the friend at this index, over whose channel it is pending.
    Friend(usize),
    /// From the local application.
    Local,
    /// From nowhere that is known any more.
    Unknown,
}

impl RouterState {
    /// What holds of the router at all times: every friend is well formed and
    /// listed once, and a move token carries at least one operation.
    pub open spec fn wf(&self) -> bool {
        &&& distinct_friends(self.friends@, self.local_public_key)
        &&& forall|i: int| 0 <= i < self.friends@.len() ==> (#[trigger] self.friends@[i]).wf()
        &&& self.max_operations_in_batch >= 1
    }

    /// Whether a friend with this key is listed.
    pub open spec fn has_friend(&self, public_key: PublicKey) -> bool {
        exists|i: int| 0 <= i < self.friends@.len() && (#[trigger] self.friends@[i]).public_key
            == public_key
    }

    /// Where the friend with this key is listed, if it is.
    pub open spec fn find_friend_spec(&self, public_key: PublicKey) -> Option<int> {
        if self.has_friend(public_key) {
            Some(
                choose|i: int|
                    0 <= i < self.friends@.len() && (#[trigger] self.friends@[i]).public_key
                        == public_key,
            )
        } else {
            None
        }
    }

    /// A friend is found where it is listed.
    pub proof fn lemma_find_friend(&self, i: int)
        requires
            self.wf(),
            0 <= i < self.friends@.len(),
        ensures
            self.find_friend_spec(self.friends@[i].public_key) == Some(i),
    {
        let j = choose|j: int|
            0 <= j < self.friends@.len() && (#[trigger] self.friends@[j]).public_key
                == self.friends@[i].public_key;
        if i < j {
            assert(self.friends@[i].public_key != self.friends@[j].public_key);
        } else if j < i {
            assert(self.friends@[j].public_key != self.friends@[i].public_key);
        }
    }

    /// The most requests that wait in a friend's queue of forwarded
    /// requests.
    pub open spec fn queue_ceiling(&self) -> nat {
        (self.max_operations_in_batch as nat) * (QUEUE_BATCHES as nat)
    }

    /// Where the request with this id came from: the first friend over whose
    /// channel it is pending in the currency, else the local application if it
    /// sent a request with this id, else nowhere.
    pub open spec fn origin_of(&self, currency: Currency, request_id: Uid) -> RequestOrigin {
        if exists|i: int|
            0 <= i < self.friends@.len() && (#[trigger] self.friends@[i]).has_remote_pending(
                currency,
                request_id,
            ) {
            RequestOrigin::Friend(self.first_origin(currency, request_id, 0) as usize)
        } else if self.local_requests@.contains(request_id) {
            RequestOrigin::Local
        } else {
            RequestOrigin::Unknown
        }
    }

    /// The first friend from index `from` on over whose channel the request
    /// is pending, or the number of friends if there is none.
    pub open spec fn first_origin(&self, currency: Currency, request_id: Uid, from: int) -> int
        decreases self.friends@.len() - from,
    {
        if from < 0 || from >= self.friends@.len() {
            self.friends@.len() as int
        } else if self.friends@[from].has_remote_pending(currency, request_id) {
            from
        } else {
            self.first_origin(currency, request_id, from + 1)
        }
    }

    /// A router without friends.
    pub fn new(local_public_key: PublicKey, max_operations_in_batch: usize) -> (router:
        RouterState)
        ensures
            router.wf(),
            router.local_public_key == local_public_key,
            router.friends@.len() == 0,
            router.local_requests@.len() == 0,
            router.max_operations_in_batch == if max_operations_in_batch == 0 {
                1
            } else {
                max_operations_in_batch
            },
    {
        RouterState {
            local_public_key,
            friends: Vec::new(),
            local_requests: Vec::new(),
            max_operations_in_batch: if max_operations_in_batch == 0 {
                1
            } else {
                max_operations_in_batch
            },
        }
    }

    /// Where the friend with this key is listed, if it is.
    pub fn find_friend(&self, public_key: &PublicKey) -> (r: Option<usize>)
        ensures
            r is Some == self.has_friend(*public_key),
            r is Some ==> r.unwrap() < self.friends@.len() && self.friends@[r.unwrap() as int].public_key
                == *public_key,
    {
        let mut i: usize = 0;
        while i < self.friends.len()
            invariant
                0 <= i <= self.friends@.len(),
                forall|j: int| 0 <= j < i ==> (#[trigger] self.friends@[j]).public_key != *public_key,
            decreases self.friends@.len() - i,
        {
            if array_eq(&self.friends[i].public_key, public_key) {
                return Some(i);
            }
            i += 1;
        }
        None
    }

    /// Adds a friend, unless it is listed already or is the local node
    /// itself. Says whether it was added.
    pub fn add_friend(&mut self, friend_public_key: &PublicKey) -> (added: bool)
        requires
            old(self).wf(),
        ensures
            final(self).wf(),
            final(self).local_public_key == old(self).local_public_key,
            final(self).local_requests == old(self).local_requests,
            final(self).max_operations_in_batch == old(self).max_operations_in_batch,
            added == (!old(self).has_friend(*friend_public_key) && *friend_public_key != old(self).local_public_key),
            !added ==> final(self).friends == old(self).friends,
            added ==> {
                &&& final(self).friends@.len() == old(self).friends@.len() + 1
                &&& final(self).friends@.drop_last() == old(self).friends@
                &&& final(self).friends@.last().public_key == *friend_public_key
                &&& final(self).friends@.last().token_channel.is_fresh(
                    old(self).local_public_key,
                    *friend_public_key,
                )
                &&& final(self).friends@.last().currency_configs.keys().len() == 0
                &&& final(self).friends@.last().pending_backwards_ops@.len() == 0
                &&& final(self).friends@.last().pending_requests@.len() == 0
                &&& final(self).friends@.last().pending_user_requests@.len() == 0
                &&& !final(self).friends@.last().is_online
                &&& !final(self).friends@.last().token_wanted
            },
    {
        if array_eq(friend_public_key, &self.local_public_key) || self.find_friend(
            friend_public_key,
        ).is_some() {
            return false;
        }
        let friend = Friend::new(&self.local_public_key, friend_public_key);
        self.friends.push(friend);
        proof {
            assert(self.friends@.drop_last() =~= old(self).friends@);
        }
        true
    }

    /// Where the request with this id came from.
    pub fn find_request_origin(&self, currency: &Currency, request_id: &Uid) -> (origin:
        RequestOrigin)
        requires
            self.wf(),
        ensures
            origin == self.origin_of(*currency, *request_id),
            origin matches RequestOrigin::Friend(i) ==> i < self.friends@.len()
                && self.friends@[i as int].has_remote_pending(*currency, *request_id),
    {
        let mut i: usize = 0;
        while i < self.friends.len()
            invariant
                0 <= i <= self.friends@.len(),
                self.wf(),
                forall|j: int|
                    0 <= j < i ==> !(#[trigger] self.friends@[j]).has_remote_pending(
                        *currency,
                        *request_id,
                    ),
                self.first_origin(*currency, *request_id, 0) == self.first_origin(
                    *currency,
                    *request_id,
                    i as int,
                ),
            decreases self.friends@.len() - i,
        {
            if self.friends[i].is_remote_pending(currency, request_id) {
                return RequestOrigin::Friend(i);
            }
            i += 1;
        }
        let mut k: usize = 0;
        while k < self.local_requests.len()
            invariant
                0 <= k <= self.local_requests@.len(),
                forall|j: int| 0 <= j < k ==> self.local_requests@[j] != *request_id,
                forall|j: int|
                    0 <= j < self.friends@.len() ==> !(
                    #[trigger] self.friends@[j]).has_remote_pending(*currency, *request_id),
            decreases self.local_requests@.len() - k,
        {
            if array_eq(&self.local_requests[k], request_id) {
                return RequestOrigin::Local;
            }
            k += 1;
        }
        RequestOrigin::Unknown
    }
}

} // verus!
