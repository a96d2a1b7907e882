//! Where a request goes next.

use crate::mutual_credit::outgoing::queue_operation;
use crate::proto::{
    CancelSendFundsOp, copy_request, FriendTcOp, FriendTcOpView, RequestSendFundsOp,
    TransactionView,
};
use crate::route::route_tail;
use crate::router::{
    AppEvent, BackwardsOp, lemma_friend_updated, McRequest, RequestOrigin, RouterOutput,
    RouterState,
};
use crate::token_channel::outgoing::outgoing_op;
use crate::types::{array_eq, Currency, Uid};
use vstd::prelude::*;

verus! {

/// What to do with a request that a friend sent.
#[derive(Clone, Copy, Debug, PartialEq, Eq, Structural)]
pub enum ForwardDecision {
    /// The local node is the destination: the application gets the request.
    Deliver,
    /// The request goes into the queue of the friend at this index.
    Forward(usize),
    /// The request cannot go on: a cancel goes back.
    Cancel,
    /// A request with this id is on its way already: nothing is done.
    Drop,
}

/// Whether `after` and `out_after` are `before` and `out_before` with a
/// request acted on that the friend at `from` sent.
///
/// Channels, configurations and the requests of the application stay as
/// they are. A request for the local node is handed to the application, with
/// the key of the friend it came from. A request to pass on stands, with the
/// route that is left, at the end of the queue of forwarded requests of the
/// friend that `forward_decision_of` names. A request that cannot go on
/// leaves a cancel, naming the local node, at the end of the queue of
/// responses and cancels for the friend it came from. A request that is
/// known from elsewhere leaves nothing.
pub open spec fn request_handled(
    before: RouterState,
    after: RouterState,
    out_before: RouterOutput,
    out_after: RouterOutput,
    from: usize,
    currency: Currency,
    request: RequestSendFundsOp,
) -> bool {
    &&& after.local_public_key == before.local_public_key
    &&& after.max_operations_in_batch == before.max_operations_in_batch
    &&& after.local_requests == before.local_requests
    &&& after.friends@.len() == before.friends@.len()
    &&& out_after.friends_messages == out_before.friends_messages
    &&& out_after.index_mutations == out_before.index_mutations
    &&& forall|j: int|
        0 <= j < before.friends@.len() ==> {
            &&& (#[trigger] after.friends@[j]).public_key == before.friends@[j].public_key
            &&& after.friends@[j].token_channel == before.friends@[j].token_channel
            &&& after.friends@[j].currency_configs == before.friends@[j].currency_configs
            &&& after.friends@[j].is_online == before.friends@[j].is_online
            &&& after.friends@[j].token_wanted == before.friends@[j].token_wanted
            &&& after.friends@[j].pending_user_requests == before.friends@[j].pending_user_requests
        }
    &&& match before.forward_decision_of(from as int, currency, request@) {
        ForwardDecision::Deliver => {
            &&& after.friends == before.friends
            &&& out_after.app_events@ == out_before.app_events@.push(
                AppEvent::Request(before.friends@[from as int].public_key, currency, request),
            )
        },
        ForwardDecision::Forward(j) => {
            &&& out_after.app_events == out_before.app_events
            &&& after.friends@[j as int].pending_requests@.len() == before.friends@[j as int].pending_requests@.len() + 1
            &&& after.friends@[j as int].pending_requests@.drop_last() == before.friends@[j as int].pending_requests@
            &&& after.friends@[j as int].pending_requests@.last().currency == currency
            &&& after.friends@[j as int].pending_requests@.last().request@
                == request@.with_route(
                request@.route_remainder.subrange(
                    1,
                    request@.route_remainder.len() as int,
                ),
            )
            &&& after.friends@[j as int].pending_backwards_ops == before.friends@[j as int].pending_backwards_ops
            &&& forall|k: int|
                0 <= k < before.friends@.len() && k != j ==> after.friends@[k]
                    == before.friends@[k]
        },
        ForwardDecision::Cancel => {
            &&& out_after.app_events == out_before.app_events
            &&& after.friends@[from as int].pending_backwards_ops@ == before.friends@[from as int].pending_backwards_ops@.push(
                BackwardsOp::Cancel(
                    currency,
                    CancelSendFundsOp {
                        request_id: request.request_id,
                        reporting_public_key: before.local_public_key,
                    },
                ),
            )
            &&& after.friends@[from as int].pending_requests == before.friends@[from as int].pending_requests
            &&& forall|k: int|
                0 <= k < before.friends@.len() && k != from ==> after.friends@[k]
                    == before.friends@[k]
        },
        ForwardDecision::Drop => {
            &&& after.friends == before.friends
            &&& out_after.app_events == out_before.app_events
        },
    }
}

impl RouterState {
    /// Whether a request with this id is known from elsewhere than the
    /// friend at `from`: pending over the channel of another friend, or sent
    /// by the local application.
    pub open spec fn is_duplicate(&self, from: int, currency: Currency, request_id: Uid) -> bool {
        ||| self.local_requests@.contains(request_id)
        ||| exists|k: int|
            0 <= k < self.friends@.len() && k != from && (
            #[trigger] self.friends@[k]).has_remote_pending(currency, request_id)
    }

    /// Whether the friend at `j` can take a request in a currency: it can be
    /// reached, the currency is open and traded by both sides, fewer requests
    /// than the ceiling wait for it, and its channel admits the request under
    /// the debt limits of the currency.
    pub open spec fn can_take(&self, j: int, currency: Currency, request: TransactionView) -> bool {
        let friend = self.friends@[j];
        &&& friend.is_online
        &&& friend.currency_configs.contains(currency)
        &&& friend.currency_configs.value_of(currency).is_open
        &&& friend.pending_requests@.len() < self.queue_ceiling()
        &&& outgoing_op(
            friend.token_channel.channel(),
            currency,
            FriendTcOpView::RequestSendFunds(request),
            friend.token_channel.local_max_debts.value_or(currency, 0),
            friend.token_channel.remote_max_debts.value_or(currency, 0),
            self.local_public_key,
            friend.public_key,
        ) is Ok
    }

    /// A request that a friend's queue takes is within the capacity that is
    /// told of the friend: the credits that it freezes are no more than the
    /// credits that the local side can still send to the friend. So a
    /// request above that capacity is never handed on to the friend.
    pub proof fn lemma_taken_within_capacity(&self, j: int, currency: Currency, request: TransactionView)
        requires
            self.wf(),
            0 <= j < self.friends@.len(),
            self.can_take(j, currency, request),
        ensures
            self.friends@[j].balance_of(currency) is Some,
            request.frozen() <= crate::router::send_capacity(
                self.friends@[j].balance_of(currency).unwrap(),
                self.friends@[j].token_channel.remote_max_debts.value_or(currency, 0),
            ),
    {
    }

    /// What to do with a request that the friend at `from` sent, once its
    /// channel accepted it.
    ///
    /// A request whose route ends at the local node is delivered. A request
    /// whose id is known from elsewhere is dropped. Otherwise the request goes
    /// to the next node of its route, with the route that is left, if that
    /// node is a friend that can take it; if not, it is cancelled.
    pub open spec fn forward_decision_of(
        &self,
        from: int,
        currency: Currency,
        request: TransactionView,
    ) -> ForwardDecision {
        if request.route_remainder.len() == 1 {
            ForwardDecision::Deliver
        } else if request.route_remainder.len() == 0 {
            ForwardDecision::Cancel
        } else if self.is_duplicate(from, currency, request.request_id) {
            ForwardDecision::Drop
        } else {
            match self.find_friend_spec(request.route_remainder[1]) {
                None => ForwardDecision::Cancel,
                Some(j) => {
                    if self.can_take(
                        j,
                        currency,
                        request.with_route(
                            request.route_remainder.subrange(
                                1,
                                request.route_remainder.len() as int,
                            ),
                        ),
                    ) {
                        ForwardDecision::Forward(j as usize)
                    } else {
                        ForwardDecision::Cancel
                    }
                },
            }
        }
    }

    /// Whether a request with this id is known from elsewhere than the
    /// friend at `from`.
    pub fn check_duplicate(&self, from: usize, currency: &Currency, request_id: &Uid) -> (r: bool)
        requires
            self.wf(),
        ensures
            r == self.is_duplicate(from as int, *currency, *request_id),
    {
        let mut k: usize = 0;
        while k < self.local_requests.len()
            invariant
                0 <= k <= self.local_requests@.len(),
                forall|j: int| 0 <= j < k ==> self.local_requests@[j] != *request_id,
            decreases self.local_requests@.len() - k,
        {
            if array_eq(&self.local_requests[k], request_id) {
                return true;
            }
            k += 1;
        }
        let mut i: usize = 0;
        while i < self.friends.len()
            invariant
                0 <= i <= self.friends@.len(),
                self.wf(),
                !self.local_requests@.contains(*request_id),
                forall|j: int|
                    0 <= j < i && j != from ==> !(#[trigger] self.friends@[j]).has_remote_pending(
                        *currency,
                        *request_id,
                    ),
            decreases self.friends@.len() - i,
        {
            if i != from && self.friends[i].is_remote_pending(currency, request_id) {
                return true;
            }
            i += 1;
        }
        false
    }

    /// Whether the friend at `j` can take a request in a currency.
    pub fn check_can_take(&self, j: usize, currency: &Currency, request: &RequestSendFundsOp) -> (r:
        bool)
        requires
            self.wf(),
            j < self.friends@.len(),
        ensures
            r == self.can_take(j as int, *currency, request@),
    {
        let friend = &self.friends[j];
        if !friend.is_online {
            return false;
        }
        let config = match friend.currency_configs.position(currency) {
            Some(k) => *friend.currency_configs.value_at(k),
            None => return false,
        };
        if !config.is_open {
            return false;
        }
        proof {
            assert(crate::router::QUEUE_BATCHES == 16);
            assert(self.queue_ceiling() == self.max_operations_in_batch * 16);
        }
        match self.max_operations_in_batch.checked_mul(crate::router::QUEUE_BATCHES) {
            Some(ceiling) => {
                if friend.pending_requests.len() >= ceiling {
                    return false;
                }
            },
            None => {},
        }
        proof {
            friend.token_channel.lemma_mc_keys();
        }
        let tc = &friend.token_channel;
        let i = match tc.mutual_credits.position(currency) {
            Some(i) => i,
            None => return false,
        };
        if !(tc.local_currencies.has(currency) && tc.remote_currencies.has(currency)) {
            return false;
        }
        let op = FriendTcOp::RequestSendFunds(copy_request(request));
        proof {
            assert(friend.pending_requests@.len() < self.queue_ceiling());
            assert(op@ == FriendTcOpView::RequestSendFunds(request@));
            assert(tc.channel().mc_position(*currency) == Some(i as int));
            assert(tc.channel().is_active(*currency));
            assert(tc.channel().mutual_credits[i as int] == tc.mutual_credits.values()[i as int]@);
        }
        queue_operation(
            tc.mutual_credits.value_at(i),
            &op,
            tc.local_max_debts.get_or(currency, 0),
            tc.remote_max_debts.get_or(currency, 0),
            &self.local_public_key,
            &friend.public_key,
        ).is_ok()
    }

    /// What to do with a request that the friend at `from` sent.
    pub fn forward_decision(&self, from: usize, currency: &Currency, request: &RequestSendFundsOp) -> (decision:
        ForwardDecision)
        requires
            self.wf(),
        ensures
            decision == self.forward_decision_of(from as int, *currency, request@),
            decision matches ForwardDecision::Forward(j) ==> j < self.friends@.len(),
    {
        let n = request.route_remainder.len();
        if n == 1 {
            return ForwardDecision::Deliver;
        }
        if n == 0 {
            return ForwardDecision::Cancel;
        }
        if self.check_duplicate(from, currency, &request.request_id) {
            return ForwardDecision::Drop;
        }
        let j = match self.find_friend(&request.route_remainder[1]) {
            Some(j) => j,
            None => return ForwardDecision::Cancel,
        };
        proof {
            self.lemma_find_friend(j as int);
        }
        let mut forward = copy_request(request);
        forward.route_remainder = route_tail(&request.route_remainder);
        if self.check_can_take(j, currency, &forward) {
            ForwardDecision::Forward(j)
        } else {
            ForwardDecision::Cancel
        }
    }

    /// Acts on a request that the friend at `from` sent: hands it to the
    /// application, queues it for the next friend with the route that is
    /// left, sends a cancel back, or does nothing, as `forward_decision`
    /// says.
    pub fn handle_incoming_request(
        &mut self,
        from: usize,
        currency: Currency,
        request: RequestSendFundsOp,
        output: &mut RouterOutput,
    )
        requires
            old(self).wf(),
            from < old(self).friends@.len(),
        ensures
            final(self).wf(),
            request_handled(
                *old(self),
                *final(self),
                *old(output),
                *final(output),
                from,
                currency,
                request,
            ),
    {
        let ghost before = self.friends@;
        match self.forward_decision(from, &currency, &request) {
            ForwardDecision::Deliver => {
                let friend_public_key = self.friends[from].public_key;
                output.add_app_event(AppEvent::Request(friend_public_key, currency, request));
            },
            ForwardDecision::Forward(j) => {
                let mut forward = request;
                forward.route_remainder = route_tail(&forward.route_remainder);
                let ghost queue = self.friends@[j as int].pending_requests@;
                self.friends[j].pending_requests.push(McRequest { currency, request: forward });
                proof {
                    assert(self.friends@[j as int].pending_requests@.drop_last() =~= queue);
                    lemma_friend_updated(before, self.friends@, j as int, self.local_public_key);
                }
            },
            ForwardDecision::Cancel => {
                let cancel = CancelSendFundsOp {
                    request_id: request.request_id,
                    reporting_public_key: self.local_public_key,
                };
                self.friends[from].pending_backwards_ops.push(BackwardsOp::Cancel(currency, cancel));
                proof {
                    lemma_friend_updated(before, self.friends@, from as int, self.local_public_key);
                }
            },
            ForwardDecision::Drop => {},
        }
    }

    /// Takes a request of the local application. The first node of its route
    /// must be a friend that can take it, and its id must not be known
    /// already; then it waits in that friend's queue of the application's
    /// requests, and is remembered as sent by the application. Otherwise the
    /// application is told at once that the request is cancelled.
    pub fn send_request(
        &mut self,
        currency: Currency,
        request: RequestSendFundsOp,
        output: &mut RouterOutput,
    ) -> (queued: bool)
        requires
            old(self).wf(),
        ensures
            final(self).wf(),
            final(self).local_public_key == old(self).local_public_key,
            final(self).max_operations_in_batch == old(self).max_operations_in_batch,
            final(self).friends@.len() == old(self).friends@.len(),
            final(output).friends_messages == old(output).friends_messages,
            final(output).index_mutations == old(output).index_mutations,
            queued == old(self).accepts_request(currency, request@),
            queued ==> {
                let j = old(self).find_friend_spec(request@.route_remainder[0]).unwrap();
                &&& final(output).app_events == old(output).app_events
                &&& final(self).local_requests@ == old(self).local_requests@.push(request.request_id)
                &&& final(self).friends@[j].pending_user_requests@ == old(self).friends@[j].pending_user_requests@.push(McRequest { currency, request })
                &&& final(self).friends@[j].pending_requests == old(self).friends@[j].pending_requests
                &&& final(self).friends@[j].pending_backwards_ops == old(self).friends@[j].pending_backwards_ops
                &&& final(self).friends@[j].token_channel == old(self).friends@[j].token_channel
                &&& forall|k: int|
                    0 <= k < old(self).friends@.len() && k != j ==> final(self).friends@[k] == old(self).friends@[k]
            },
            !queued ==> {
                &&& *final(self) == *old(self)
                &&& final(output).app_events@ == old(output).app_events@.push(
                    AppEvent::Cancel(
                        currency,
                        CancelSendFundsOp {
                            request_id: request.request_id,
                            reporting_public_key: old(self).local_public_key,
                        },
                    ),
                )
            },
    {
        let accepted = match self.first_hop(&currency, &request) {
            Some(j) => j,
            None => {
                output.add_app_event(
                    AppEvent::Cancel(
                        currency,
                        CancelSendFundsOp {
                            request_id: request.request_id,
                            reporting_public_key: self.local_public_key,
                        },
                    ),
                );
                return false;
            },
        };
        let ghost before = self.friends@;
        self.local_requests.push(request.request_id);
        self.friends[accepted].pending_user_requests.push(McRequest { currency, request });
        proof {
            lemma_friend_updated(before, self.friends@, accepted as int, self.local_public_key);
        }
        true
    }

    /// Whether a request of the local application is taken: its route is not
    /// empty, its id is not known already, and the first node of its route is
    /// a friend that can take it.
    pub open spec fn accepts_request(&self, currency: Currency, request: TransactionView) -> bool {
        &&& request.route_remainder.len() > 0
        &&& !self.local_requests@.contains(request.request_id)
        &&& !(exists|k: int|
            0 <= k < self.friends@.len() && (#[trigger] self.friends@[k]).has_remote_pending(
                currency,
                request.request_id,
            ))
        &&& self.find_friend_spec(request.route_remainder[0]) is Some
        &&& self.can_take(
            self.find_friend_spec(request.route_remainder[0]).unwrap(),
            currency,
            request,
        )
    }

    /// The friend that takes a request of the local application, if the
    /// request is taken.
    pub fn first_hop(&self, currency: &Currency, request: &RequestSendFundsOp) -> (r: Option<usize>)
        requires
            self.wf(),
        ensures
            r is Some == self.accepts_request(*currency, request@),
            r is Some ==> r.unwrap() < self.friends@.len() && self.find_friend_spec(
                request@.route_remainder[0],
            ) == Some(r.unwrap() as int),
    {
        if request.route_remainder.len() == 0 {
            return None;
        }
        match self.find_request_origin(currency, &request.request_id) {
            RequestOrigin::Unknown => {},
            _ => return None,
        }
        let j = match self.find_friend(&request.route_remainder[0]) {
            Some(j) => j,
            None => return None,
        };
        proof {
            self.lemma_find_friend(j as int);
        }
        if self.check_can_take(j, currency, request) {
            Some(j)
        } else {
            None
        }
    }

    /// Sends a response or a cancel of the local application back to the
    /// friend that the request came from. Says whether the request was still
    /// pending over a friend's channel; if not, nothing is done.
    pub fn send_backwards(&mut self, op: BackwardsOp, output: &mut RouterOutput) -> (queued: bool)
        requires
            old(self).wf(),
        ensures
            final(self).wf(),
            final(self).friends@.len() == old(self).friends@.len(),
            *final(output) == *old(output),
            final(self).local_requests == old(self).local_requests,
            match old(self).origin_of(
                crate::router::backwards_currency(op),
                crate::router::flush::request_id_of(op),
            ) {
                RequestOrigin::Friend(i) => {
                    &&& queued
                    &&& final(self).friends@[i as int].pending_backwards_ops@ == old(self).friends@[i as int].pending_backwards_ops@.push(op)
                    &&& forall|j: int|
                        0 <= j < old(self).friends@.len() && j != i ==> final(self).friends@[j]
                            == old(self).friends@[j]
                },
                _ => !queued && *final(self) == *old(self),
            },
    {
        let (currency, request_id) = match op {
            BackwardsOp::Response(currency, response) => (currency, response.request_id),
            BackwardsOp::Cancel(currency, cancel) => (currency, cancel.request_id),
        };
        match self.find_request_origin(&currency, &request_id) {
            RequestOrigin::Friend(i) => {
                self.queue_backwards(RequestOrigin::Friend(i), op, output);
                true
            },
            _ => false,
        }
    }
}

} // verus!
