//! A friend comes within reach, or goes out of reach.

use crate::index_server::CurrencyIndexMutation;
use crate::router::{
    Friend, FriendSend, index_mutation_of, lemma_friend_updated, McRequest, RouterOutput,
    RouterState,
};
use crate::router::flush::{
    friend_flushed, name_requests, named, requests_cancelled, same_friend_but_backwards,
};
use crate::token_channel::reset::{lost_requests_of, LostRequest};
use crate::token_channel::TcStatus;
use crate::types::{PublicKey, RandValue, Signature};
use vstd::prelude::*;

verus! {

impl Friend {
    /// What the indexes of the open currencies are due, for the first `upto`
    /// of the configured currencies in their order.
    pub open spec fn open_reports(&self, upto: int) -> Seq<CurrencyIndexMutation>
        decreases upto,
    {
        if upto <= 0 {
            Seq::empty()
        } else {
            let currency = self.currency_configs.keys()[upto - 1];
            let config = self.currency_configs.values()[upto - 1];
            if config.is_open {
                self.open_reports(upto - 1).push(
                    CurrencyIndexMutation {
                        currency,
                        index_mutation: index_mutation_of(
                            self.public_key,
                            config,
                            if self.is_online {
                                self.balance_of(currency)
                            } else {
                                None
                            },
                            self.token_channel.local_max_debts.value_or(currency, 0),
                            self.token_channel.remote_max_debts.value_or(currency, 0),
                        ),
                    },
                )
            } else {
                self.open_reports(upto - 1)
            }
        }
    }

    /// Tells the index of every open currency how the friend stands.
    pub fn report_open_currencies(&self, output: &mut RouterOutput)
        requires
            self.wf(),
        ensures
            final(output).friends_messages == old(output).friends_messages,
            final(output).app_events == old(output).app_events,
            final(output).index_mutations@ == old(output).index_mutations@ + self.open_reports(
                self.currency_configs.keys().len() as int,
            ),
    {
        let n = self.currency_configs.len();
        let mut k: usize = 0;
        while k < n
            invariant
                0 <= k <= n,
                n == self.currency_configs.keys().len(),
                self.wf(),
                output.friends_messages == old(output).friends_messages,
                output.app_events == old(output).app_events,
                output.index_mutations@ == old(output).index_mutations@ + self.open_reports(
                    k as int,
                ),
            decreases n - k,
        {
            let currency = self.currency_configs.key_at(k);
            let config = *self.currency_configs.value_at(k);
            if config.is_open {
                proof {
                    self.currency_configs.lemma_index_of(k as int);
                }
                let ghost before = output.index_mutations@;
                match self.index_mutation(&currency) {
                    Some(mutation) => {
                        output.add_index_mutation(mutation);
                        assert(output.index_mutations@ =~= old(output).index_mutations@
                            + self.open_reports(k + 1));
                    },
                    None => {},
                }
            }
            k += 1;
        }
    }
}

/// Whether `after` is `before` with the friend at `i` within reach, and
/// nothing else changed.
pub open spec fn came_online(before: RouterState, after: RouterState, i: int) -> bool {
    &&& after.local_public_key == before.local_public_key
    &&& after.max_operations_in_batch == before.max_operations_in_batch
    &&& after.local_requests == before.local_requests
    &&& after.friends@ == before.friends@.update(
        i,
        (Friend { is_online: true, ..before.friends@[i] }),
    )
}

/// A friend came within reach. The index of every open currency is told
/// its capacities, and whatever the channel has to say is sent: the move
/// token that awaits an answer once more, asking for the token if the local
/// side has something to send; the local reset terms if the channel is
/// inconsistent; or a move token made of what waits in the queues. Nothing happens if the friend is not listed or was within reach
/// already.
pub fn set_friend_online<F: Fn(&Vec<u8>) -> Signature>(
    router: &mut RouterState,
    friend_public_key: PublicKey,
    rand_nonce: RandValue,
    signer: &F,
) -> (output: RouterOutput)
    requires
        old(router).wf(),
        forall|buffer: &Vec<u8>| signer.requires((buffer,)),
    ensures
        final(router).wf(),
        final(router).friends@.len() == old(router).friends@.len(),
        match old(router).find_friend_spec(friend_public_key) {
            Some(i) => {
                if old(router).friends@[i].is_online {
                    &&& *final(router) == *old(router)
                    &&& output.friends_messages@.len() == 0
                    &&& output.index_mutations@.len() == 0
                    &&& output.app_events@.len() == 0
                } else {
                    &&& final(router).friends@[i].is_online
                    &&& final(router).friends@[i].public_key == friend_public_key
                    &&& final(router).friends@[i].currency_configs == old(router).friends@[i].currency_configs
                    &&& output.index_mutations@ == (Friend {
                        is_online: true,
                        ..old(router).friends@[i]
                    }).open_reports(old(router).friends@[i].currency_configs.keys().len() as int)
                    &&& old(router).friends@[i].token_channel.status is ConsistentOut ==> {
                        &&& output.friends_messages@.len() == 1
                        &&& output.friends_messages@[0].friend_public_key == friend_public_key
                        &&& output.friends_messages@[0].send == FriendSend::MoveToken(
                            final(router).friends@[i].needs_token(),
                        )
                        &&& output.app_events@.len() == 0
                        &&& came_online(*old(router), *final(router), i)
                    }
                    &&& old(router).friends@[i].token_channel.status is Inconsistent ==> {
                        &&& output.friends_messages@.len() == 1
                        &&& output.friends_messages@[0].friend_public_key == friend_public_key
                        &&& output.friends_messages@[0].send is ResetTerms
                        &&& output.app_events@.len() == 0
                        &&& came_online(*old(router), *final(router), i)
                    }
                    &&& old(router).friends@[i].token_channel.status is ConsistentIn
                        ==> exists|mid: RouterState, start: RouterOutput|
                        {
                            &&& came_online(*old(router), mid, i)
                            &&& start.friends_messages@.len() == 0
                            &&& start.app_events@.len() == 0
                            &&& start.index_mutations@ == output.index_mutations@
                            &&& #[trigger] friend_flushed(
                                mid,
                                *final(router),
                                start,
                                output,
                                i as usize,
                                rand_nonce,
                                false,
                                signer,
                            )
                        }
                }
            },
            None => {
                &&& *final(router) == *old(router)
                &&& output.friends_messages@.len() == 0
                &&& output.index_mutations@.len() == 0
                &&& output.app_events@.len() == 0
            },
        },
{
    let mut output = RouterOutput::new();
    let i = match router.find_friend(&friend_public_key) {
        Some(i) => i,
        None => return output,
    };
    proof {
        old(router).lemma_find_friend(i as int);
    }
    if router.friends[i].is_online {
        return output;
    }
    let ghost before = router.friends@;
    router.friends[i].is_online = true;
    proof {
        lemma_friend_updated(before, router.friends@, i as int, router.local_public_key);
        assert(router.friends@[i as int] == (Friend { is_online: true, ..before[i as int] }));
        assert(router.friends@ =~= before.update(
            i as int,
            (Friend { is_online: true, ..before[i as int] }),
        ));
    }
    let ghost mid = *router;
    router.friends[i].report_open_currencies(&mut output);
    assert(output.index_mutations@ =~= router.friends@[i as int].open_reports(
        router.friends@[i as int].currency_configs.keys().len() as int,
    ));
    let wanted = router.friends[i].check_needs_token();
    match &router.friends[i].token_channel.status {
        TcStatus::ConsistentOut(_, _) => {
            output.add_friend_message(friend_public_key, FriendSend::MoveToken(wanted));
        },
        TcStatus::Inconsistent(_, _) => {
            output.add_friend_message(friend_public_key, FriendSend::ResetTerms);
        },
        TcStatus::ConsistentIn(_) => {
            let ghost start = output;
            router.flush_friend(i, rand_nonce, false, signer, &mut output);
            proof {
                assert(came_online(*old(router), mid, i as int));
                assert(friend_flushed(
                    mid,
                    *router,
                    start,
                    output,
                    (i as int) as usize,
                    rand_nonce,
                    false,
                    signer,
                ));
            }
        },
    }
    output
}

/// Whether `after` is `before` with the friend at `i` out of reach and
/// without the requests of other friends that waited to be sent to it, and
/// nothing else changed.
pub open spec fn went_offline(before: RouterState, after: RouterState, i: int) -> bool {
    &&& after.local_public_key == before.local_public_key
    &&& after.max_operations_in_batch == before.max_operations_in_batch
    &&& after.local_requests == before.local_requests
    &&& after.friends@.len() == before.friends@.len()
    &&& forall|j: int|
        0 <= j < before.friends@.len() && j != i ==> after.friends@[j] == before.friends@[j]
    &&& !after.friends@[i].is_online
    &&& after.friends@[i].pending_requests@.len() == 0
    &&& after.friends@[i].public_key == before.friends@[i].public_key
    &&& after.friends@[i].token_channel == before.friends@[i].token_channel
    &&& after.friends@[i].currency_configs == before.friends@[i].currency_configs
    &&& after.friends@[i].pending_backwards_ops == before.friends@[i].pending_backwards_ops
    &&& after.friends@[i].pending_user_requests == before.friends@[i].pending_user_requests
    &&& after.friends@[i].token_wanted == before.friends@[i].token_wanted
}

/// Whether `after` and `output` are what becomes of `before` when the
/// friend at `i` goes out of reach. If it was out of reach already, nothing
/// changes and there is nothing to do. Otherwise the friend is marked, as
/// `went_offline` says; each request of another friend that waited to be
/// sent to it is given up, as `requests_cancelled` says; and the index of
/// every open currency of the friend is told that the friend is gone.
pub open spec fn friend_offline(
    before: RouterState,
    after: RouterState,
    output: RouterOutput,
    i: int,
) -> bool {
    if !before.friends@[i].is_online {
        after == before && output.is_blank()
    } else {
        &&& output.friends_messages@.len() == 0
        &&& output.index_mutations@ == after.friends@[i].open_reports(
            before.friends@[i].currency_configs.keys().len() as int,
        )
        &&& exists|gone: RouterState, start: RouterOutput, told: RouterOutput|
            {
                &&& start.is_blank()
                &&& went_offline(before, gone, i)
                &&& #[trigger] requests_cancelled(
                    gone,
                    after,
                    start,
                    told,
                    named(before.friends@[i].pending_requests@),
                )
                &&& output.friends_messages == told.friends_messages
                &&& output.app_events == told.app_events
            }
    }
}

/// Whether `after` is `before` without the requests that waited to be sent
/// to the friend at `i`, and nothing else changed.
pub open spec fn queues_emptied(before: RouterState, after: RouterState, i: int) -> bool {
    &&& after.local_public_key == before.local_public_key
    &&& after.max_operations_in_batch == before.max_operations_in_batch
    &&& after.local_requests == before.local_requests
    &&& after.friends@.len() == before.friends@.len()
    &&& forall|j: int|
        0 <= j < before.friends@.len() && j != i ==> after.friends@[j] == before.friends@[j]
    &&& after.friends@[i].pending_requests@.len() == 0
    &&& after.friends@[i].pending_user_requests@.len() == 0
    &&& after.friends@[i].is_online == before.friends@[i].is_online
    &&& after.friends@[i].public_key == before.friends@[i].public_key
    &&& after.friends@[i].token_channel == before.friends@[i].token_channel
    &&& after.friends@[i].currency_configs == before.friends@[i].currency_configs
    &&& after.friends@[i].pending_backwards_ops == before.friends@[i].pending_backwards_ops
    &&& after.friends@[i].token_wanted == before.friends@[i].token_wanted
}

/// A friend went out of reach. Every request that other friends sent and
/// that waits to be sent to it is cancelled toward where it came from, and
/// the index of every open currency is told that the friend is gone.
/// Nothing happens if the friend is not listed or was out of reach already.
pub fn set_friend_offline(router: &mut RouterState, friend_public_key: PublicKey) -> (output:
    RouterOutput)
    requires
        old(router).wf(),
    ensures
        final(router).wf(),
        final(router).local_public_key == old(router).local_public_key,
        final(router).max_operations_in_batch == old(router).max_operations_in_batch,
        final(router).friends@.len() == old(router).friends@.len(),
        output.friends_messages@.len() == 0,
        forall|j: int|
            0 <= j < old(router).friends@.len() && old(router).find_friend_spec(friend_public_key)
                != Some(j) ==> same_friend_but_backwards(
                old(router).friends@[j],
                #[trigger] final(router).friends@[j],
            ),
        old(router).find_friend_spec(friend_public_key) matches Some(i) ==> friend_offline(
            *old(router),
            *final(router),
            output,
            i,
        ),
        match old(router).find_friend_spec(friend_public_key) {
            Some(i) => {
                if !old(router).friends@[i].is_online {
                    &&& *final(router) == *old(router)
                    &&& output.index_mutations@.len() == 0
                    &&& output.app_events@.len() == 0
                } else {
                    &&& !final(router).friends@[i].is_online
                    &&& final(router).friends@[i].pending_requests@.len() == 0
                    &&& final(router).friends@[i].public_key == friend_public_key
                    &&& final(router).friends@[i].token_channel == old(router).friends@[i].token_channel
                    &&& final(router).friends@[i].currency_configs == old(router).friends@[i].currency_configs
                    &&& final(router).friends@[i].pending_user_requests == old(router).friends@[i].pending_user_requests
                    &&& output.index_mutations@ == final(router).friends@[i].open_reports(
                        old(router).friends@[i].currency_configs.keys().len() as int,
                    )
                    &&& exists|gone: RouterState, start: RouterOutput, told: RouterOutput|
                        {
                            &&& start.is_blank()
                            &&& went_offline(*old(router), gone, i)
                            &&& #[trigger] requests_cancelled(
                                gone,
                                *final(router),
                                start,
                                told,
                                named(old(router).friends@[i].pending_requests@),
                            )
                            &&& output.friends_messages == told.friends_messages
                            &&& output.app_events == told.app_events
                        }
                }
            },
            None => {
                &&& *final(router) == *old(router)
                &&& output.index_mutations@.len() == 0
                &&& output.app_events@.len() == 0
            },
        },
{
    let mut output = RouterOutput::new();
    let i = match router.find_friend(&friend_public_key) {
        Some(i) => i,
        None => return output,
    };
    proof {
        old(router).lemma_find_friend(i as int);
    }
    if !router.friends[i].is_online {
        return output;
    }
    let ghost start = output;
    let ghost before = router.friends@;
    router.friends[i].is_online = false;
    let mut drained: Vec<McRequest> = Vec::new();
    core::mem::swap(&mut router.friends[i].pending_requests, &mut drained);
    proof {
        assert(router.friends@ =~= before.update(i as int, router.friends@[i as int]));
        lemma_friend_updated(before, router.friends@, i as int, router.local_public_key);
    }
    let ghost emptied = router.friends@;
    let ghost gone = *router;
    router.cancel_requests(name_requests(&drained), &mut output);
    let ghost told = output;
    proof {
        assert(same_friend_but_backwards(emptied[i as int], router.friends@[i as int]));
        assert forall|j: int| 0 <= j < before.len() && j != i implies same_friend_but_backwards(
            before[j],
            #[trigger] router.friends@[j],
        ) by {
            assert(same_friend_but_backwards(emptied[j], router.friends@[j]));
        }
    }
    router.friends[i].report_open_currencies(&mut output);
    assert(output.index_mutations@ =~= router.friends@[i as int].open_reports(
        router.friends@[i as int].currency_configs.keys().len() as int,
    ));
    proof {
        assert(went_offline(*old(router), gone, i as int));
        assert(start.is_blank());
        assert(requests_cancelled(
            gone,
            *router,
            start,
            told,
            named(old(router).friends@[i as int].pending_requests@),
        ));
    }
    output
}

/// Takes a friend off the list. First the friend goes out of reach, as
/// `set_friend_offline` has it; then every request that is pending over the
/// channel with the friend, every request of another friend that still
/// waits for it, and every request of the application that waits for it, is
/// given up in this order, with one cancel each toward where it came from;
/// then the friend is gone, with its channel. Nothing happens if the friend
/// is not listed.
pub fn remove_friend(router: &mut RouterState, friend_public_key: PublicKey) -> (output:
    RouterOutput)
    requires
        old(router).wf(),
    ensures
        final(router).wf(),
        final(router).local_public_key == old(router).local_public_key,
        final(router).max_operations_in_batch == old(router).max_operations_in_batch,
        !final(router).has_friend(friend_public_key),
        output.friends_messages@.len() == 0,
        match old(router).find_friend_spec(friend_public_key) {
            Some(i) => {
                &&& final(router).friends@.len() + 1 == old(router).friends@.len()
                &&& forall|j: int|
                    0 <= j < i ==> same_friend_but_backwards(
                        old(router).friends@[j],
                        #[trigger] final(router).friends@[j],
                    )
                &&& forall|j: int|
                    i <= j < final(router).friends@.len() ==> same_friend_but_backwards(
                        old(router).friends@[j + 1],
                        #[trigger] final(router).friends@[j],
                    )
                &&& exists|
                    offline: RouterState,
                    told: RouterOutput,
                    emptied: RouterState,
                    cancelled: RouterState,
                |
                    {
                        &&& friend_offline(*old(router), offline, told, i)
                        &&& queues_emptied(offline, emptied, i)
                        &&& #[trigger] requests_cancelled(
                            emptied,
                            cancelled,
                            told,
                            output,
                            lost_requests_of(
                                offline.friends@[i].token_channel.channel().mutual_credits,
                            ) + named(offline.friends@[i].pending_requests@) + named(
                                offline.friends@[i].pending_user_requests@,
                            ),
                        )
                        &&& final(router).friends@ == cancelled.friends@.remove(i)
                        &&& final(router).local_requests == cancelled.local_requests
                    }
            },
            None => {
                &&& *final(router) == *old(router)
                &&& output.index_mutations@.len() == 0
                &&& output.app_events@.len() == 0
            },
        },
{
    let i = match router.find_friend(&friend_public_key) {
        Some(i) => i,
        None => return RouterOutput::new(),
    };
    proof {
        old(router).lemma_find_friend(i as int);
    }
    let mut output = set_friend_offline(router, friend_public_key);
    proof {
        if old(router).friends@[i as int].is_online {
        } else {
            assert(router.friends@ == old(router).friends@);
        }
        assert(router.friends@[i as int].public_key == friend_public_key);
        assert(router.friends@[i as int].token_channel == old(
            router,
        ).friends@[i as int].token_channel);
    }
    let ghost offline_state = *router;
    let ghost told = output;
    let ghost offline = router.friends@;
    let snapshot = router.friends[i].token_channel.reset_snapshot();
    let mut lost = snapshot.lost_requests;
    let mut waiting: Vec<McRequest> = Vec::new();
    core::mem::swap(&mut router.friends[i].pending_user_requests, &mut waiting);
    let mut forwarded: Vec<McRequest> = Vec::new();
    core::mem::swap(&mut router.friends[i].pending_requests, &mut forwarded);
    proof {
        assert(router.friends@ =~= offline.update(i as int, router.friends@[i as int]));
        lemma_friend_updated(offline, router.friends@, i as int, router.local_public_key);
    }
    let ghost emptied = router.friends@;
    let ghost emptied_state = *router;
    let mut named_forwarded = name_requests(&forwarded);
    let mut named_waiting = name_requests(&waiting);
    lost.append(&mut named_forwarded);
    lost.append(&mut named_waiting);
    router.cancel_requests(lost, &mut output);
    let ghost cancelled_state = *router;
    let ghost cancelled = router.friends@;
    router.friends.remove(i);
    proof {
        let after = router.friends@;
        assert forall|a: int| 0 <= a < after.len() implies (#[trigger] after[a]).wf() && after[a].public_key
            != router.local_public_key && after[a].public_key != friend_public_key by {
            let a0 = if a < i { a } else { a + 1 };
            assert(after[a] == cancelled[a0]);
            assert(cancelled[a0].wf());
            assert(same_friend_but_backwards(emptied[a0], cancelled[a0]));
            assert(same_friend_but_backwards(emptied[i as int], cancelled[i as int]));
            if a0 < i {
                assert(cancelled[a0].public_key != cancelled[i as int].public_key);
            } else {
                assert(cancelled[i as int].public_key != cancelled[a0].public_key);
            }
        }
        assert forall|a: int, b: int| 0 <= a < b < after.len() implies (#[trigger] after[a]).public_key
            != (#[trigger] after[b]).public_key by {
            let a0 = if a < i { a } else { a + 1 };
            let b0 = if b < i { b } else { b + 1 };
            assert(cancelled[a0].public_key != cancelled[b0].public_key);
        }
        assert forall|j: int| 0 <= j < after.len() implies same_friend_but_backwards(
            old(router).friends@[if j < i { j } else { j + 1 }],
            #[trigger] after[j],
        ) by {
            let j0 = if j < i { j } else { j + 1 };
            assert(same_friend_but_backwards(emptied[j0], cancelled[j0]));
            assert(emptied[j0] == offline[j0]);
            assert(same_friend_but_backwards(old(router).friends@[j0], offline[j0]));
        }
        assert(friend_offline(*old(router), offline_state, told, i as int));
        assert(queues_emptied(offline_state, emptied_state, i as int));
        assert(requests_cancelled(
            emptied_state,
            cancelled_state,
            told,
            output,
            lost_requests_of(
                offline_state.friends@[i as int].token_channel.channel().mutual_credits,
            ) + named(offline_state.friends@[i as int].pending_requests@) + named(
                offline_state.friends@[i as int].pending_user_requests@,
            ),
        ));
    }
    output
}

} // verus!
