//! What the application configures for a currency of a friend.

use crate::index_server::{CurrencyIndexMutation, IndexMutation};
use crate::router::{
    CurrencyConfig, Friend, index_mutation_of, lemma_friend_updated, only_currency, RouterOutput,
    RouterState, take_currency_requests, without_currency,
};
use crate::router::flush::{
    friend_flushed, name_requests, named, requests_cancelled, same_friend_but_backwards,
};
use crate::types::{Currency, MAX_FUNDER_DEBT, PublicKey, RandValue, Rate, Signature};
use vstd::prelude::*;

verus! {

/// What is configured for a currency when it is added: no fee, closed.
pub open spec fn initial_config() -> CurrencyConfig {
    CurrencyConfig { rate: Rate { mul: 0, add: 0 }, is_open: false, remove: false }
}

/// Whether the configuration of a friend is what it was, but for one
/// currency, which now has `config`.
pub open spec fn config_set(
    before: Friend,
    after: Friend,
    currency: Currency,
    config: CurrencyConfig,
) -> bool {
    &&& after.currency_configs.contains(currency)
    &&& after.currency_configs.value_of(currency) == config
    &&& forall|c: Currency|
        after.currency_configs.contains(c) == (c == currency || before.currency_configs.contains(
            c,
        ))
    &&& forall|c: Currency|
        c != currency && before.currency_configs.contains(c) ==> after.currency_configs.value_of(c)
            == before.currency_configs.value_of(c)
}

/// Whether `after` is `before` with the configuration of one currency of
/// the friend at `i` set to `config`, and nothing else changed: not the
/// friend's channel, not what waits to be sent, no other friend.
pub open spec fn config_changed(
    before: RouterState,
    after: RouterState,
    i: int,
    currency: Currency,
    config: CurrencyConfig,
) -> bool {
    &&& after.local_public_key == before.local_public_key
    &&& after.local_requests == before.local_requests
    &&& after.max_operations_in_batch == before.max_operations_in_batch
    &&& after.friends@.len() == before.friends@.len()
    &&& forall|j: int|
        0 <= j < before.friends@.len() && j != i ==> after.friends@[j] == before.friends@[j]
    &&& config_set(before.friends@[i], after.friends@[i], currency, config)
    &&& after.friends@[i].public_key == before.friends@[i].public_key
    &&& after.friends@[i].token_channel == before.friends@[i].token_channel
    &&& after.friends@[i].pending_backwards_ops == before.friends@[i].pending_backwards_ops
    &&& after.friends@[i].pending_requests == before.friends@[i].pending_requests
    &&& after.friends@[i].pending_user_requests == before.friends@[i].pending_user_requests
    &&& after.friends@[i].is_online == before.friends@[i].is_online
    &&& after.friends@[i].token_wanted == before.friends@[i].token_wanted
}

impl RouterState {
    /// The configuration of a currency of a friend, if there is one.
    pub open spec fn config_of(&self, friend_index: int, currency: Currency) -> Option<
        CurrencyConfig,
    > {
        if self.friends@[friend_index].currency_configs.contains(currency) {
            Some(self.friends@[friend_index].currency_configs.value_of(currency))
        } else {
            None
        }
    }

    /// The configuration of a currency of a friend, if there is one.
    pub fn get_config(&self, friend_index: usize, currency: &Currency) -> (r: Option<
        CurrencyConfig,
    >)
        requires
            self.wf(),
            friend_index < self.friends@.len(),
        ensures
            r == self.config_of(friend_index as int, *currency),
    {
        let configs = &self.friends[friend_index].currency_configs;
        match configs.position(currency) {
            Some(k) => Some(*configs.value_at(k)),
            None => None,
        }
    }

    /// Sets the configuration of a currency of a friend, and leaves
    /// everything else as it is.
    pub fn set_config(&mut self, friend_index: usize, currency: Currency, config: CurrencyConfig)
        requires
            old(self).wf(),
            friend_index < old(self).friends@.len(),
        ensures
            final(self).wf(),
            config_changed(*old(self), *final(self), friend_index as int, currency, config),
            final(self).local_public_key == old(self).local_public_key,
            final(self).local_requests == old(self).local_requests,
            final(self).max_operations_in_batch == old(self).max_operations_in_batch,
            final(self).friends@.len() == old(self).friends@.len(),
            forall|j: int|
                0 <= j < old(self).friends@.len() && j != friend_index ==> final(self).friends@[j]
                    == old(self).friends@[j],
            config_set(
                old(self).friends@[friend_index as int],
                final(self).friends@[friend_index as int],
                currency,
                config,
            ),
            final(self).friends@[friend_index as int].public_key == old(self).friends@[friend_index as int].public_key,
            final(self).friends@[friend_index as int].token_channel == old(self).friends@[friend_index as int].token_channel,
            final(self).friends@[friend_index as int].pending_backwards_ops == old(self).friends@[friend_index as int].pending_backwards_ops,
            final(self).friends@[friend_index as int].pending_requests == old(self).friends@[friend_index as int].pending_requests,
            final(self).friends@[friend_index as int].pending_user_requests == old(self).friends@[friend_index as int].pending_user_requests,
            final(self).friends@[friend_index as int].is_online == old(self).friends@[friend_index as int].is_online,
            final(self).friends@[friend_index as int].token_wanted == old(self).friends@[friend_index as int].token_wanted,
    {
        let ghost before = self.friends@;
        self.friends[friend_index].currency_configs.set(currency, config);
        proof {
            lemma_friend_updated(before, self.friends@, friend_index as int, self.local_public_key);
        }
    }

    /// Tells the index of a currency how a friend stands, as things are.
    fn report_to_index(&self, friend_index: usize, currency: &Currency, output: &mut RouterOutput)
        requires
            self.wf(),
            friend_index < self.friends@.len(),
        ensures
            final(output).friends_messages == old(output).friends_messages,
            final(output).app_events == old(output).app_events,
            match self.config_of(friend_index as int, *currency) {
                Some(config) => {
                    let friend = self.friends@[friend_index as int];
                    final(output).index_mutations@ == old(output).index_mutations@.push(
                        CurrencyIndexMutation {
                            currency: *currency,
                            index_mutation: index_mutation_of(
                                friend.public_key,
                                config,
                                if friend.is_online {
                                    friend.balance_of(*currency)
                                } else {
                                    None
                                },
                                friend.token_channel.local_max_debts.value_or(*currency, 0),
                                friend.token_channel.remote_max_debts.value_or(*currency, 0),
                            ),
                        },
                    )
                },
                None => final(output).index_mutations == old(output).index_mutations,
            },
    {
        match self.friends[friend_index].index_mutation(currency) {
            Some(mutation) => output.add_index_mutation(mutation),
            None => {},
        }
    }
}

/// Starts to trade a currency with a friend. The currency gets its initial
/// configuration; it is closed until it is opened. The friend's channel is
/// not touched and nothing is sent. Nothing happens if the friend is not
/// listed or the currency is configured already.
pub fn add_currency(
    router: &mut RouterState,
    friend_public_key: PublicKey,
    currency: Currency,
) -> (output: RouterOutput)
    requires
        old(router).wf(),
    ensures
        final(router).wf(),
        output.friends_messages@.len() == 0,
        output.index_mutations@.len() == 0,
        output.app_events@.len() == 0,
        final(router).friends@.len() == old(router).friends@.len(),
        match old(router).find_friend_spec(friend_public_key) {
            Some(i) => {
                if old(router).config_of(i, currency) is None {
                    config_changed(*old(router), *final(router), i, currency, initial_config())
                } else {
                    *final(router) == *old(router)
                }
            },
            None => *final(router) == *old(router),
        },
{
    let output = RouterOutput::new();
    // First we make sure that the friend exists:
    let i = match router.find_friend(&friend_public_key) {
        Some(i) => i,
        None => return output,
    };
    proof {
        old(router).lemma_find_friend(i as int);
    }
    if router.get_config(i, &currency).is_some() {
        return output;
    }
    router.set_config(
        i,
        currency,
        CurrencyConfig { rate: Rate::new(), is_open: false, remove: false },
    );
    output
}

/// Marks a currency of a friend for removal, or takes the mark back. With
/// the mark the local side stops trading the currency at its next move token.
/// The mark is set, and then the friend is sent what waits for it, as
/// `flush_friend` does. Nothing happens if the friend is not listed or the
/// currency is not configured.
fn set_remove_flag<F: Fn(&Vec<u8>) -> Signature>(
    router: &mut RouterState,
    friend_public_key: PublicKey,
    currency: Currency,
    remove: bool,
    rand_nonce: RandValue,
    signer: &F,
) -> (output: RouterOutput)
    requires
        old(router).wf(),
        forall|buffer: &Vec<u8>| signer.requires((buffer,)),
    ensures
        final(router).wf(),
        final(router).friends@.len() == old(router).friends@.len(),
        output.index_mutations@.len() == 0,
        match old(router).find_friend_spec(friend_public_key) {
            Some(i) => match old(router).config_of(i, currency) {
                Some(config) => {
                    &&& final(router).config_of(i, currency) == Some(
                        CurrencyConfig { remove, ..config },
                    )
                    &&& forall|c: Currency|
                        c != currency ==> final(router).config_of(i, c) == old(router).config_of(
                            i,
                            c,
                        )
                    &&& exists|mid: RouterState, start: RouterOutput|
                        {
                            &&& start.is_blank()
                            &&& config_changed(
                                *old(router),
                                mid,
                                i,
                                currency,
                                (CurrencyConfig { remove, ..config }),
                            )
                            &&& #[trigger] friend_flushed(
                                mid,
                                *final(router),
                                start,
                                output,
                                i as usize,
                                rand_nonce,
                                false,
                                signer,
                            )
                        }
                },
                None => *final(router) == *old(router) && output.is_blank(),
            },
            None => *final(router) == *old(router) && output.is_blank(),
        },
{
    let mut output = RouterOutput::new();
    let i = match router.find_friend(&friend_public_key) {
        Some(i) => i,
        None => return output,
    };
    proof {
        old(router).lemma_find_friend(i as int);
    }
    let config = match router.get_config(i, &currency) {
        Some(config) => config,
        None => return output,
    };
    router.set_config(i, currency, CurrencyConfig { remove, ..config });
    let ghost configured = router.friends@[i as int].currency_configs;
    let ghost mid = *router;
    let ghost start = output;
    router.flush_friend(i, rand_nonce, false, signer, &mut output);
    proof {
        assert(router.friends@[i as int].currency_configs == configured);
        assert(start.is_blank());
        assert(config_changed(
            *old(router),
            mid,
            i as int,
            currency,
            (CurrencyConfig { remove, ..config }),
        ));
        assert(friend_flushed(
            mid,
            *router,
            start,
            output,
            (i as int) as usize,
            rand_nonce,
            false,
            signer,
        ));
    }
    output
}

/// Marks a currency of a friend for removal: the local side stops trading
/// it at its next move token. The mark is set, and then the friend is sent
/// what waits for it, as `flush_friend` does. Nothing happens if the friend
/// is not listed or the currency is not configured.
pub fn set_remove_currency<F: Fn(&Vec<u8>) -> Signature>(
    router: &mut RouterState,
    friend_public_key: PublicKey,
    currency: Currency,
    rand_nonce: RandValue,
    signer: &F,
) -> (output: RouterOutput)
    requires
        old(router).wf(),
        forall|buffer: &Vec<u8>| signer.requires((buffer,)),
    ensures
        final(router).wf(),
        final(router).friends@.len() == old(router).friends@.len(),
        output.index_mutations@.len() == 0,
        match old(router).find_friend_spec(friend_public_key) {
            Some(i) => match old(router).config_of(i, currency) {
                Some(config) => {
                    &&& final(router).config_of(i, currency) == Some(
                        CurrencyConfig { remove: true, ..config },
                    )
                    &&& forall|c: Currency|
                        c != currency ==> final(router).config_of(i, c) == old(router).config_of(
                            i,
                            c,
                        )
                    &&& exists|mid: RouterState, start: RouterOutput|
                        {
                            &&& start.is_blank()
                            &&& config_changed(
                                *old(router),
                                mid,
                                i,
                                currency,
                                (CurrencyConfig { remove: true, ..config }),
                            )
                            &&& #[trigger] friend_flushed(
                                mid,
                                *final(router),
                                start,
                                output,
                                i as usize,
                                rand_nonce,
                                false,
                                signer,
                            )
                        }
                },
                None => *final(router) == *old(router) && output.is_blank(),
            },
            None => *final(router) == *old(router) && output.is_blank(),
        },
{
    set_remove_flag(router, friend_public_key, currency, true, rand_nonce, signer)
}

/// Takes back the mark that a currency of a friend is to be removed, and
/// then sends the friend what waits for it, as `flush_friend` does. Nothing
/// happens if the friend is not listed or the currency is not configured.
pub fn unset_remove_currency<F: Fn(&Vec<u8>) -> Signature>(
    router: &mut RouterState,
    friend_public_key: PublicKey,
    currency: Currency,
    rand_nonce: RandValue,
    signer: &F,
) -> (output: RouterOutput)
    requires
        old(router).wf(),
        forall|buffer: &Vec<u8>| signer.requires((buffer,)),
    ensures
        final(router).wf(),
        final(router).friends@.len() == old(router).friends@.len(),
        output.index_mutations@.len() == 0,
        match old(router).find_friend_spec(friend_public_key) {
            Some(i) => match old(router).config_of(i, currency) {
                Some(config) => {
                    &&& final(router).config_of(i, currency) == Some(
                        CurrencyConfig { remove: false, ..config },
                    )
                    &&& forall|c: Currency|
                        c != currency ==> final(router).config_of(i, c) == old(router).config_of(
                            i,
                            c,
                        )
                    &&& exists|mid: RouterState, start: RouterOutput|
                        {
                            &&& start.is_blank()
                            &&& config_changed(
                                *old(router),
                                mid,
                                i,
                                currency,
                                (CurrencyConfig { remove: false, ..config }),
                            )
                            &&& #[trigger] friend_flushed(
                                mid,
                                *final(router),
                                start,
                                output,
                                i as usize,
                                rand_nonce,
                                false,
                                signer,
                            )
                        }
                },
                None => *final(router) == *old(router) && output.is_blank(),
            },
            None => *final(router) == *old(router) && output.is_blank(),
        },
{
    set_remove_flag(router, friend_public_key, currency, false, rand_nonce, signer)
}

/// Whether a friend's state is what it was, but for the debt limits of one
/// currency, which now are `local_max_debt` and `remote_max_debt`.
pub open spec fn limits_set(
    before: Friend,
    after: Friend,
    currency: Currency,
    local_max_debt: u128,
    remote_max_debt: u128,
) -> bool {
    &&& after.public_key == before.public_key
    &&& after.currency_configs == before.currency_configs
    &&& after.pending_backwards_ops == before.pending_backwards_ops
    &&& after.pending_requests == before.pending_requests
    &&& after.pending_user_requests == before.pending_user_requests
    &&& after.is_online == before.is_online
    &&& after.token_wanted == before.token_wanted
    &&& after.token_channel.status == before.token_channel.status
    &&& after.token_channel.mutual_credits == before.token_channel.mutual_credits
    &&& after.token_channel.local_currencies == before.token_channel.local_currencies
    &&& after.token_channel.remote_currencies == before.token_channel.remote_currencies
    &&& after.token_channel.move_token_counter == before.token_channel.move_token_counter
    &&& after.token_channel.local_max_debts.value_or(currency, 0) == local_max_debt
    &&& after.token_channel.remote_max_debts.value_or(currency, 0) == remote_max_debt
    &&& forall|c: Currency|
        c != currency ==> {
            &&& after.token_channel.local_max_debts.value_or(c, 0)
                == before.token_channel.local_max_debts.value_or(c, 0)
            &&& after.token_channel.remote_max_debts.value_or(c, 0)
                == before.token_channel.remote_max_debts.value_or(c, 0)
        }
}

/// Whether new debt limits for a currency of a friend are taken: neither is
/// above the largest debt that a channel can have, and they leave room for
/// what the channel holds in the currency, so that the balance bound is kept.
pub open spec fn limits_taken(
    friend: Friend,
    currency: Currency,
    local_max_debt: u128,
    remote_max_debt: u128,
) -> bool {
    &&& local_max_debt <= MAX_FUNDER_DEBT
    &&& remote_max_debt <= MAX_FUNDER_DEBT
    &&& friend.token_channel.limits_fit(currency, local_max_debt, remote_max_debt)
}

/// Sets the most that a friend may owe the local node in a currency, and
/// tells the index if the currency is open. Nothing happens if the friend is
/// not listed, if the currency is not configured, if the amount is above the
/// largest debt that a channel can have, or if the amount is below what the
/// channel holds in the currency.
pub fn set_remote_max_debt(
    router: &mut RouterState,
    friend_public_key: PublicKey,
    currency: Currency,
    remote_max_debt: u128,
) -> (output: RouterOutput)
    requires
        old(router).wf(),
    ensures
        final(router).wf(),
        final(router).local_public_key == old(router).local_public_key,
        final(router).max_operations_in_batch == old(router).max_operations_in_batch,
        final(router).local_requests == old(router).local_requests,
        final(router).friends@.len() == old(router).friends@.len(),
        output.friends_messages@.len() == 0,
        output.app_events@.len() == 0,
        match old(router).find_friend_spec(friend_public_key) {
            Some(i) => match old(router).config_of(i, currency) {
                Some(config) if remote_max_debt <= MAX_FUNDER_DEBT && old(router).friends@[i].token_channel.limits_fit(
                    currency,
                    old(router).friends@[i].token_channel.local_max_debts.value_or(currency, 0),
                    remote_max_debt,
                ) => {
                    let before = old(router).friends@[i];
                    let after = final(router).friends@[i];
                    let local_max_debt = before.token_channel.local_max_debts.value_or(currency, 0);
                    &&& limits_set(before, after, currency, local_max_debt, remote_max_debt)
                    &&& forall|j: int|
                        0 <= j < old(router).friends@.len() && j != i ==> final(router).friends@[j]
                            == old(router).friends@[j]
                    &&& if config.is_open {
                        output.index_mutations@ == seq![
                            CurrencyIndexMutation {
                                currency,
                                index_mutation: index_mutation_of(
                                    friend_public_key,
                                    config,
                                    if before.is_online {
                                        before.balance_of(currency)
                                    } else {
                                        None
                                    },
                                    local_max_debt,
                                    remote_max_debt,
                                ),
                            },
                        ]
                    } else {
                        output.index_mutations@.len() == 0
                    }
                },
                _ => *final(router) == *old(router) && output.index_mutations@.len() == 0,
            },
            None => *final(router) == *old(router) && output.index_mutations@.len() == 0,
        },
{
    let mut output = RouterOutput::new();
    // First we make sure that the friend exists:
    let i = match router.find_friend(&friend_public_key) {
        Some(i) => i,
        None => return output,
    };
    proof {
        old(router).lemma_find_friend(i as int);
    }
    // Currency exists (we don't do anything otherwise)
    let config = match router.get_config(i, &currency) {
        Some(config) => config,
        None => return output,
    };
    if remote_max_debt > MAX_FUNDER_DEBT {
        return output;
    }
    let local_max_debt = router.friends[i].token_channel.local_max_debts.get_or(&currency, 0);
    if !router.friends[i].token_channel.check_limits_fit(&currency, local_max_debt, remote_max_debt) {
        return output;
    }
    let ghost before = router.friends@;
    router.friends[i].token_channel.set_remote_max_debt(currency, remote_max_debt);
    proof {
        lemma_friend_updated(before, router.friends@, i as int, router.local_public_key);
        assert(router.friends@[i as int].balance_of(currency) == before[i as int].balance_of(
            currency,
        ));
    }
    // Create an index mutation if needed:
    if config.is_open {
        router.report_to_index(i, &currency, &mut output);
        assert(output.index_mutations@ =~= seq![output.index_mutations@[0]]);
    }
    output
}

/// Sets the most that the local node lets itself owe a friend in a
/// currency, and tells the index if the currency is open. Nothing happens if
/// the friend is not listed, if the currency is not configured, if the amount
/// is above the largest debt that a channel can have, or if the amount is
/// below what the channel holds in the currency.
pub fn set_local_max_debt(
    router: &mut RouterState,
    friend_public_key: PublicKey,
    currency: Currency,
    local_max_debt: u128,
) -> (output: RouterOutput)
    requires
        old(router).wf(),
    ensures
        final(router).wf(),
        final(router).local_public_key == old(router).local_public_key,
        final(router).max_operations_in_batch == old(router).max_operations_in_batch,
        final(router).local_requests == old(router).local_requests,
        final(router).friends@.len() == old(router).friends@.len(),
        output.friends_messages@.len() == 0,
        output.app_events@.len() == 0,
        match old(router).find_friend_spec(friend_public_key) {
            Some(i) => match old(router).config_of(i, currency) {
                Some(config) if local_max_debt <= MAX_FUNDER_DEBT && old(router).friends@[i].token_channel.limits_fit(
                    currency,
                    local_max_debt,
                    old(router).friends@[i].token_channel.remote_max_debts.value_or(currency, 0),
                ) => {
                    let before = old(router).friends@[i];
                    let after = final(router).friends@[i];
                    let remote_max_debt = before.token_channel.remote_max_debts.value_or(
                        currency,
                        0,
                    );
                    &&& limits_set(before, after, currency, local_max_debt, remote_max_debt)
                    &&& forall|j: int|
                        0 <= j < old(router).friends@.len() && j != i ==> final(router).friends@[j]
                            == old(router).friends@[j]
                    &&& if config.is_open {
                        output.index_mutations@ == seq![
                            CurrencyIndexMutation {
                                currency,
                                index_mutation: index_mutation_of(
                                    friend_public_key,
                                    config,
                                    if before.is_online {
                                        before.balance_of(currency)
                                    } else {
                                        None
                                    },
                                    local_max_debt,
                                    remote_max_debt,
                                ),
                            },
                        ]
                    } else {
                        output.index_mutations@.len() == 0
                    }
                },
                _ => *final(router) == *old(router) && output.index_mutations@.len() == 0,
            },
            None => *final(router) == *old(router) && output.index_mutations@.len() == 0,
        },
{
    let mut output = RouterOutput::new();
    // First we make sure that the friend exists:
    let i = match router.find_friend(&friend_public_key) {
        Some(i) => i,
        None => return output,
    };
    proof {
        old(router).lemma_find_friend(i as int);
    }
    let config = match router.get_config(i, &currency) {
        Some(config) => config,
        None => return output,
    };
    if local_max_debt > MAX_FUNDER_DEBT {
        return output;
    }
    let remote_max_debt = router.friends[i].token_channel.remote_max_debts.get_or(&currency, 0);
    if !router.friends[i].token_channel.check_limits_fit(&currency, local_max_debt, remote_max_debt) {
        return output;
    }
    let ghost before = router.friends@;
    router.friends[i].token_channel.set_local_max_debt(currency, local_max_debt);
    proof {
        lemma_friend_updated(before, router.friends@, i as int, router.local_public_key);
        assert(router.friends@[i as int].balance_of(currency) == before[i as int].balance_of(
            currency,
        ));
    }
    if config.is_open {
        router.report_to_index(i, &currency, &mut output);
        assert(output.index_mutations@ =~= seq![output.index_mutations@[0]]);
    }
    output
}

/// Sets what the local node charges a friend for forwarding in a currency,
/// and tells the index if the currency is open. Nothing happens if the
/// friend is not listed or the currency is not configured.
pub fn set_rate(
    router: &mut RouterState,
    friend_public_key: PublicKey,
    currency: Currency,
    rate: Rate,
) -> (output: RouterOutput)
    requires
        old(router).wf(),
    ensures
        final(router).wf(),
        final(router).friends@.len() == old(router).friends@.len(),
        output.friends_messages@.len() == 0,
        output.app_events@.len() == 0,
        match old(router).find_friend_spec(friend_public_key) {
            Some(i) => match old(router).config_of(i, currency) {
                Some(config) => {
                    let before = old(router).friends@[i];
                    let after = final(router).friends@[i];
                    &&& config_set(before, after, currency, CurrencyConfig { rate, ..config })
                    &&& after.token_channel == before.token_channel
                    &&& forall|j: int|
                        0 <= j < old(router).friends@.len() && j != i ==> final(router).friends@[j]
                            == old(router).friends@[j]
                    &&& if config.is_open {
                        output.index_mutations@ == seq![
                            CurrencyIndexMutation {
                                currency,
                                index_mutation: index_mutation_of(
                                    friend_public_key,
                                    CurrencyConfig { rate, ..config },
                                    if before.is_online {
                                        before.balance_of(currency)
                                    } else {
                                        None
                                    },
                                    before.token_channel.local_max_debts.value_or(currency, 0),
                                    before.token_channel.remote_max_debts.value_or(currency, 0),
                                ),
                            },
                        ]
                    } else {
                        output.index_mutations@.len() == 0
                    }
                },
                None => *final(router) == *old(router) && output.index_mutations@.len() == 0,
            },
            None => *final(router) == *old(router) && output.index_mutations@.len() == 0,
        },
{
    let mut output = RouterOutput::new();
    let i = match router.find_friend(&friend_public_key) {
        Some(i) => i,
        None => return output,
    };
    proof {
        old(router).lemma_find_friend(i as int);
    }
    let config = match router.get_config(i, &currency) {
        Some(config) => config,
        None => return output,
    };
    router.set_config(i, currency, CurrencyConfig { rate, ..config });
    if config.is_open {
        router.report_to_index(i, &currency, &mut output);
        assert(output.index_mutations@ =~= seq![output.index_mutations@[0]]);
    }
    output
}

/// Opens a currency of a friend: requests are let through, the index is
/// told the capacities if there are any to tell, and the local side starts
/// to trade the currency at its next move token. Nothing happens if the
/// friend is not listed, if the currency is not configured, or if it is open
/// already.
pub fn open_currency<F: Fn(&Vec<u8>) -> Signature>(
    router: &mut RouterState,
    friend_public_key: PublicKey,
    currency: Currency,
    rand_nonce: RandValue,
    signer: &F,
) -> (output: RouterOutput)
    requires
        old(router).wf(),
        forall|buffer: &Vec<u8>| signer.requires((buffer,)),
    ensures
        final(router).wf(),
        final(router).friends@.len() == old(router).friends@.len(),
        match old(router).find_friend_spec(friend_public_key) {
            Some(i) => match old(router).config_of(i, currency) {
                Some(config) if !config.is_open => {
                    let before = old(router).friends@[i];
                    let opened = CurrencyConfig { is_open: true, ..config };
                    let mutation = index_mutation_of(
                        friend_public_key,
                        opened,
                        if before.is_online {
                            before.balance_of(currency)
                        } else {
                            None
                        },
                        before.token_channel.local_max_debts.value_or(currency, 0),
                        before.token_channel.remote_max_debts.value_or(currency, 0),
                    );
                    &&& final(router).config_of(i, currency) == Some(opened)
                    &&& forall|c: Currency|
                        c != currency ==> final(router).config_of(i, c) == old(router).config_of(
                            i,
                            c,
                        )
                    &&& if mutation is UpdateFriend {
                        output.index_mutations@ == seq![
                            CurrencyIndexMutation { currency, index_mutation: mutation },
                        ]
                    } else {
                        output.index_mutations@.len() == 0
                    }
                    &&& exists|mid: RouterState, start: RouterOutput|
                        {
                            &&& start.friends_messages@.len() == 0
                            &&& start.app_events@.len() == 0
                            &&& config_changed(*old(router), mid, i, currency, opened)
                            &&& #[trigger] friend_flushed(
                                mid,
                                *final(router),
                                start,
                                output,
                                i as usize,
                                rand_nonce,
                                false,
                                signer,
                            )
                        }
                },
                _ => *final(router) == *old(router) && output.is_blank(),
            },
            None => *final(router) == *old(router) && output.is_blank(),
        },
{
    let mut output = RouterOutput::new();
    // First we make sure that the friend exists:
    let i = match router.find_friend(&friend_public_key) {
        Some(i) => i,
        None => return output,
    };
    proof {
        old(router).lemma_find_friend(i as int);
    }
    let config = match router.get_config(i, &currency) {
        Some(config) => config,
        None => return output,
    };
    // Currency exists:
    if config.is_open {
        return output;
    }
    // currency is closed. Open currency:
    router.set_config(i, currency, CurrencyConfig { is_open: true, ..config });
    let mutation = router.friends[i].index_mutation(&currency);
    match mutation {
        Some(m) => {
            match m.index_mutation {
                IndexMutation::UpdateFriend(_) => {
                    // Add index mutation:
                    output.add_index_mutation(m);
                    assert(output.index_mutations@ =~= seq![m]);
                },
                _ => {},
            }
        },
        None => {},
    }
    let ghost configured = router.friends@[i as int].currency_configs;
    let ghost mid = *router;
    let ghost start = output;
    router.flush_friend(i, rand_nonce, false, signer, &mut output);
    proof {
        assert(router.friends@[i as int].currency_configs == configured);
        assert(start.friends_messages@.len() == 0 && start.app_events@.len() == 0);
        assert(config_changed(
            *old(router),
            mid,
            i as int,
            currency,
            (CurrencyConfig { is_open: true, ..config }),
        ));
        assert(friend_flushed(
            mid,
            *router,
            start,
            output,
            (i as int) as usize,
            rand_nonce,
            false,
            signer,
        ));
    }
    output
}

/// Whether `after` is `before` with a currency of the friend at `i` closed:
/// the configuration says so, the requests in the currency are taken out of
/// the two queues of requests that wait to be sent to the friend, and nothing
/// else changed.
pub open spec fn currency_closed(
    before: RouterState,
    after: RouterState,
    i: int,
    currency: Currency,
    config: CurrencyConfig,
) -> bool {
    &&& after.local_public_key == before.local_public_key
    &&& after.local_requests == before.local_requests
    &&& after.max_operations_in_batch == before.max_operations_in_batch
    &&& after.friends@.len() == before.friends@.len()
    &&& forall|j: int|
        0 <= j < before.friends@.len() && j != i ==> after.friends@[j] == before.friends@[j]
    &&& config_set(
        before.friends@[i],
        after.friends@[i],
        currency,
        (CurrencyConfig { is_open: false, ..config }),
    )
    &&& after.friends@[i].public_key == before.friends@[i].public_key
    &&& after.friends@[i].token_channel == before.friends@[i].token_channel
    &&& after.friends@[i].pending_backwards_ops == before.friends@[i].pending_backwards_ops
    &&& after.friends@[i].is_online == before.friends@[i].is_online
    &&& after.friends@[i].token_wanted == before.friends@[i].token_wanted
    &&& after.friends@[i].pending_requests@ == without_currency(
        before.friends@[i].pending_requests@,
        currency,
    )
    &&& after.friends@[i].pending_user_requests@ == without_currency(
        before.friends@[i].pending_user_requests@,
        currency,
    )
}

/// Closes a currency of a friend: every request that waits to be sent to
/// the friend in this currency is given up, with one cancel each toward the
/// friend it came from or toward the application, first those that were
/// handed on and then the application's own; the index is told that the
/// friend is gone from the currency; and then the friend is sent what waits
/// for it, as `flush_friend` does, so that the local side stops trading the
/// currency at its next move token. Nothing happens if the friend is not listed, if the currency
/// is not configured, or if it is closed already.
pub fn close_currency<F: Fn(&Vec<u8>) -> Signature>(
    router: &mut RouterState,
    friend_public_key: PublicKey,
    currency: Currency,
    rand_nonce: RandValue,
    signer: &F,
) -> (output: RouterOutput)
    requires
        old(router).wf(),
        forall|buffer: &Vec<u8>| signer.requires((buffer,)),
    ensures
        final(router).wf(),
        final(router).friends@.len() == old(router).friends@.len(),
        match old(router).find_friend_spec(friend_public_key) {
            Some(i) => match old(router).config_of(i, currency) {
                Some(config) if config.is_open => {
                    &&& final(router).config_of(i, currency) == Some(
                        CurrencyConfig { is_open: false, ..config },
                    )
                    &&& forall|c: Currency|
                        c != currency ==> final(router).config_of(i, c) == old(router).config_of(
                            i,
                            c,
                        )
                    &&& output.index_mutations@ == seq![
                        CurrencyIndexMutation {
                            currency,
                            index_mutation: IndexMutation::RemoveFriend(friend_public_key),
                        },
                    ]
                    &&& only_currency(final(router).friends@[i].pending_requests@, currency).len()
                        == 0
                    &&& only_currency(
                        final(router).friends@[i].pending_user_requests@,
                        currency,
                    ).len() == 0
                    &&& exists|
                        closed: RouterState,
                        cancelled: RouterState,
                        start: RouterOutput,
                        told: RouterOutput,
                        reported: RouterOutput,
                    |
                        {
                            &&& start.is_blank()
                            &&& currency_closed(*old(router), closed, i, currency, config)
                            &&& #[trigger] requests_cancelled(
                                closed,
                                cancelled,
                                start,
                                told,
                                named(
                                    only_currency(
                                        old(router).friends@[i].pending_requests@,
                                        currency,
                                    ) + only_currency(
                                        old(router).friends@[i].pending_user_requests@,
                                        currency,
                                    ),
                                ),
                            )
                            &&& reported.friends_messages == told.friends_messages
                            &&& reported.app_events == told.app_events
                            &&& reported.index_mutations@ == told.index_mutations@.push(
                                CurrencyIndexMutation {
                                    currency,
                                    index_mutation: IndexMutation::RemoveFriend(friend_public_key),
                                },
                            )
                            &&& #[trigger] friend_flushed(
                                cancelled,
                                *final(router),
                                reported,
                                output,
                                i as usize,
                                rand_nonce,
                                false,
                                signer,
                            )
                        }
                },
                _ => {
                    &&& *final(router) == *old(router)
                    &&& output.index_mutations@.len() == 0
                    &&& output.friends_messages@.len() == 0
                    &&& output.app_events@.len() == 0
                },
            },
            None => {
                &&& *final(router) == *old(router)
                &&& output.index_mutations@.len() == 0
                &&& output.friends_messages@.len() == 0
                &&& output.app_events@.len() == 0
            },
        },
{
    let mut output = RouterOutput::new();
    // First we make sure that the friend exists:
    let i = match router.find_friend(&friend_public_key) {
        Some(i) => i,
        None => return output,
    };
    proof {
        old(router).lemma_find_friend(i as int);
    }
    let config = match router.get_config(i, &currency) {
        Some(config) => config,
        None => return output,
    };
    // Currency exists:
    if !config.is_open {
        return output;
    }
    // currency is open. Close currency:
    let ghost start = output;
    router.set_config(i, currency, CurrencyConfig { is_open: false, ..config });
    // Cancel all requests pending for this currency:
    let ghost before = router.friends@;
    let mut forwarded = take_currency_requests(&mut router.friends[i].pending_requests, &currency);
    let mut user = take_currency_requests(&mut router.friends[i].pending_user_requests, &currency);
    proof {
        assert(router.friends@ =~= before.update(i as int, router.friends@[i as int]));
        lemma_friend_updated(before, router.friends@, i as int, router.local_public_key);
        crate::router::lemma_none_left(before[i as int].pending_requests@, currency);
        crate::router::lemma_none_left(before[i as int].pending_user_requests@, currency);
    }
    let ghost closed = *router;
    let ghost drained = router.friends@;
    let ghost taken = forwarded@ + user@;
    assert(currency_closed(*old(router), closed, i as int, currency, config));
    forwarded.append(&mut user);
    router.cancel_requests(name_requests(&forwarded), &mut output);
    let ghost cancelled = *router;
    let ghost told = output;
    // Add index mutation:
    output.add_index_mutation(
        CurrencyIndexMutation {
            currency,
            index_mutation: IndexMutation::RemoveFriend(friend_public_key),
        },
    );
    assert(output.index_mutations@ =~= seq![output.index_mutations@[0]]);
    let ghost cleaned = router.friends@;
    proof {
        assert(same_friend_but_backwards(drained[i as int], cleaned[i as int]));
    }
    let ghost reported = output;
    router.flush_friend(i, rand_nonce, false, signer, &mut output);
    proof {
        assert(start.is_blank());
        assert(requests_cancelled(closed, cancelled, start, told, named(taken)));
        assert(friend_flushed(
            cancelled,
            *router,
            reported,
            output,
            (i as int) as usize,
            rand_nonce,
            false,
            signer,
        ));
        // flushing only takes requests from the front of the queues
        crate::router::flush::lemma_flush_keeps_none(
            cleaned[i as int],
            router.friends@[i as int],
            currency,
        );
    }
    output
}

} // verus!
