//! The channel between the local node and one friend: the mutual credits of
//! the currencies they trade, and the token that says whose turn it is to
//! send.

use crate::canonical::{canon_balance, canon_currency, write_balance, write_currency};
use crate::crypto::{hash_buffer, sha_512_256};
use crate::currency_map::{CurrencyMap, insert_position, position_of, toggle};
use crate::mutual_credit::{fits_limits, McMutation, McMutationView, MutualCredit, MutualCreditView};
use crate::proto::{McBalance, MoveToken, MoveTokenHashed, ResetBalance, TokenInfo};
use crate::signature_buff::{hash_token_info, token_info_buffer};
use crate::types::{
    array_lt, bytes_lt, Currency, HashResult, PublicKey, Signature, MAX_FUNDER_DEBT, U256,
};
use vstd::prelude::*;

pub mod incoming;
pub mod outgoing;
pub mod reset;

verus! {

/// What one side proposes to restart an inconsistent channel from.
#[derive(Clone, Debug, PartialEq, Eq)]
pub struct ResetTerms {
    /// The proposer's signature over the reset buffer.
    pub reset_token: Signature,
    /// The counter that the channel restarts with.
    pub move_token_counter: u128,
    /// The balance that each currency restarts with, as the proposer sees it.
    pub reset_balances: CurrencyMap<ResetBalance>,
}

/// Whose turn it is.
#[derive(Clone, Debug, PartialEq, Eq)]
pub enum TcStatus {
    /// The local side holds the token: it may compose and send. Holds what
    /// is kept of the last move token received.
    ConsistentIn(MoveTokenHashed),
    /// The local side sent a move token and awaits the friend's. Holds the
    /// token that was sent and what is kept of the one received before it.
    ConsistentOut(MoveToken, Option<MoveTokenHashed>),
    /// The two sides disagree. Holds the local reset terms and, once they
    /// are known, the friend's.
    Inconsistent(ResetTerms, Option<ResetTerms>),
}

/// The channel with one friend.
#[derive(Clone, Debug, PartialEq, Eq)]
pub struct TokenChannel {
    pub status: TcStatus,
    /// One mutual credit for each currency that both sides trade.
    pub mutual_credits: CurrencyMap<MutualCredit>,
    /// The currencies that the local side is willing to trade.
    pub local_currencies: CurrencyMap<()>,
    /// The currencies that the friend is willing to trade.
    pub remote_currencies: CurrencyMap<()>,
    /// How many move tokens the channel has seen.
    pub move_token_counter: u128,
    /// Local max debt, configured for each currency (and possibly for
    /// currencies that are not yet active).
    pub local_max_debts: CurrencyMap<u128>,
    /// Remote max debt, configured for each currency (and possibly for
    /// currencies that are not yet active).
    pub remote_max_debts: CurrencyMap<u128>,
}

/// The part of a channel that the two sides must agree on.
pub struct ChannelView {
    /// The mutual credits, in the order of their currencies.
    pub mutual_credits: Seq<MutualCreditView>,
    pub local_currencies: Seq<Currency>,
    pub remote_currencies: Seq<Currency>,
    pub move_token_counter: u128,
}

/// What a list of mutual credits holds, one by one.
pub open spec fn mcs_view(values: Seq<MutualCredit>) -> Seq<MutualCreditView> {
    values.map_values(|mc: MutualCredit| mc@)
}

/// The currencies of a list of mutual credits.
pub open spec fn mcs_currencies(mcs: Seq<MutualCreditView>) -> Seq<Currency> {
    mcs.map_values(|mc: MutualCreditView| mc.currency)
}

/// A balance as the other side of the channel sees it.
pub open spec fn flip_balance(b: McBalance) -> McBalance {
    McBalance {
        balance: (-b.balance) as i128,
        local_pending_debt: b.remote_pending_debt,
        remote_pending_debt: b.local_pending_debt,
        in_fees: b.out_fees,
        out_fees: b.in_fees,
    }
}

/// The balances of every currency laid out as bytes, in the order of the
/// currencies: as the local side sees them, or as the friend does.
pub open spec fn balances_buffer(mcs: Seq<MutualCreditView>, flipped: bool) -> Seq<u8>
    decreases mcs.len(),
{
    if mcs.len() == 0 {
        Seq::<u8>::empty()
    } else {
        balances_buffer(mcs.drop_last(), flipped) + canon_currency(mcs.last().currency)
            + canon_balance(
            if flipped {
                flip_balance(mcs.last().balance)
            } else {
                mcs.last().balance
            },
        )
    }
}

/// The digest that a move token from `sender` to `receiver` must carry when
/// it leaves the channel with these mutual credits and this counter.
/// `flipped` says that the mutual credits are the receiver's.
pub open spec fn info_hash_of(
    sender: PublicKey,
    receiver: PublicKey,
    mcs: Seq<MutualCreditView>,
    flipped: bool,
    move_token_counter: u128,
) -> Seq<u8> {
    sha_512_256(
        token_info_buffer(
            sender,
            receiver,
            sha_512_256(balances_buffer(mcs, flipped)),
            move_token_counter,
        ),
    )
}

/// What is kept of a move token.
pub open spec fn hashed(move_token: MoveToken) -> MoveTokenHashed {
    MoveTokenHashed {
        old_token: move_token.old_token,
        info_hash: move_token.info_hash,
        rand_nonce: move_token.rand_nonce,
        new_token: move_token.new_token,
    }
}

/// The token that stands for a public key before any move token was signed:
/// the key, then 32 zero bytes.
pub open spec fn token_of_key(public_key: PublicKey) -> Seq<u8> {
    public_key@ + Seq::new(32, |i: int| 0u8)
}

/// What is kept of the move token that every channel between `low` and
/// `high` starts from. Nobody sends it: the side with the lower key counts
/// as its sender.
pub open spec fn is_initial_token(token: MoveTokenHashed, low: PublicKey, high: PublicKey) -> bool {
    &&& token.old_token@ == token_of_key(low)
    &&& token.new_token@ == token_of_key(high)
    &&& token.info_hash@ == info_hash_of(low, high, Seq::empty(), false, 0)
    &&& token.rand_nonce@ == Seq::new(16, |i: int| 0u8)
}

/// A mutual credit at its start: balance zero, nothing pending.
pub open spec fn fresh_mc(currency: Currency) -> MutualCreditView {
    MutualCreditView {
        currency,
        balance: McBalance {
            balance: 0,
            local_pending_debt: 0,
            remote_pending_debt: 0,
            in_fees: U256 { hi: 0, lo: 0 },
            out_fees: U256 { hi: 0, lo: 0 },
        },
        local: Seq::empty(),
        remote: Seq::empty(),
    }
}

/// Whether the balances of reset terms are within the debt limits, as the
/// local side would hold them: each balance, seen from the local side, is
/// within the remote limit of its currency, and taken the other way within
/// the local limit. `proposer_is_local` says whose view the terms hold.
pub open spec fn terms_within(
    balances: CurrencyMap<ResetBalance>,
    local_max_debts: CurrencyMap<u128>,
    remote_max_debts: CurrencyMap<u128>,
    proposer_is_local: bool,
) -> bool {
    forall|k: int|
        0 <= k < balances.values().len() ==> {
            let own = if proposer_is_local {
                (#[trigger] balances.values()[k]).balance as int
            } else {
                -(balances.values()[k].balance as int)
            };
            &&& own <= remote_max_debts.value_or(balances.keys()[k], 0)
            &&& -own <= local_max_debts.value_or(balances.keys()[k], 0)
        }
}

impl ChannelView {
    /// Whether both sides trade the currency.
    pub open spec fn is_active(self, currency: Currency) -> bool {
        self.local_currencies.contains(currency) && self.remote_currencies.contains(currency)
    }

    /// Where the mutual credit of a currency stands, if there is one.
    pub open spec fn mc_position(self, currency: Currency) -> Option<int> {
        position_of(mcs_currencies(self.mutual_credits), currency)
    }

    /// The channel with a fee counted in a currency: the mutual credit of the
    /// currency, if there is one, has the amount added to the fees that the
    /// local node kept.
    pub open spec fn with_fee_kept(self, currency: Currency, amount: u128) -> ChannelView {
        match self.mc_position(currency) {
            Some(i) => ChannelView {
                mutual_credits: self.mutual_credits.update(
                    i,
                    self.mutual_credits[i].apply(McMutationView::KeepFee(amount)),
                ),
                ..self
            },
            None => self,
        }
    }

    /// The channel with a fresh mutual credit for the currency, if both sides
    /// trade it and it has none.
    pub open spec fn with_mc_if_active(self, currency: Currency) -> ChannelView {
        if self.is_active(currency) && self.mc_position(currency) is None {
            ChannelView {
                mutual_credits: self.mutual_credits.insert(
                    insert_position(mcs_currencies(self.mutual_credits), currency),
                    fresh_mc(currency),
                ),
                ..self
            }
        } else {
            self
        }
    }

    /// The channel without the mutual credit of the currency, if neither side
    /// trades the currency any more and no request is pending in it.
    pub open spec fn without_idle_mc(self, currency: Currency) -> ChannelView {
        match self.mc_position(currency) {
            Some(i) => {
                if !self.local_currencies.contains(currency) && !self.remote_currencies.contains(
                    currency,
                ) && self.mutual_credits[i].local.len() == 0 && self.mutual_credits[i].remote.len()
                    == 0 {
                    ChannelView { mutual_credits: self.mutual_credits.remove(i), ..self }
                } else {
                    self
                }
            },
            None => self,
        }
    }

    /// The channel after the friend added the currency to those it trades, or
    /// took it out.
    pub open spec fn toggle_remote(self, currency: Currency) -> ChannelView {
        ChannelView {
            remote_currencies: toggle(self.remote_currencies, currency),
            ..self
        }.with_mc_if_active(currency).without_idle_mc(currency)
    }

    /// The channel after the local side added the currency to those it
    /// trades, or took it out.
    pub open spec fn toggle_local(self, currency: Currency) -> ChannelView {
        ChannelView {
            local_currencies: toggle(self.local_currencies, currency),
            ..self
        }.with_mc_if_active(currency).without_idle_mc(currency)
    }

    /// The channel after the friend toggled each currency of a list, in
    /// order.
    pub open spec fn toggle_remote_all(self, diff: Seq<Currency>) -> ChannelView
        decreases diff.len(),
    {
        if diff.len() == 0 {
            self
        } else {
            self.toggle_remote_all(diff.drop_last()).toggle_remote(diff.last())
        }
    }
}

impl TokenChannel {
    /// The mutual credits stand under their own currencies.
    pub proof fn lemma_mc_keys(&self)
        requires
            self.wf(),
        ensures
            mcs_currencies(self.channel().mutual_credits) == self.mutual_credits.keys(),
    {
        assert(mcs_currencies(self.channel().mutual_credits) =~= self.mutual_credits.keys());
    }

    /// A channel in which one mutual credit changed, and stayed well formed
    /// under its currency, is well formed.
    pub proof fn lemma_updated_wf(&self, before: TokenChannel, i: int)
        requires
            before.wf(),
            0 <= i < before.mutual_credits.values().len(),
            self.status == before.status,
            self.local_currencies == before.local_currencies,
            self.remote_currencies == before.remote_currencies,
            self.local_max_debts == before.local_max_debts,
            self.remote_max_debts == before.remote_max_debts,
            self.mutual_credits.wf(),
            self.mutual_credits.keys() == before.mutual_credits.keys(),
            self.mutual_credits.values() == before.mutual_credits.values().update(
                i,
                self.mutual_credits.values()[i],
            ),
            self.mutual_credits.values()[i]@.wf(),
            self.mutual_credits.values()[i].currency == self.mutual_credits.keys()[i],
            self.trusted_at(i),
        ensures
            self.wf(),
    {
        assert forall|j: int| 0 <= j < self.mutual_credits.values().len() implies {
            &&& (#[trigger] self.mutual_credits.values()[j])@.wf()
            &&& self.mutual_credits.values()[j].currency == self.mutual_credits.keys()[j]
            &&& self.trusted_at(j)
        } by {
            if j != i {
                assert(self.mutual_credits.values()[j] == before.mutual_credits.values()[j]);
                assert(before.trusted_at(j));
            }
        }
    }

    /// Counts a fee that the local node kept of a payment that it handed on
    /// over this channel, in the mutual credit of the payment's currency.
    /// Nothing else changes.
    pub fn keep_fee(&mut self, currency: &Currency, amount: u128)
        requires
            old(self).wf(),
        ensures
            final(self).wf(),
            final(self).channel() == old(self).channel().with_fee_kept(*currency, amount),
            final(self).status == old(self).status,
            final(self).local_currencies == old(self).local_currencies,
            final(self).remote_currencies == old(self).remote_currencies,
            final(self).local_max_debts == old(self).local_max_debts,
            final(self).remote_max_debts == old(self).remote_max_debts,
            final(self).mutual_credits.keys() == old(self).mutual_credits.keys(),
    {
        proof {
            self.lemma_mc_keys();
        }
        match self.mutual_credits.position(currency) {
            Some(i) => {
                let ghost before = self.mutual_credits.values();
                let mc = self.mutual_credits.value_at_mut(i);
                mc.mutate(McMutation::KeepFee(amount));
                proof {
                    assert(old(self).trusted_at(i as int));
                    self.lemma_updated_wf(*old(self), i as int);
                    assert(mcs_view(self.mutual_credits.values()) =~= mcs_view(before).update(
                        i as int,
                        before[i as int]@.apply(McMutationView::KeepFee(amount)),
                    ));
                }
            },
            None => {},
        }
    }

    /// Makes a mutual credit for the currency if both sides trade it and it
    /// has none.
    fn add_mutual_credit_if_active(&mut self, currency: &Currency)
        requires
            old(self).wf(),
            !old(self).is_inconsistent(),
        ensures
            final(self).wf(),
            final(self).status == old(self).status,
            final(self).local_max_debts == old(self).local_max_debts,
            final(self).remote_max_debts == old(self).remote_max_debts,
            final(self).move_token_counter == old(self).move_token_counter,
            final(self).channel() == old(self).channel().with_mc_if_active(*currency),
    {
        proof {
            self.lemma_mc_keys();
        }
        let is_local = self.local_currencies.has(currency);
        let is_remote = self.remote_currencies.has(currency);
        if is_local && is_remote && !self.mutual_credits.has(currency) {
            let mc = MutualCredit::new(currency, 0);
            let ghost before = self.mutual_credits.values();
            proof {
                assert(mc@ == fresh_mc(*currency)) by {
                    assert(mc@.local =~= Seq::empty());
                    assert(mc@.remote =~= Seq::empty());
                }
            }
            let pos = self.mutual_credits.insert(*currency, mc);
            proof {
                assert(self.mutual_credits.values()[pos as int] == mc);
                assert(mcs_view(self.mutual_credits.values()) =~= mcs_view(before).insert(
                    pos as int,
                    fresh_mc(*currency),
                ));
                assert forall|i: int| 0 <= i < self.mutual_credits.values().len() implies {
                    &&& (#[trigger] self.mutual_credits.values()[i])@.wf()
                    &&& self.mutual_credits.values()[i].currency == self.mutual_credits.keys()[i]
                    &&& self.trusted_at(i)
                } by {
                    if i < pos {
                        assert(self.mutual_credits.values()[i] == before[i]);
                        assert(old(self).trusted_at(i));
                    } else if i > pos {
                        assert(self.mutual_credits.values()[i] == before[i - 1]);
                        assert(old(self).trusted_at(i - 1));
                    }
                }
            }
        }
    }

    /// Drops the mutual credit of the currency if neither side trades the
    /// currency and nothing is pending in it.
    pub(crate) fn drop_idle_mutual_credit(&mut self, currency: &Currency)
        requires
            old(self).wf(),
            !old(self).is_inconsistent(),
        ensures
            final(self).wf(),
            final(self).status == old(self).status,
            final(self).local_max_debts == old(self).local_max_debts,
            final(self).remote_max_debts == old(self).remote_max_debts,
            final(self).move_token_counter == old(self).move_token_counter,
            final(self).channel() == old(self).channel().without_idle_mc(*currency),
    {
        proof {
            self.lemma_mc_keys();
        }
        let is_local = self.local_currencies.has(currency);
        let is_remote = self.remote_currencies.has(currency);
        match self.mutual_credits.position(currency) {
            Some(i) => {
                let mc = self.mutual_credits.value_at(i);
                if !is_local && !is_remote && mc.pending_transactions.local.len() == 0
                    && mc.pending_transactions.remote.len() == 0 {
                    let ghost before = self.mutual_credits.values();
                    self.mutual_credits.remove_at(i);
                    proof {
                        assert(mcs_view(self.mutual_credits.values()) =~= mcs_view(before).remove(
                            i as int,
                        ));
                        assert forall|j: int| 0 <= j < self.mutual_credits.values().len() implies {
                            &&& (#[trigger] self.mutual_credits.values()[j])@.wf()
                            &&& self.mutual_credits.values()[j].currency
                                == self.mutual_credits.keys()[j]
                            &&& self.trusted_at(j)
                        } by {
                            if j < i {
                                assert(self.mutual_credits.values()[j] == before[j]);
                                assert(old(self).trusted_at(j));
                            } else {
                                assert(self.mutual_credits.values()[j] == before[j + 1]);
                                assert(old(self).trusted_at(j + 1));
                            }
                        }
                    }
                }
            },
            None => {},
        }
    }

    /// Makes a mutual credit for the currency if both sides trade it and it
    /// has none, then drops the mutual credit if neither side trades the
    /// currency and nothing is pending in it.
    fn settle_mutual_credit(&mut self, currency: &Currency)
        requires
            old(self).wf(),
            !old(self).is_inconsistent(),
        ensures
            final(self).wf(),
            final(self).status == old(self).status,
            final(self).local_max_debts == old(self).local_max_debts,
            final(self).remote_max_debts == old(self).remote_max_debts,
            final(self).move_token_counter == old(self).move_token_counter,
            final(self).channel() == old(self).channel().with_mc_if_active(
                *currency,
            ).without_idle_mc(*currency),
    {
        self.add_mutual_credit_if_active(currency);
        self.drop_idle_mutual_credit(currency);
    }

    /// Puts the currency among those that the friend trades, or takes it out
    /// if it stands there.
    pub(crate) fn toggle_remote_currency(&mut self, currency: &Currency)
        requires
            old(self).wf(),
            !old(self).is_inconsistent(),
        ensures
            final(self).wf(),
            final(self).status == old(self).status,
            final(self).local_max_debts == old(self).local_max_debts,
            final(self).remote_max_debts == old(self).remote_max_debts,
            final(self).move_token_counter == old(self).move_token_counter,
            final(self).channel() == old(self).channel().toggle_remote(*currency),
    {
        match self.remote_currencies.position(currency) {
            Some(i) => {
                self.remote_currencies.remove_at(i);
            },
            None => {
                self.remote_currencies.insert(*currency, ());
            },
        }
        self.settle_mutual_credit(currency);
    }

    /// Puts the currency among those that the local side trades, or takes it
    /// out if it stands there.
    pub(crate) fn toggle_local_currency(&mut self, currency: &Currency)
        requires
            old(self).wf(),
            !old(self).is_inconsistent(),
        ensures
            final(self).wf(),
            final(self).status == old(self).status,
            final(self).local_max_debts == old(self).local_max_debts,
            final(self).remote_max_debts == old(self).remote_max_debts,
            final(self).move_token_counter == old(self).move_token_counter,
            final(self).channel() == old(self).channel().toggle_local(*currency),
    {
        match self.local_currencies.position(currency) {
            Some(i) => {
                self.local_currencies.remove_at(i);
            },
            None => {
                self.local_currencies.insert(*currency, ());
            },
        }
        self.settle_mutual_credit(currency);
    }
}

impl TokenChannel {
    /// The part of the channel that the two sides must agree on.
    pub open spec fn channel(&self) -> ChannelView {
        ChannelView {
            mutual_credits: mcs_view(self.mutual_credits.values()),
            local_currencies: self.local_currencies.keys(),
            remote_currencies: self.remote_currencies.keys(),
            move_token_counter: self.move_token_counter,
        }
    }

    /// Whether the mutual credit at an index is within the debt limits that
    /// are configured for its currency, zero where none is configured.
    pub open spec fn trusted_at(&self, i: int) -> bool {
        self.mutual_credits.values()[i]@.within_trust(
            self.local_max_debts.value_or(self.mutual_credits.keys()[i], 0),
            self.remote_max_debts.value_or(self.mutual_credits.keys()[i], 0),
        )
    }

    /// What holds of a channel at all times: its maps are well formed; every
    /// mutual credit is well formed, stands under its own currency, and is
    /// within the debt limits of its currency; an inconsistent channel holds
    /// no mutual credit and no currency, and the balances of its reset terms
    /// are within the debt limits.
    pub open spec fn wf(&self) -> bool {
        &&& self.mutual_credits.wf()
        &&& self.local_currencies.wf()
        &&& self.remote_currencies.wf()
        &&& self.local_max_debts.wf()
        &&& self.remote_max_debts.wf()
        &&& forall|i: int|
            0 <= i < self.mutual_credits.values().len() ==> {
                &&& (#[trigger] self.mutual_credits.values()[i])@.wf()
                &&& self.mutual_credits.values()[i].currency == self.mutual_credits.keys()[i]
                &&& self.trusted_at(i)
            }
        &&& match self.status {
            TcStatus::Inconsistent(local, opt_remote) => {
                &&& local.reset_balances.wf()
                &&& crate::token_channel::reset::terms_acceptable(local.reset_balances.values())
                &&& terms_within(
                    local.reset_balances,
                    self.local_max_debts,
                    self.remote_max_debts,
                    true,
                )
                &&& opt_remote.is_some() ==> {
                    &&& opt_remote.unwrap().move_token_counter >= 1
                    &&& opt_remote.unwrap().reset_balances.wf()
                    &&& crate::token_channel::reset::terms_acceptable(
                        opt_remote.unwrap().reset_balances.values(),
                    )
                    &&& terms_within(
                        opt_remote.unwrap().reset_balances,
                        self.local_max_debts,
                        self.remote_max_debts,
                        false,
                    )
                }
                &&& self.mutual_credits.keys().len() == 0
                &&& self.local_currencies.keys().len() == 0
                &&& self.remote_currencies.keys().len() == 0
            },
            _ => true,
        }
    }

    /// Whether the local side holds the token.
    pub open spec fn is_consistent_in(&self) -> bool {
        self.status is ConsistentIn
    }

    /// Whether the local side awaits the friend's move token.
    pub open spec fn is_consistent_out(&self) -> bool {
        self.status is ConsistentOut
    }

    /// Whether the two sides disagree.
    pub open spec fn is_inconsistent(&self) -> bool {
        self.status is Inconsistent
    }

    /// Whether the channel is at its start: no currency, no debt configured,
    /// counter zero. The side with the lower key counts as the sender of the
    /// initial token, which carries nothing, and waits; the side with the
    /// higher key holds the token.
    pub open spec fn is_fresh(&self, local_public_key: PublicKey, remote_public_key: PublicKey) -> bool {
        &&& self.channel().mutual_credits.len() == 0
        &&& self.channel().local_currencies.len() == 0
        &&& self.channel().remote_currencies.len() == 0
        &&& self.channel().move_token_counter == 0
        &&& self.local_max_debts.keys().len() == 0
        &&& self.remote_max_debts.keys().len() == 0
        &&& bytes_lt(local_public_key@, remote_public_key@) ==> {
            &&& self.status is ConsistentOut
            &&& self.status->ConsistentOut_1 is None
            &&& is_initial_token(
                hashed(self.status->ConsistentOut_0),
                local_public_key,
                remote_public_key,
            )
            &&& self.status->ConsistentOut_0.operations@.len() == 0
            &&& self.status->ConsistentOut_0.currencies_diff@.len() == 0
            &&& self.status->ConsistentOut_0.opt_local_relays is None
        }
        &&& !bytes_lt(local_public_key@, remote_public_key@) ==> {
            &&& self.status is ConsistentIn
            &&& is_initial_token(self.status->ConsistentIn_0, remote_public_key, local_public_key)
        }
    }

    /// A channel at its start.
    pub fn new(local_public_key: &PublicKey, remote_public_key: &PublicKey) -> (tc: TokenChannel)
        ensures
            tc.wf(),
            tc.is_fresh(*local_public_key, *remote_public_key),
    {
        let local_is_low = array_lt(local_public_key, remote_public_key);
        let (low, high) = if local_is_low {
            (local_public_key, remote_public_key)
        } else {
            (remote_public_key, local_public_key)
        };
        let empty: Vec<u8> = Vec::new();
        let balances_hash = hash_buffer(empty.as_slice());
        assert(empty@ =~= balances_buffer(Seq::empty(), false));
        let info_hash = hash_token_info(
            low,
            high,
            &TokenInfo { balances_hash, move_token_counter: 0 },
        );
        let old_token = token_from_public_key(low);
        let new_token = token_from_public_key(high);
        let rand_nonce = [0u8; 16];
        assert(rand_nonce@ =~= Seq::new(16, |i: int| 0u8));
        let status = if local_is_low {
            TcStatus::ConsistentOut(
                MoveToken {
                    operations: Vec::new(),
                    opt_local_relays: None,
                    currencies_diff: Vec::new(),
                    old_token,
                    info_hash,
                    rand_nonce,
                    new_token,
                },
                None,
            )
        } else {
            TcStatus::ConsistentIn(MoveTokenHashed { old_token, info_hash, rand_nonce, new_token })
        };
        TokenChannel {
            status,
            mutual_credits: CurrencyMap::new(),
            local_currencies: CurrencyMap::new(),
            remote_currencies: CurrencyMap::new(),
            move_token_counter: 0,
            local_max_debts: CurrencyMap::new(),
            remote_max_debts: CurrencyMap::new(),
        }
    }

    /// The move token that the local side sent last and that the friend has
    /// yet to answer, to send or to send again.
    pub fn outgoing_move_token(&self) -> (r: Option<&MoveToken>)
        ensures
            match self.status {
                TcStatus::ConsistentOut(move_token, _) => r == Some(&move_token),
                _ => r is None,
            },
    {
        match &self.status {
            TcStatus::ConsistentOut(move_token, _) => Some(move_token),
            _ => None,
        }
    }

    /// The reset terms of the local side, to send while the channel is
    /// inconsistent.
    pub fn local_reset_terms(&self) -> (r: Option<&ResetTerms>)
        ensures
            match self.status {
                TcStatus::Inconsistent(local, _) => r == Some(&local),
                _ => r is None,
            },
    {
        match &self.status {
            TcStatus::Inconsistent(local, _) => Some(local),
            _ => None,
        }
    }

    /// Whether the local side holds the token.
    pub fn holds_token(&self) -> (r: bool)
        ensures
            r == self.is_consistent_in(),
    {
        match &self.status {
            TcStatus::ConsistentIn(_) => true,
            _ => false,
        }
    }

    /// Whether the debt limits `local_max_debt` and `remote_max_debt` leave
    /// room for what the channel holds in a currency: the mutual credit of
    /// the currency, if there is one, is within them, and so are the balances
    /// that the reset terms of an inconsistent channel hold for the currency.
    pub open spec fn limits_fit(&self, currency: Currency, local_max_debt: u128, remote_max_debt: u128) -> bool {
        &&& forall|i: int|
            0 <= i < self.mutual_credits.values().len() && self.mutual_credits.keys()[i] == currency
                ==> (#[trigger] self.mutual_credits.values()[i])@.within_trust(
                local_max_debt,
                remote_max_debt,
            )
        &&& match self.status {
            TcStatus::Inconsistent(local, opt_remote) => {
                &&& balance_fits(local.reset_balances, currency, local_max_debt, remote_max_debt, true)
                &&& opt_remote is Some ==> balance_fits(
                    opt_remote.unwrap().reset_balances,
                    currency,
                    local_max_debt,
                    remote_max_debt,
                    false,
                )
            },
            _ => true,
        }
    }

    /// Whether the debt limits leave room for what the channel holds in a
    /// currency.
    pub fn check_limits_fit(&self, currency: &Currency, local_max_debt: u128, remote_max_debt: u128) -> (r:
        bool)
        requires
            self.wf(),
        ensures
            r == self.limits_fit(*currency, local_max_debt, remote_max_debt),
    {
        match self.mutual_credits.position(currency) {
            Some(i) => {
                let b = self.mutual_credits.value_at(i).balance;
                proof {
                    assert(self.mutual_credits.values()[i as int]@.wf());
                    assert forall|j: int|
                        0 <= j < self.mutual_credits.values().len() && self.mutual_credits.keys()[j]
                            == *currency implies j == i by {
                        self.mutual_credits.lemma_unique(i as int, j);
                    }
                }
                let total = b.local_pending_debt + b.remote_pending_debt;
                if !fits_limits(b.balance, total, local_max_debt, remote_max_debt) {
                    return false;
                }
            },
            None => {
                proof {
                    assert forall|j: int|
                        0 <= j < self.mutual_credits.values().len() implies self.mutual_credits.keys()[j]
                        != *currency by {
                        assert(self.mutual_credits.keys().contains(self.mutual_credits.keys()[j]));
                    }
                }
            },
        }
        match &self.status {
            TcStatus::Inconsistent(local, opt_remote) => {
                if !reset_balance_fits(
                    &local.reset_balances,
                    currency,
                    local_max_debt,
                    remote_max_debt,
                    true,
                ) {
                    return false;
                }
                match opt_remote {
                    Some(remote) => reset_balance_fits(
                        &remote.reset_balances,
                        currency,
                        local_max_debt,
                        remote_max_debt,
                        false,
                    ),
                    None => true,
                }
            },
            _ => true,
        }
    }

    /// Sets the debt that the friend is trusted with in a currency, whether
    /// or not the currency is traded yet. The amount is refused, and nothing
    /// changes, if it is above the largest debt that a channel can have or
    /// below what the channel holds in the currency.
    pub fn set_remote_max_debt(&mut self, currency: Currency, remote_max_debt: u128) -> (set: bool)
        requires
            old(self).wf(),
        ensures
            final(self).wf(),
            final(self).status == old(self).status,
            final(self).mutual_credits == old(self).mutual_credits,
            final(self).local_currencies == old(self).local_currencies,
            final(self).remote_currencies == old(self).remote_currencies,
            final(self).move_token_counter == old(self).move_token_counter,
            final(self).local_max_debts == old(self).local_max_debts,
            set == (remote_max_debt <= MAX_FUNDER_DEBT && old(self).limits_fit(
                currency,
                old(self).local_max_debts.value_or(currency, 0),
                remote_max_debt,
            )),
            !set ==> final(self).remote_max_debts == old(self).remote_max_debts,
            set ==> {
                &&& final(self).remote_max_debts.value_or(currency, 0) == remote_max_debt
                &&& forall|c: Currency|
                    c != currency ==> final(self).remote_max_debts.value_or(c, 0) == old(self).remote_max_debts.value_or(c, 0)
            },
    {
        if remote_max_debt > MAX_FUNDER_DEBT {
            return false;
        }
        let local_max_debt = self.local_max_debts.get_or(&currency, 0);
        if !self.check_limits_fit(&currency, local_max_debt, remote_max_debt) {
            return false;
        }
        self.remote_max_debts.set(currency, remote_max_debt);
        proof {
            self.lemma_limits_changed(*old(self), currency);
        }
        true
    }

    /// Sets the debt that the local side lets itself run up in a currency,
    /// whether or not the currency is traded yet. The amount is refused, and
    /// nothing changes, if it is above the largest debt that a channel can
    /// have or below what the channel holds in the currency.
    pub fn set_local_max_debt(&mut self, currency: Currency, local_max_debt: u128) -> (set: bool)
        requires
            old(self).wf(),
        ensures
            final(self).wf(),
            final(self).status == old(self).status,
            final(self).mutual_credits == old(self).mutual_credits,
            final(self).local_currencies == old(self).local_currencies,
            final(self).remote_currencies == old(self).remote_currencies,
            final(self).move_token_counter == old(self).move_token_counter,
            final(self).remote_max_debts == old(self).remote_max_debts,
            set == (local_max_debt <= MAX_FUNDER_DEBT && old(self).limits_fit(
                currency,
                local_max_debt,
                old(self).remote_max_debts.value_or(currency, 0),
            )),
            !set ==> final(self).local_max_debts == old(self).local_max_debts,
            set ==> {
                &&& final(self).local_max_debts.value_or(currency, 0) == local_max_debt
                &&& forall|c: Currency|
                    c != currency ==> final(self).local_max_debts.value_or(c, 0) == old(self).local_max_debts.value_or(c, 0)
            },
    {
        if local_max_debt > MAX_FUNDER_DEBT {
            return false;
        }
        let remote_max_debt = self.remote_max_debts.get_or(&currency, 0);
        if !self.check_limits_fit(&currency, local_max_debt, remote_max_debt) {
            return false;
        }
        self.local_max_debts.set(currency, local_max_debt);
        proof {
            self.lemma_limits_changed(*old(self), currency);
        }
        true
    }

    /// A channel whose debt limits changed for one currency, to limits that
    /// leave room for what the channel holds in it, is well formed.
    proof fn lemma_limits_changed(&self, before: TokenChannel, currency: Currency)
        requires
            before.wf(),
            self.status == before.status,
            self.mutual_credits == before.mutual_credits,
            self.local_currencies == before.local_currencies,
            self.remote_currencies == before.remote_currencies,
            self.local_max_debts.wf(),
            self.remote_max_debts.wf(),
            forall|c: Currency|
                c != currency ==> self.local_max_debts.value_or(c, 0)
                    == before.local_max_debts.value_or(c, 0) && self.remote_max_debts.value_or(c, 0)
                    == before.remote_max_debts.value_or(c, 0),
            before.limits_fit(
                currency,
                self.local_max_debts.value_or(currency, 0),
                self.remote_max_debts.value_or(currency, 0),
            ),
        ensures
            self.wf(),
    {
        assert forall|i: int| 0 <= i < self.mutual_credits.values().len() implies {
            &&& (#[trigger] self.mutual_credits.values()[i])@.wf()
            &&& self.mutual_credits.values()[i].currency == self.mutual_credits.keys()[i]
            &&& self.trusted_at(i)
        } by {
            assert(before.trusted_at(i));
        }
        match self.status {
            TcStatus::Inconsistent(local, opt_remote) => {
                assert forall|k: int| 0 <= k < local.reset_balances.values().len() implies {
                    let own = (#[trigger] local.reset_balances.values()[k]).balance as int;
                    &&& own <= self.remote_max_debts.value_or(local.reset_balances.keys()[k], 0)
                    &&& -own <= self.local_max_debts.value_or(local.reset_balances.keys()[k], 0)
                } by {
                    local.reset_balances.lemma_index_of(k);
                }
                if opt_remote is Some {
                    let remote = opt_remote.unwrap();
                    assert forall|k: int| 0 <= k < remote.reset_balances.values().len() implies {
                        let own = -((#[trigger] remote.reset_balances.values()[k]).balance as int);
                        &&& own <= self.remote_max_debts.value_or(remote.reset_balances.keys()[k], 0)
                        &&& -own <= self.local_max_debts.value_or(remote.reset_balances.keys()[k], 0)
                    } by {
                        remote.reset_balances.lemma_index_of(k);
                    }
                }
            },
            _ => {},
        }
    }

    /// The digest of the balances of every currency: as the local side sees
    /// them, or as the friend does.
    pub fn balances_hash(&self, flipped: bool) -> (digest: HashResult)
        requires
            self.wf(),
        ensures
            digest@ == sha_512_256(balances_buffer(self.channel().mutual_credits, flipped)),
    {
        let mut buf: Vec<u8> = Vec::new();
        let n = self.mutual_credits.len();
        let ghost mcs = self.channel().mutual_credits;
        let mut i: usize = 0;
        while i < n
            invariant
                0 <= i <= n,
                n == mcs.len(),
                self.wf(),
                mcs == self.channel().mutual_credits,
                buf@ == balances_buffer(mcs.take(i as int), flipped),
            decreases n - i,
        {
            let mc = self.mutual_credits.value_at(i);
            assert(mc@ == mcs[i as int]);
            assert(mc@.wf());
            write_currency(&mut buf, &mc.currency);
            let b = if flipped {
                McBalance {
                    balance: -mc.balance.balance,
                    local_pending_debt: mc.balance.remote_pending_debt,
                    remote_pending_debt: mc.balance.local_pending_debt,
                    in_fees: mc.balance.out_fees,
                    out_fees: mc.balance.in_fees,
                }
            } else {
                mc.balance
            };
            write_balance(&mut buf, &b);
            proof {
                assert(mcs.take(i + 1).drop_last() =~= mcs.take(i as int));
                assert(mcs.take(i + 1).last() == mcs[i as int]);
                assert(buf@ =~= balances_buffer(mcs.take(i + 1), flipped));
            }
            i += 1;
        }
        assert(mcs.take(i as int) =~= mcs);
        hash_buffer(buf.as_slice())
    }
}

/// Whether the debt limits leave room for the balance that reset terms hold
/// for a currency, if they hold one.
pub open spec fn balance_fits(
    balances: CurrencyMap<ResetBalance>,
    currency: Currency,
    local_max_debt: u128,
    remote_max_debt: u128,
    proposer_is_local: bool,
) -> bool {
    balances.contains(currency) ==> {
        let own = if proposer_is_local {
            balances.value_of(currency).balance as int
        } else {
            -(balances.value_of(currency).balance as int)
        };
        own <= remote_max_debt && -own <= local_max_debt
    }
}

/// Whether the debt limits leave room for the balance that reset terms hold
/// for a currency, if they hold one.
pub fn reset_balance_fits(
    balances: &CurrencyMap<ResetBalance>,
    currency: &Currency,
    local_max_debt: u128,
    remote_max_debt: u128,
    proposer_is_local: bool,
) -> (r: bool)
    requires
        balances.wf(),
        crate::token_channel::reset::terms_acceptable(balances.values()),
    ensures
        r == balance_fits(*balances, *currency, local_max_debt, remote_max_debt, proposer_is_local),
{
    match balances.position(currency) {
        Some(k) => {
            let b = balances.value_at(k).balance;
            assert(balances.values()[k as int].balance > i128::MIN);
            let own = if proposer_is_local {
                b
            } else {
                -b
            };
            if own == i128::MIN {
                return false;
            }
            fits_limits(own, 0, local_max_debt, remote_max_debt)
        },
        None => true,
    }
}

/// What is kept of a move token.
pub fn hash_move_token(move_token: &MoveToken) -> (kept: MoveTokenHashed)
    ensures
        kept == hashed(*move_token),
{
    MoveTokenHashed {
        old_token: move_token.old_token,
        info_hash: move_token.info_hash,
        rand_nonce: move_token.rand_nonce,
        new_token: move_token.new_token,
    }
}

/// The token that stands for a public key before any move token was signed.
pub fn token_from_public_key(public_key: &PublicKey) -> (token: Signature)
    ensures
        token@ == token_of_key(*public_key),
{
    let mut token: Signature = [0u8; 64];
    let mut i: usize = 0;
    while i < 32
        invariant
            0 <= i <= 32,
            forall|j: int| 0 <= j < i ==> token@[j] == public_key@[j],
            forall|j: int| i <= j < 64 ==> token@[j] == 0,
        decreases 32 - i,
    {
        token[i] = public_key[i];
        i += 1;
    }
    assert(token@ =~= token_of_key(*public_key));
    token
}

} // verus!
