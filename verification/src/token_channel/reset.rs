//! What a channel does when the two sides disagree: it freezes into reset
//! terms, and restarts from the terms that both sides settle on.

use crate::crypto::{ed25519_verifies, verify_signature};
use crate::currency_map::CurrencyMap;
use crate::mutual_credit::{fits_limits, MutualCredit, MutualCreditView};
use crate::proto::{McBalance, MoveTokenHashed, ResetBalance, TransactionView};
use crate::signature_buff::{reset_token_signature_buff, reset_token_signature_buffer};
use crate::token_channel::{terms_within, ChannelView, ResetTerms, TcStatus, TokenChannel};
use crate::types::{array_lt, bytes_lt, Currency, lemma_bytes_lt_total, PublicKey, Signature, Uid};
use vstd::prelude::*;

verus! {

/// A request of the local side that was pending when its channel became
/// inconsistent. No answer to it will come.
#[derive(Clone, Copy, Debug, PartialEq, Eq)]
pub struct LostRequest {
    pub currency: Currency,
    pub request_id: Uid,
}

/// The balance that a mutual credit restarts from: its balance with the
/// pending debt of the remote side counted as paid, and its fee counters as
/// they are.
pub open spec fn reset_balance_of(mc: MutualCreditView) -> ResetBalance {
    ResetBalance {
        balance: (mc.balance.balance + mc.balance.remote_pending_debt) as i128,
        in_fees: mc.balance.in_fees,
        out_fees: mc.balance.out_fees,
    }
}

/// The balances that a list of mutual credits restarts from, one by one.
pub open spec fn reset_balances_of(mcs: Seq<MutualCreditView>) -> Seq<ResetBalance> {
    mcs.map_values(|mc: MutualCreditView| reset_balance_of(mc))
}

/// The requests of the local side that are pending in a mutual credit,
/// oldest first.
pub open spec fn lost_requests_in(mc: MutualCreditView) -> Seq<LostRequest> {
    mc.local.map_values(
        |row: TransactionView| LostRequest { currency: mc.currency, request_id: row.request_id },
    )
}

/// The requests of the local side that are pending in a list of mutual
/// credits: those of the first mutual credit first.
pub open spec fn lost_requests_of(mcs: Seq<MutualCreditView>) -> Seq<LostRequest>
    decreases mcs.len(),
{
    if mcs.len() == 0 {
        Seq::empty()
    } else {
        lost_requests_of(mcs.drop_last()) + lost_requests_in(mcs.last())
    }
}

/// The counter that reset terms propose: one more than the counter of the
/// channel, which stays where it is only at the largest value.
pub open spec fn reset_counter(move_token_counter: u128) -> u128 {
    if move_token_counter == u128::MAX {
        move_token_counter
    } else {
        (move_token_counter + 1) as u128
    }
}

/// The mutual credit that a currency restarts with when the terms of
/// `proposer_is_local`'s side are taken: the proposed balance as the local
/// side sees it, and nothing pending.
pub open spec fn mc_after_reset(
    currency: Currency,
    reset_balance: ResetBalance,
    proposer_is_local: bool,
) -> MutualCreditView {
    MutualCreditView {
        currency,
        balance: if proposer_is_local {
            McBalance {
                balance: reset_balance.balance,
                local_pending_debt: 0,
                remote_pending_debt: 0,
                in_fees: reset_balance.in_fees,
                out_fees: reset_balance.out_fees,
            }
        } else {
            McBalance {
                balance: (-reset_balance.balance) as i128,
                local_pending_debt: 0,
                remote_pending_debt: 0,
                in_fees: reset_balance.out_fees,
                out_fees: reset_balance.in_fees,
            }
        },
        local: Seq::empty(),
        remote: Seq::empty(),
    }
}

/// The channel that restarts from reset terms: one mutual credit for each
/// currency of the terms, each currency traded by both sides, and the
/// counter of the terms.
pub open spec fn channel_after_reset(
    currencies: Seq<Currency>,
    balances: Seq<ResetBalance>,
    move_token_counter: u128,
    proposer_is_local: bool,
) -> ChannelView {
    ChannelView {
        mutual_credits: Seq::new(
            currencies.len(),
            |i: int| mc_after_reset(currencies[i], balances[i], proposer_is_local),
        ),
        local_currencies: currencies,
        remote_currencies: currencies,
        move_token_counter,
    }
}

/// Whether reset terms can be taken: no balance is the one value of `i128`
/// that the other side cannot hold.
pub open spec fn terms_acceptable(balances: Seq<ResetBalance>) -> bool {
    forall|i: int| 0 <= i < balances.len() ==> (#[trigger] balances[i]).balance > i128::MIN
}

/// Whether the local side is the one that sends the first move token after
/// a reset: the side with the lower reset token sends, and takes the terms
/// of the other.
pub open spec fn local_sends_reset(local_token: Signature, remote_token: Signature) -> bool {
    bytes_lt(local_token@, remote_token@)
}

/// The counter that a channel restarts with, seen from the side that holds
/// `local` and has been told `remote`: the counter of the terms of the side
/// with the higher reset token.
pub open spec fn counter_after_reset(
    local_token: Signature,
    local_counter: u128,
    remote_token: Signature,
    remote_counter: u128,
) -> u128 {
    if local_sends_reset(local_token, remote_token) {
        remote_counter
    } else {
        local_counter
    }
}

/// When both sides have published reset terms with different tokens, exactly
/// one side sends the first move token, the terms of the other side are the
/// ones that both restart from, and both restart with the counter of those
/// terms: the sender, which takes up the terms one move token short of
/// their counter and then sends one move token, and the receiver, which
/// accepts that move token at the counter of its own terms.
pub proof fn lemma_reset_converges(
    a_token: Signature,
    a_counter: u128,
    b_token: Signature,
    b_counter: u128,
)
    requires
        a_token != b_token,
    ensures
        local_sends_reset(a_token, b_token) != local_sends_reset(b_token, a_token),
        counter_after_reset(a_token, a_counter, b_token, b_counter) == counter_after_reset(
            b_token,
            b_counter,
            a_token,
            a_counter,
        ),
        counter_after_reset(a_token, a_counter, b_token, b_counter) == if local_sends_reset(
            a_token,
            b_token,
        ) {
            b_counter
        } else {
            a_counter
        },
        local_sends_reset(a_token, b_token) && b_counter >= 1 ==> (b_counter - 1) + 1
            == counter_after_reset(a_token, a_counter, b_token, b_counter),
        local_sends_reset(b_token, a_token) ==> a_counter == counter_after_reset(
            a_token,
            a_counter,
            b_token,
            b_counter,
        ),
{
    assert(a_token@.len() == 64 && b_token@.len() == 64);
    lemma_bytes_lt_total(a_token@, b_token@);
    assert(a_token@ != b_token@) by {
        if a_token@ == b_token@ {
            assert(a_token == b_token);
        }
    }
}

/// What is kept of a channel when it becomes inconsistent.
pub struct ResetSnapshot {
    /// The balance that each currency would restart from.
    pub reset_balances: CurrencyMap<ResetBalance>,
    /// The requests of the local side that were pending.
    pub lost_requests: Vec<LostRequest>,
}

impl TokenChannel {
    /// What the channel would restart from, and what it would lose, if it
    /// became inconsistent now.
    pub fn reset_snapshot(&self) -> (snapshot: ResetSnapshot)
        requires
            self.wf(),
        ensures
            snapshot.reset_balances.wf(),
            snapshot.reset_balances.keys() == self.mutual_credits.keys(),
            snapshot.reset_balances.values() == reset_balances_of(self.channel().mutual_credits),
            snapshot.lost_requests@ == lost_requests_of(self.channel().mutual_credits),
            terms_acceptable(snapshot.reset_balances.values()),
            terms_within(
                snapshot.reset_balances,
                self.local_max_debts,
                self.remote_max_debts,
                true,
            ),
    {
        let ghost mcs = self.channel().mutual_credits;
        let n = self.mutual_credits.len();
        let mut balances: Vec<ResetBalance> = Vec::new();
        let mut lost: Vec<LostRequest> = Vec::new();
        let mut i: usize = 0;
        while i < n
            invariant
                0 <= i <= n,
                n == mcs.len(),
                self.wf(),
                mcs == self.channel().mutual_credits,
                balances@ == reset_balances_of(mcs.take(i as int)),
                lost@ == lost_requests_of(mcs.take(i as int)),
                terms_acceptable(balances@),
                forall|k: int|
                    0 <= k < i ==> {
                        let own = (#[trigger] balances@[k]).balance as int;
                        &&& own <= self.remote_max_debts.value_or(self.mutual_credits.keys()[k], 0)
                        &&& -own <= self.local_max_debts.value_or(self.mutual_credits.keys()[k], 0)
                    },
            decreases n - i,
        {
            let mc = self.mutual_credits.value_at(i);
            assert(mc@ == mcs[i as int]);
            assert(mc@.wf());
            assert(self.trusted_at(i as int));
            let ghost lost_before = lost@;
            let ghost balances_before = balances@;
            balances.push(
                ResetBalance {
                    balance: mc.balance.balance.checked_add_unsigned(
                        mc.balance.remote_pending_debt,
                    ).unwrap(),
                    in_fees: mc.balance.in_fees,
                    out_fees: mc.balance.out_fees,
                },
            );
            let rows = &mc.pending_transactions.local;
            let mut j: usize = 0;
            while j < rows.len()
                invariant
                    0 <= j <= rows.len(),
                    mc@ == mcs[i as int],
                    rows == &mc.pending_transactions.local,
                    lost@ == lost_before + lost_requests_in(mc@).take(j as int),
                decreases rows.len() - j,
            {
                lost.push(LostRequest { currency: mc.currency, request_id: rows[j].request_id });
                proof {
                    let all = lost_requests_in(mc@);
                    assert(all.take(j + 1) =~= all.take(j as int).push(all[j as int]));
                    assert(lost@ =~= lost_before + all.take(j + 1));
                }
                j += 1;
            }
            proof {
                assert(lost_requests_in(mc@).take(j as int) =~= lost_requests_in(mc@));
                assert(mcs.take(i + 1).drop_last() =~= mcs.take(i as int));
                assert(mcs.take(i + 1).last() == mcs[i as int]);
                assert(balances@ =~= reset_balances_of(mcs.take(i + 1)));
                assert forall|k: int| 0 <= k < balances@.len() implies (
                #[trigger] balances@[k]).balance > i128::MIN by {
                    if k < i {
                        assert(balances@[k] == balances_before[k]);
                    }
                }
                assert forall|k: int| 0 <= k < i + 1 implies {
                    let own = (#[trigger] balances@[k]).balance as int;
                    &&& own <= self.remote_max_debts.value_or(self.mutual_credits.keys()[k], 0)
                    &&& -own <= self.local_max_debts.value_or(self.mutual_credits.keys()[k], 0)
                } by {
                    if k < i {
                        assert(balances@[k] == balances_before[k]);
                    }
                }
            }
            i += 1;
        }
        assert(mcs.take(i as int) =~= mcs);
        ResetSnapshot {
            reset_balances: CurrencyMap::with_keys_of(&self.mutual_credits, balances),
            lost_requests: lost,
        }
    }

    /// Restarts the channel from reset terms. The status and the debts that
    /// the friend is trusted with stay as they are.
    pub(crate) fn restart_from(&mut self, terms: &ResetTerms, proposer_is_local: bool)
        requires
            !old(self).is_inconsistent(),
            old(self).remote_max_debts.wf(),
            old(self).local_max_debts.wf(),
            terms.reset_balances.wf(),
            terms_acceptable(terms.reset_balances.values()),
            terms_within(
                terms.reset_balances,
                old(self).local_max_debts,
                old(self).remote_max_debts,
                proposer_is_local,
            ),
        ensures
            final(self).wf(),
            final(self).status == old(self).status,
            final(self).local_max_debts == old(self).local_max_debts,
            final(self).remote_max_debts == old(self).remote_max_debts,
            final(self).channel() == channel_after_reset(
                terms.reset_balances.keys(),
                terms.reset_balances.values(),
                terms.move_token_counter,
                proposer_is_local,
            ),
    {
        let n = terms.reset_balances.len();
        let mut mcs: Vec<MutualCredit> = Vec::new();
        let mut units: Vec<()> = Vec::new();
        let mut i: usize = 0;
        while i < n
            invariant
                0 <= i <= n,
                n == terms.reset_balances.keys().len(),
                terms.reset_balances.wf(),
                terms_acceptable(terms.reset_balances.values()),
                terms_within(
                    terms.reset_balances,
                    self.local_max_debts,
                    self.remote_max_debts,
                    proposer_is_local,
                ),
                mcs@.len() == i,
                units@.len() == i,
                forall|j: int|
                    0 <= j < i ==> {
                        &&& (#[trigger] mcs@[j])@ == mc_after_reset(
                            terms.reset_balances.keys()[j],
                            terms.reset_balances.values()[j],
                            proposer_is_local,
                        )
                        &&& mcs@[j]@.wf()
                        &&& mcs@[j].currency == terms.reset_balances.keys()[j]
                        &&& mcs@[j]@.within_trust(
                            self.local_max_debts.value_or(terms.reset_balances.keys()[j], 0),
                            self.remote_max_debts.value_or(terms.reset_balances.keys()[j], 0),
                        )
                    },
            decreases n - i,
        {
            let currency = terms.reset_balances.key_at(i);
            let reset_balance = *terms.reset_balances.value_at(i);
            assert(reset_balance.balance > i128::MIN);
            assert(terms.reset_balances.values()[i as int] == reset_balance);
            let mut mc = MutualCredit::new(
                &currency,
                if proposer_is_local {
                    reset_balance.balance
                } else {
                    -reset_balance.balance
                },
            );
            if proposer_is_local {
                mc.balance.in_fees = reset_balance.in_fees;
                mc.balance.out_fees = reset_balance.out_fees;
            } else {
                mc.balance.in_fees = reset_balance.out_fees;
                mc.balance.out_fees = reset_balance.in_fees;
            }
            proof {
                assert(mc@.local =~= Seq::empty());
                assert(mc@.remote =~= Seq::empty());
                assert(mc@ == mc_after_reset(currency, reset_balance, proposer_is_local));
                assert(crate::mutual_credit::total_frozen(mc@.local) == 0);
                assert(crate::mutual_credit::total_frozen(mc@.remote) == 0);
                assert(terms.reset_balances.keys()[i as int].wf());
            }
            mcs.push(mc);
            units.push(());
            i += 1;
        }
        self.mutual_credits = CurrencyMap::with_keys_of(&terms.reset_balances, mcs);
        self.local_currencies = CurrencyMap::with_keys_of(&terms.reset_balances, units);
        let mut units_again: Vec<()> = Vec::new();
        let mut k: usize = 0;
        while k < n
            invariant
                0 <= k <= n,
                units_again@.len() == k,
            decreases n - k,
        {
            units_again.push(());
            k += 1;
        }
        self.remote_currencies = CurrencyMap::with_keys_of(&terms.reset_balances, units_again);
        self.move_token_counter = terms.move_token_counter;
        proof {
            assert(self.channel().mutual_credits =~= channel_after_reset(
                terms.reset_balances.keys(),
                terms.reset_balances.values(),
                terms.move_token_counter,
                proposer_is_local,
            ).mutual_credits);
        }
    }

    /// Freezes the channel: the local reset terms are made from the
    /// snapshot, and every mutual credit and currency is dropped. The debts
    /// that the friend is trusted with stay as they were configured.
    pub(crate) fn set_inconsistent<F: Fn(&Vec<u8>) -> Signature>(
        &mut self,
        reset_balances: CurrencyMap<ResetBalance>,
        opt_remote_terms: Option<ResetTerms>,
        local_public_key: &PublicKey,
        remote_public_key: &PublicKey,
        signer: &F,
    )
        requires
            old(self).local_max_debts.wf(),
            old(self).remote_max_debts.wf(),
            reset_balances.wf(),
            terms_acceptable(reset_balances.values()),
            terms_within(
                reset_balances,
                old(self).local_max_debts,
                old(self).remote_max_debts,
                true,
            ),
            opt_remote_terms.is_some() ==> {
                &&& opt_remote_terms.unwrap().move_token_counter >= 1
                &&& opt_remote_terms.unwrap().reset_balances.wf()
                &&& terms_acceptable(opt_remote_terms.unwrap().reset_balances.values())
                &&& terms_within(
                    opt_remote_terms.unwrap().reset_balances,
                    old(self).local_max_debts,
                    old(self).remote_max_debts,
                    false,
                )
            },
            forall|buffer: &Vec<u8>| signer.requires((buffer,)),
        ensures
            final(self).wf(),
            final(self).local_max_debts == old(self).local_max_debts,
            final(self).remote_max_debts == old(self).remote_max_debts,
            final(self).move_token_counter == old(self).move_token_counter,
            final(self).status is Inconsistent,
            final(self).status->Inconsistent_1 == opt_remote_terms,
            final(self).status->Inconsistent_0.reset_balances == reset_balances,
            final(self).status->Inconsistent_0.move_token_counter == reset_counter(
                old(self).move_token_counter,
            ),
            signed_reset_token(
                final(self).status->Inconsistent_0.reset_token,
                *local_public_key,
                *remote_public_key,
                reset_counter(old(self).move_token_counter),
                signer,
            ),
    {
        let move_token_counter = if self.move_token_counter == u128::MAX {
            self.move_token_counter
        } else {
            self.move_token_counter + 1
        };
        let buffer = reset_token_signature_buff(
            local_public_key,
            remote_public_key,
            move_token_counter,
        );
        let reset_token = signer(&buffer);
        self.status = TcStatus::Inconsistent(
            ResetTerms { reset_token, move_token_counter, reset_balances },
            opt_remote_terms,
        );
        self.mutual_credits = CurrencyMap::new();
        self.local_currencies = CurrencyMap::new();
        self.remote_currencies = CurrencyMap::new();
    }
}

/// Whether `reset_token` is what the signer gave for the reset buffer of
/// this channel and counter.
pub open spec fn signed_reset_token<F: Fn(&Vec<u8>) -> Signature>(
    reset_token: Signature,
    local_public_key: PublicKey,
    remote_public_key: PublicKey,
    move_token_counter: u128,
    signer: &F,
) -> bool {
    exists|buffer: Vec<u8>|
        buffer@ == reset_token_signature_buffer(
            local_public_key,
            remote_public_key,
            move_token_counter,
        ) && #[trigger] signer.ensures((&buffer,), reset_token)
}

/// Whether reset terms that the friend sent can be taken up: their counter
/// is at least one, no balance is out of range or outside the debt limits,
/// and the reset token is the friend's signature over the reset buffer as
/// the friend builds it.
pub open spec fn remote_terms_valid(
    terms: ResetTerms,
    local_max_debts: CurrencyMap<u128>,
    remote_max_debts: CurrencyMap<u128>,
    local_public_key: PublicKey,
    remote_public_key: PublicKey,
) -> bool {
    &&& terms.move_token_counter >= 1
    &&& terms_acceptable(terms.reset_balances.values())
    &&& terms_within(terms.reset_balances, local_max_debts, remote_max_debts, false)
    &&& ed25519_verifies(
        reset_token_signature_buffer(remote_public_key, local_public_key, terms.move_token_counter),
        remote_public_key@,
        terms.reset_token@,
    )
}

/// What came of reset terms that the friend sent.
#[derive(Clone, Debug, PartialEq, Eq)]
pub enum ResetTermsOutput {
    /// The terms cannot be taken up. Nothing changed.
    Rejected,
    /// The channel was inconsistent already: the terms are kept beside the
    /// local ones.
    Recorded,
    /// The channel was consistent: it froze, and keeps the terms beside local
    /// ones that it made. The local terms are to be sent. The requests listed
    /// were pending; no answer to them will come.
    Frozen(Vec<LostRequest>),
}

/// What stands for the last move token received once the local side has
/// taken the friend's reset terms: only its `new_token` matters, and that is
/// the friend's reset token.
pub open spec fn is_reset_anchor(kept: MoveTokenHashed, reset_token: Signature) -> bool {
    &&& kept.new_token == reset_token
    &&& kept.old_token@ == Seq::new(64, |i: int| 0u8)
    &&& kept.info_hash@ == Seq::new(32, |i: int| 0u8)
    &&& kept.rand_nonce@ == Seq::new(16, |i: int| 0u8)
}

/// Whether `after` and `output` are what handling the friend's reset terms
/// on the channel `before` gives.
///
/// Terms that are not valid change nothing. Valid terms are kept beside the
/// local terms of a channel that is inconsistent already; a consistent
/// channel freezes first, as it does on a move token that it refuses.
pub open spec fn reset_terms_handled<F: Fn(&Vec<u8>) -> Signature>(
    before: TokenChannel,
    after: TokenChannel,
    output: ResetTermsOutput,
    remote_terms: ResetTerms,
    local_public_key: PublicKey,
    remote_public_key: PublicKey,
    signer: &F,
) -> bool {
    &&& after.local_max_debts == before.local_max_debts
    &&& after.remote_max_debts == before.remote_max_debts
    &&& after.move_token_counter == before.move_token_counter
    &&& if !remote_terms_valid(
        remote_terms,
        before.local_max_debts,
        before.remote_max_debts,
        local_public_key,
        remote_public_key,
    ) {
        output is Rejected && after == before
    } else {
        match before.status {
            TcStatus::Inconsistent(local, _) => {
                &&& output is Recorded
                &&& after.status == TcStatus::Inconsistent(local, Some(remote_terms))
            },
            _ => {
                &&& output is Frozen
                &&& output->Frozen_0@ == lost_requests_of(before.channel().mutual_credits)
                &&& after.status is Inconsistent
                &&& after.status->Inconsistent_1 == Some(remote_terms)
                &&& after.status->Inconsistent_0.move_token_counter == reset_counter(
                    before.move_token_counter,
                )
                &&& after.status->Inconsistent_0.reset_balances.keys() == before.mutual_credits.keys()
                &&& after.status->Inconsistent_0.reset_balances.values()
                    == reset_balances_of(before.channel().mutual_credits)
                &&& signed_reset_token(
                    after.status->Inconsistent_0.reset_token,
                    local_public_key,
                    remote_public_key,
                    reset_counter(before.move_token_counter),
                    signer,
                )
            },
        }
    }
}

/// Handles reset terms that the friend sent, as `reset_terms_handled` says.
pub fn handle_in_reset_terms<F: Fn(&Vec<u8>) -> Signature>(
    tc: &mut TokenChannel,
    remote_terms: ResetTerms,
    local_public_key: &PublicKey,
    remote_public_key: &PublicKey,
    signer: &F,
) -> (output: ResetTermsOutput)
    requires
        old(tc).wf(),
        remote_terms.reset_balances.wf(),
        forall|buffer: &Vec<u8>| signer.requires((buffer,)),
    ensures
        final(tc).wf(),
        reset_terms_handled(
            *old(tc),
            *final(tc),
            output,
            remote_terms,
            *local_public_key,
            *remote_public_key,
            signer,
        ),
{
    if remote_terms.move_token_counter < 1 {
        return ResetTermsOutput::Rejected;
    }
    let n = remote_terms.reset_balances.len();
    let mut i: usize = 0;
    while i < n
        invariant
            0 <= i <= n,
            n == remote_terms.reset_balances.values().len(),
            remote_terms.reset_balances.wf(),
            *tc == *old(tc),
            tc.wf(),
            forall|j: int|
                0 <= j < i ==> (#[trigger] remote_terms.reset_balances.values()[j]).balance
                    > i128::MIN,
            forall|j: int|
                0 <= j < i ==> {
                    let own = -((#[trigger] remote_terms.reset_balances.values()[j]).balance as int);
                    &&& own <= tc.remote_max_debts.value_or(remote_terms.reset_balances.keys()[j], 0)
                    &&& -own <= tc.local_max_debts.value_or(remote_terms.reset_balances.keys()[j], 0)
                },
        decreases n - i,
    {
        let balance = remote_terms.reset_balances.value_at(i).balance;
        if balance == i128::MIN {
            return ResetTermsOutput::Rejected;
        }
        let currency = remote_terms.reset_balances.key_at(i);
        let local_max_debt = tc.local_max_debts.get_or(&currency, 0);
        let remote_max_debt = tc.remote_max_debts.get_or(&currency, 0);
        if !fits_limits(-balance, 0, local_max_debt, remote_max_debt) {
            return ResetTermsOutput::Rejected;
        }
        i += 1;
    }
    let buffer = reset_token_signature_buff(
        remote_public_key,
        local_public_key,
        remote_terms.move_token_counter,
    );
    if !verify_signature(buffer.as_slice(), remote_public_key, &remote_terms.reset_token) {
        return ResetTermsOutput::Rejected;
    }
    let is_inconsistent = match &tc.status {
        TcStatus::Inconsistent(_, _) => true,
        _ => false,
    };
    if is_inconsistent {
        let mut taken = TcStatus::Inconsistent(
            ResetTerms {
                reset_token: [0u8; 64],
                move_token_counter: 0,
                reset_balances: CurrencyMap::new(),
            },
            None,
        );
        core::mem::swap(&mut tc.status, &mut taken);
        match taken {
            TcStatus::Inconsistent(local, _) => {
                tc.status = TcStatus::Inconsistent(local, Some(remote_terms));
            },
            other => {
                tc.status = other;
            },
        }
        ResetTermsOutput::Recorded
    } else {
        let snapshot = tc.reset_snapshot();
        tc.set_inconsistent(
            snapshot.reset_balances,
            Some(remote_terms),
            local_public_key,
            remote_public_key,
            signer,
        );
        ResetTermsOutput::Frozen(snapshot.lost_requests)
    }
}

/// Whether `after` is what taking up the friend's reset terms on the channel
/// `before` gives, and `accepted` says whether they were taken up.
///
/// They are taken up if the local side is the one to send the first move
/// token after the reset. Then the channel restarts from the friend's terms
/// as the local side sees them, holding the token, with the friend's reset
/// token as the last token received and one move token short of the counter
/// of the terms. Otherwise nothing changes.
pub open spec fn reset_terms_accepted(before: TokenChannel, after: TokenChannel, accepted: bool) -> bool {
    &&& after.local_max_debts == before.local_max_debts
    &&& after.remote_max_debts == before.remote_max_debts
    &&& accepted == before.must_send_reset()
    &&& !accepted ==> after == before
    &&& accepted ==> {
        let remote = before.status->Inconsistent_1.unwrap();
        &&& after.status is ConsistentIn
        &&& is_reset_anchor(after.status->ConsistentIn_0, remote.reset_token)
        &&& after.channel() == (ChannelView {
            move_token_counter: (remote.move_token_counter - 1) as u128,
            ..channel_after_reset(
                remote.reset_balances.keys(),
                remote.reset_balances.values(),
                remote.move_token_counter,
                false,
            )
        })
    }
}

impl TokenChannel {
    /// Whether the local side is the one to send the first move token after
    /// the reset: the channel is inconsistent, the friend's terms are known,
    /// and the local reset token is the lower of the two.
    pub open spec fn must_send_reset(&self) -> bool {
        match self.status {
            TcStatus::Inconsistent(local, Some(remote)) => local_sends_reset(
                local.reset_token,
                remote.reset_token,
            ),
            _ => false,
        }
    }

    /// Takes up the friend's reset terms, if the local side is the one to
    /// send the first move token after the reset.
    ///
    /// The channel restarts from the friend's terms as the local side sees
    /// them, holding the token, with the friend's reset token as the last
    /// token received and one move token short of the counter of the terms:
    /// the move token that the local side sends next names the friend's reset
    /// token as its `old_token` and brings the counter to that of the terms.
    pub fn accept_remote_reset_terms(&mut self) -> (accepted: bool)
        requires
            old(self).wf(),
        ensures
            final(self).wf(),
            reset_terms_accepted(*old(self), *final(self), accepted),
    {
        let must_send = match &self.status {
            TcStatus::Inconsistent(local, Some(remote)) => array_lt(
                &local.reset_token,
                &remote.reset_token,
            ),
            _ => false,
        };
        if !must_send {
            return false;
        }
        let old_token = [0u8; 64];
        let info_hash = [0u8; 32];
        let rand_nonce = [0u8; 16];
        proof {
            assert(old_token@ =~= Seq::new(64, |i: int| 0u8));
            assert(info_hash@ =~= Seq::new(32, |i: int| 0u8));
            assert(rand_nonce@ =~= Seq::new(16, |i: int| 0u8));
        }
        let mut taken = TcStatus::ConsistentIn(
            MoveTokenHashed { old_token, info_hash, rand_nonce, new_token: [0u8; 64] },
        );
        core::mem::swap(&mut self.status, &mut taken);
        match &taken {
            TcStatus::Inconsistent(_, Some(remote)) => {
                self.status = TcStatus::ConsistentIn(
                    MoveTokenHashed { old_token, info_hash, rand_nonce, new_token: remote.reset_token },
                );
                self.restart_from(remote, false);
                self.move_token_counter = remote.move_token_counter - 1;
            },
            _ => {},
        }
        true
    }
}

/// A move token that is accepted while the local side awaits the friend
/// brings the counter up by exactly one.
pub proof fn lemma_accepted_token_counts_one(
    ch: ChannelView,
    move_token: crate::proto::MoveToken,
    local_max_debts: CurrencyMap<u128>,
    remote_max_debts: CurrencyMap<u128>,
    rates: CurrencyMap<crate::types::Rate>,
    local_public_key: PublicKey,
    remote_public_key: PublicKey,
)
    requires
        crate::token_channel::incoming::incoming_verdict(
            ch,
            move_token,
            crate::token_channel::incoming::next_counter(ch.move_token_counter),
            local_max_debts,
            remote_max_debts,
            rates,
            local_public_key,
            remote_public_key,
        ) is Ok,
    ensures
        crate::token_channel::incoming::incoming_verdict(
            ch,
            move_token,
            crate::token_channel::incoming::next_counter(ch.move_token_counter),
            local_max_debts,
            remote_max_debts,
            rates,
            local_public_key,
            remote_public_key,
        ).unwrap().channel.move_token_counter == ch.move_token_counter + 1,
{
}

} // verus!
