//! A move token arrives from the friend.

use crate::crypto::{ed25519_verifies, verify_signature};
use crate::currency_map::CurrencyMap;
use crate::mutual_credit::McMutationView;
use crate::mutual_credit::incoming::{
    incoming_run, IncomingMessageView, lemma_run_keeps_currency, messages_view, mutations_view,
    process_operations_list, ProcessOperationOutput, ProcessTransListError,
};
use crate::proto::{
    cops_view, CurrencyOperations, CurrencyOperationsView, has_request_op, holds_request, MoveToken,
    RelayAddress, TokenInfo,
};
use crate::signature_buff::{
    hash_token_info, move_token_signature_buff, move_token_signature_buffer,
};
use crate::token_channel::{
    ChannelView, hash_move_token, hashed, info_hash_of, mcs_view, TcStatus, TokenChannel,
};
use crate::token_channel::reset::{
    channel_after_reset, lost_requests_of, LostRequest, reset_balances_of, reset_counter,
    signed_reset_token,
};
use crate::types::{array_eq, Currency, PublicKey, Rate, Signature};
use vstd::prelude::*;

verus! {

/// Why a move token is refused.
#[derive(Clone, Copy, Debug, PartialEq, Eq, Structural)]
pub enum TokenChannelError {
    /// The token does not continue the chain: its `old_token` is not the
    /// token that the local side sent last.
    ChainInconsistency,
    /// The friend's signature over the token does not verify.
    InvalidSignature,
    /// Operations name a currency that the channel has no mutual credit for.
    InvalidCurrency,
    /// A request names a currency that the two sides do not both trade.
    CurrencyNotActive,
    /// An operation was refused by its mutual credit.
    InvalidTransaction(ProcessTransListError),
    /// The counter cannot go up any more.
    MoveTokenCounterOverflow,
    /// The token's digest is not the digest of the balances and the counter
    /// that the token leads to.
    InvalidTokenInfo,
}

/// What the operations of a move token on one currency led to, one output
/// for each operation.
#[derive(Clone, Debug, PartialEq, Eq)]
pub struct CurrencyOutputs {
    pub currency: Currency,
    pub outputs: Vec<ProcessOperationOutput>,
}

/// What the outputs of one currency say.
pub struct CurrencyOutputsView {
    pub currency: Currency,
    /// What each operation asks of the node.
    pub messages: Seq<IncomingMessageView>,
    /// What each operation did to the mutual credit.
    pub mutations: Seq<McMutationView>,
}

impl View for CurrencyOutputs {
    type V = CurrencyOutputsView;

    open spec fn view(&self) -> CurrencyOutputsView {
        CurrencyOutputsView {
            currency: self.currency,
            messages: messages_view(self.outputs@),
            mutations: mutations_view(self.outputs@),
        }
    }
}

/// What a list of outputs says, currency by currency.
pub open spec fn outputs_view(outputs: Seq<CurrencyOutputs>) -> Seq<CurrencyOutputsView> {
    outputs.map_values(|o: CurrencyOutputs| o@)
}

/// Where the operations of a move token lead.
pub struct IncomingOps {
    pub channel: ChannelView,
    /// What the operations led to, in the order of the token.
    pub outputs: Seq<CurrencyOutputsView>,
}

/// Applies the operations of a move token on one currency.
///
/// They are refused when the channel has no mutual credit for the currency,
/// when they hold a request and the two sides do not both trade the
/// currency, or when the mutual credit refuses one of them. Afterwards the
/// mutual credit is dropped if neither side trades the currency and nothing
/// is pending in it.
pub open spec fn incoming_currency_ops(
    before: IncomingOps,
    cop: CurrencyOperationsView,
    local_max_debt: u128,
    remote_max_debt: u128,
    rate: Rate,
    local_public_key: PublicKey,
) -> Result<IncomingOps, TokenChannelError> {
    let ch = before.channel;
    match ch.mc_position(cop.currency) {
        None => Err(TokenChannelError::InvalidCurrency),
        Some(i) => {
            if has_request_op(cop.operations) && !ch.is_active(cop.currency) {
                Err(TokenChannelError::CurrencyNotActive)
            } else {
                match incoming_run(
                    ch.mutual_credits[i],
                    cop.operations,
                    local_max_debt,
                    remote_max_debt,
                    rate,
                    local_public_key,
                ) {
                    Err(e) => Err(TokenChannelError::InvalidTransaction(e)),
                    Ok(run) => Ok(
                        IncomingOps {
                            channel: ChannelView {
                                mutual_credits: ch.mutual_credits.update(i, run.mc),
                                ..ch
                            }.without_idle_mc(cop.currency),
                            outputs: before.outputs.push(
                                CurrencyOutputsView {
                                    currency: cop.currency,
                                    messages: run.messages,
                                    mutations: run.mutations,
                                },
                            ),
                        },
                    ),
                }
            }
        },
    }
}

/// Applies the operations of a move token, currency by currency in the
/// order of the token. Each currency is checked against the debt limits of
/// the two sides in it (zero where none is configured) and charged at its own
/// rate (nothing where none is configured).
pub open spec fn incoming_all_ops(
    ch: ChannelView,
    cops: Seq<CurrencyOperationsView>,
    local_max_debts: CurrencyMap<u128>,
    remote_max_debts: CurrencyMap<u128>,
    rates: CurrencyMap<Rate>,
    local_public_key: PublicKey,
) -> Result<IncomingOps, TokenChannelError>
    decreases cops.len(),
{
    if cops.len() == 0 {
        Ok(IncomingOps { channel: ch, outputs: Seq::empty() })
    } else {
        match incoming_all_ops(ch, cops.drop_last(), local_max_debts, remote_max_debts, rates, local_public_key) {
            Err(e) => Err(e),
            Ok(before) => incoming_currency_ops(
                before,
                cops.last(),
                local_max_debts.value_or(cops.last().currency, 0),
                remote_max_debts.value_or(cops.last().currency, 0),
                rates.value_or(cops.last().currency, Rate { mul: 0, add: 0 }),
                local_public_key,
            ),
        }
    }
}

/// Decides a move token that continues the chain: where it leads, or why it
/// is refused.
///
/// The friend's signature over the token must verify. Then the currencies
/// that the token lists change sides among those that the friend trades, the
/// operations are applied in order, and the counter becomes `next_counter`,
/// which must exist. The token's digest must be the digest, as the friend
/// computes it, of the balances and the counter that this leads to.
pub open spec fn incoming_verdict(
    ch: ChannelView,
    move_token: MoveToken,
    next_counter: Option<u128>,
    local_max_debts: CurrencyMap<u128>,
    remote_max_debts: CurrencyMap<u128>,
    rates: CurrencyMap<Rate>,
    local_public_key: PublicKey,
    remote_public_key: PublicKey,
) -> Result<IncomingOps, TokenChannelError> {
    if !ed25519_verifies(
        move_token_signature_buffer(move_token.old_token, move_token.info_hash),
        remote_public_key@,
        move_token.new_token@,
    ) {
        Err(TokenChannelError::InvalidSignature)
    } else {
        match incoming_all_ops(
            ch.toggle_remote_all(move_token.currencies_diff@),
            cops_view(move_token.operations@),
            local_max_debts,
            remote_max_debts,
            rates,
            local_public_key,
        ) {
            Err(e) => Err(e),
            Ok(done) => {
                if next_counter is None {
                    Err(TokenChannelError::MoveTokenCounterOverflow)
                } else if move_token.info_hash@ != info_hash_of(
                    remote_public_key,
                    local_public_key,
                    done.channel.mutual_credits,
                    true,
                    next_counter.unwrap(),
                ) {
                    Err(TokenChannelError::InvalidTokenInfo)
                } else {
                    Ok(
                        IncomingOps {
                            channel: ChannelView {
                                move_token_counter: next_counter.unwrap(),
                                ..done.channel
                            },
                            outputs: done.outputs,
                        },
                    )
                }
            },
        }
    }
}

/// The counter that the next move token carries: one more than the
/// channel's, if there is such a number.
pub open spec fn next_counter(move_token_counter: u128) -> Option<u128> {
    if move_token_counter == u128::MAX {
        None
    } else {
        Some((move_token_counter + 1) as u128)
    }
}

impl TokenChannel {
    /// Toggles every currency of a list among those that the friend trades.
    fn toggle_remote_currencies(&mut self, diff: &Vec<Currency>)
        requires
            old(self).wf(),
            !old(self).is_inconsistent(),
        ensures
            final(self).wf(),
            final(self).status == old(self).status,
            final(self).local_max_debts == old(self).local_max_debts,
            final(self).remote_max_debts == old(self).remote_max_debts,
            final(self).move_token_counter == old(self).move_token_counter,
            final(self).channel() == old(self).channel().toggle_remote_all(diff@),
    {
        let mut i: usize = 0;
        while i < diff.len()
            invariant
                0 <= i <= diff.len(),
                self.wf(),
                !self.is_inconsistent(),
                self.status == old(self).status,
                self.local_max_debts == old(self).local_max_debts,
                self.remote_max_debts == old(self).remote_max_debts,
                self.move_token_counter == old(self).move_token_counter,
                self.channel() == old(self).channel().toggle_remote_all(diff@.take(i as int)),
            decreases diff.len() - i,
        {
            proof {
                assert(diff@.take(i + 1).drop_last() =~= diff@.take(i as int));
                assert(diff@.take(i + 1).last() == diff@[i as int]);
            }
            self.toggle_remote_currency(&diff[i]);
            i += 1;
        }
        assert(diff@.take(i as int) =~= diff@);
    }

    /// Applies the operations of a move token on one currency, and adds what
    /// they led to to `outputs`.
    fn apply_incoming_currency_ops(
        &mut self,
        cop: &CurrencyOperations,
        rates: &CurrencyMap<Rate>,
        local_public_key: &PublicKey,
        outputs: &mut Vec<CurrencyOutputs>,
    ) -> (r: Result<(), TokenChannelError>)
        requires
            old(self).wf(),
            !old(self).is_inconsistent(),
            rates.wf(),
        ensures
            final(self).status == old(self).status,
            final(self).local_max_debts == old(self).local_max_debts,
            final(self).remote_max_debts == old(self).remote_max_debts,
            final(self).move_token_counter == old(self).move_token_counter,
            match incoming_currency_ops(
                IncomingOps { channel: old(self).channel(), outputs: outputs_view(old(outputs)@) },
                cop@,
                old(self).local_max_debts.value_or(cop.currency, 0),
                old(self).remote_max_debts.value_or(cop.currency, 0),
                rates.value_or(cop.currency, Rate { mul: 0, add: 0 }),
                *local_public_key,
            ) {
                Ok(done) => {
                    &&& r is Ok
                    &&& final(self).wf()
                    &&& final(self).channel() == done.channel
                    &&& outputs_view(final(outputs)@) == done.outputs
                },
                Err(e) => r == Err::<(), TokenChannelError>(e),
            },
    {
        proof {
            self.lemma_mc_keys();
        }
        let i = match self.mutual_credits.position(&cop.currency) {
            Some(i) => i,
            None => return Err(TokenChannelError::InvalidCurrency),
        };
        if holds_request(&cop.operations) && !(self.local_currencies.has(&cop.currency)
            && self.remote_currencies.has(&cop.currency)) {
            return Err(TokenChannelError::CurrencyNotActive);
        }
        let local_max_debt = self.local_max_debts.get_or(&cop.currency, 0);
        let remote_max_debt = self.remote_max_debts.get_or(&cop.currency, 0);
        let rate = rates.get_or(&cop.currency, Rate { mul: 0, add: 0 });
        let ghost before = self.mutual_credits.values();
        let ghost mc_before = before[i as int]@;
        let mc = self.mutual_credits.value_at_mut(i);
        let list = match process_operations_list(
            mc,
            &cop.operations,
            local_max_debt,
            remote_max_debt,
            &rate,
            local_public_key,
        ) {
            Ok(list) => list,
            Err(e) => {
                return Err(TokenChannelError::InvalidTransaction(e));
            },
        };
        proof {
            let run = incoming_run(
                mc_before,
                cop@.operations,
                local_max_debt,
                remote_max_debt,
                rate,
                *local_public_key,
            ).unwrap();
            lemma_run_keeps_currency(
                mc_before,
                cop@.operations,
                local_max_debt,
                remote_max_debt,
                rate,
                *local_public_key,
            );
            assert(self.mutual_credits.values()[i as int]@ == run.mc);
            assert(old(self).trusted_at(i as int));
            crate::mutual_credit::incoming::lemma_incoming_run(
                mc_before,
                cop@.operations,
                local_max_debt,
                remote_max_debt,
                rate,
                *local_public_key,
            );
            self.lemma_updated_wf(*old(self), i as int);
            assert(mcs_view(self.mutual_credits.values()) =~= mcs_view(before).update(
                i as int,
                run.mc,
            ));
        }
        let ghost outputs_before = outputs@;
        outputs.push(CurrencyOutputs { currency: cop.currency, outputs: list });
        proof {
            assert(outputs_view(outputs@) =~= outputs_view(outputs_before).push(
                outputs@[outputs_before.len() as int]@,
            ));
        }
        self.drop_idle_mutual_credit(&cop.currency);
        Ok(())
    }

    /// Checks and applies a move token that continues the chain. The status
    /// is left as it is: the caller sets it.
    fn process_incoming_token(
        &mut self,
        move_token: &MoveToken,
        next_counter: Option<u128>,
        rates: &CurrencyMap<Rate>,
        local_public_key: &PublicKey,
        remote_public_key: &PublicKey,
    ) -> (r: Result<Vec<CurrencyOutputs>, TokenChannelError>)
        requires
            old(self).wf(),
            !old(self).is_inconsistent(),
            rates.wf(),
        ensures
            final(self).status == old(self).status,
            final(self).local_max_debts == old(self).local_max_debts,
            final(self).remote_max_debts == old(self).remote_max_debts,
            match incoming_verdict(
                old(self).channel(),
                *move_token,
                next_counter,
                old(self).local_max_debts,
                old(self).remote_max_debts,
                *rates,
                *local_public_key,
                *remote_public_key,
            ) {
                Ok(done) => {
                    &&& r is Ok
                    &&& final(self).wf()
                    &&& final(self).channel() == done.channel
                    &&& outputs_view(r.unwrap()@) == done.outputs
                },
                Err(e) => r == Err::<Vec<CurrencyOutputs>, TokenChannelError>(e),
            },
    {
        let buffer = move_token_signature_buff(move_token);
        if !verify_signature(buffer.as_slice(), remote_public_key, &move_token.new_token) {
            return Err(TokenChannelError::InvalidSignature);
        }
        self.toggle_remote_currencies(&move_token.currencies_diff);
        let ghost toggled = self.channel();
        let ghost cops = cops_view(move_token.operations@);
        let mut outputs: Vec<CurrencyOutputs> = Vec::new();
        proof {
            assert(cops.take(0) =~= Seq::empty());
            assert(outputs_view(outputs@) =~= Seq::empty());
        }
        let mut i: usize = 0;
        while i < move_token.operations.len()
            invariant
                0 <= i <= move_token.operations.len(),
                cops == cops_view(move_token.operations@),
                toggled == old(self).channel().toggle_remote_all(move_token.currencies_diff@),
                ed25519_verifies(
                    move_token_signature_buffer(move_token.old_token, move_token.info_hash),
                    remote_public_key@,
                    move_token.new_token@,
                ),
                self.wf(),
                rates.wf(),
                !self.is_inconsistent(),
                self.status == old(self).status,
                self.local_max_debts == old(self).local_max_debts,
                self.remote_max_debts == old(self).remote_max_debts,
                self.move_token_counter == old(self).move_token_counter,
                incoming_all_ops(
                    toggled,
                    cops.take(i as int),
                    self.local_max_debts,
                    self.remote_max_debts,
                    *rates,
                    *local_public_key,
                ) == Ok::<IncomingOps, TokenChannelError>(
                    IncomingOps { channel: self.channel(), outputs: outputs_view(outputs@) },
                ),
            decreases move_token.operations.len() - i,
        {
            proof {
                assert(cops.take(i + 1).drop_last() =~= cops.take(i as int));
                assert(cops.take(i + 1).last() == move_token.operations@[i as int]@);
            }
            let ghost ch_before = self.channel();
            let ghost outputs_before = outputs_view(outputs@);
            match self.apply_incoming_currency_ops(
                &move_token.operations[i],
                rates,
                local_public_key,
                &mut outputs,
            ) {
                Ok(()) => {},
                Err(e) => {
                    proof {
                        assert(incoming_all_ops(
                            toggled,
                            cops.take(i as int),
                            old(self).local_max_debts,
                            old(self).remote_max_debts,
                            *rates,
                            *local_public_key,
                        ) == Ok::<IncomingOps, TokenChannelError>(
                            IncomingOps { channel: ch_before, outputs: outputs_before },
                        ));
                        assert(incoming_all_ops(
                            toggled,
                            cops.take(i + 1),
                            old(self).local_max_debts,
                            old(self).remote_max_debts,
                            *rates,
                            *local_public_key,
                        ) == Err::<IncomingOps, TokenChannelError>(e));
                        lemma_ops_failure_stays(
                            toggled,
                            cops,
                            i + 1,
                            old(self).local_max_debts,
                            old(self).remote_max_debts,
                            *rates,
                            *local_public_key,
                        );
                    }
                    return Err(e);
                },
            }
            i += 1;
        }
        proof {
            assert(cops.take(i as int) =~= cops);
        }
        let counter = match next_counter {
            Some(counter) => counter,
            None => return Err(TokenChannelError::MoveTokenCounterOverflow),
        };
        let balances_hash = self.balances_hash(true);
        let info_hash = hash_token_info(
            remote_public_key,
            local_public_key,
            &TokenInfo { balances_hash, move_token_counter: counter },
        );
        proof {
            assert(info_hash@ == info_hash_of(
                *remote_public_key,
                *local_public_key,
                self.channel().mutual_credits,
                true,
                counter,
            ));
            if info_hash@ == move_token.info_hash@ {
                assert(info_hash == move_token.info_hash);
            }
        }
        if !array_eq(&info_hash, &move_token.info_hash) {
            return Err(TokenChannelError::InvalidTokenInfo);
        }
        self.move_token_counter = counter;
        Ok(outputs)
    }
}

/// Once the operations of some currencies are refused, the whole list is
/// refused for the same reason.
proof fn lemma_ops_failure_stays(
    ch: ChannelView,
    cops: Seq<CurrencyOperationsView>,
    n: int,
    local_max_debts: CurrencyMap<u128>,
    remote_max_debts: CurrencyMap<u128>,
    rates: CurrencyMap<Rate>,
    local_public_key: PublicKey,
)
    requires
        0 <= n <= cops.len(),
        incoming_all_ops(ch, cops.take(n), local_max_debts, remote_max_debts, rates, local_public_key) is Err,
    ensures
        incoming_all_ops(ch, cops, local_max_debts, remote_max_debts, rates, local_public_key) == incoming_all_ops(
            ch,
            cops.take(n),
            local_max_debts,
            remote_max_debts,
            rates,
            local_public_key,
        ),
    decreases cops.len() - n,
{
    if n < cops.len() {
        assert(cops.take(n + 1).drop_last() =~= cops.take(n));
        lemma_ops_failure_stays(ch, cops, n + 1, local_max_debts, remote_max_debts, rates, local_public_key);
    } else {
        assert(cops.take(n) =~= cops);
    }
}

/// A move token was accepted.
#[derive(Clone, Debug, PartialEq, Eq)]
pub struct MoveTokenReceived {
    /// What its operations led to, currency by currency in the order of the
    /// token.
    pub currency_outputs: Vec<CurrencyOutputs>,
    /// The relays that the friend can be reached through, if the token says.
    pub opt_remote_relays: Option<Vec<RelayAddress>>,
}

/// A move token was refused, and the channel froze.
#[derive(Clone, Debug, PartialEq, Eq)]
pub struct ChannelInconsistent {
    pub reason: TokenChannelError,
    /// The requests of the local side that were pending. No answer to them
    /// will come.
    pub lost_requests: Vec<LostRequest>,
}

/// What came of a move token.
#[derive(Clone, Debug, PartialEq, Eq)]
pub enum ReceiveMoveTokenOutput {
    /// The token is the one that was received last. Nothing changed.
    Duplicate,
    /// The token is the one that the last move token of the local side
    /// answered: the friend has not seen that answer. Nothing changed; the
    /// move token in the status is to be sent again.
    RetransmitOutgoing,
    /// The token was accepted. The local side holds the token now.
    Received(MoveTokenReceived),
    /// The token was refused. The channel is inconsistent now, and its local
    /// reset terms are to be sent.
    ChainInconsistent(ChannelInconsistent),
    /// The channel was inconsistent already, and the token does not restart
    /// it. Nothing changed.
    ResetRefused(TokenChannelError),
}

/// What to do with a move token, judging by the tokens alone.
#[derive(Clone, Copy, PartialEq, Eq, Structural)]
enum Step {
    Duplicate,
    Retransmit,
    Continue,
    Freeze,
    Restart,
    Refuse,
}

/// Whether `after` is `before` frozen for `reason`: inconsistent, with local
/// reset terms made of the balances and the counter of `before` and signed by
/// the signer, with no terms of the friend yet, and with `output` naming the
/// reason and the pending requests of `before`.
pub open spec fn froze<F: Fn(&Vec<u8>) -> Signature>(
    before: TokenChannel,
    after: TokenChannel,
    output: ReceiveMoveTokenOutput,
    reason: TokenChannelError,
    local_public_key: PublicKey,
    remote_public_key: PublicKey,
    signer: &F,
) -> bool {
    &&& after.status is Inconsistent
    &&& after.status->Inconsistent_1 is None
    &&& after.status->Inconsistent_0.move_token_counter == reset_counter(before.move_token_counter)
    &&& after.status->Inconsistent_0.reset_balances.keys() == before.mutual_credits.keys()
    &&& after.status->Inconsistent_0.reset_balances.values() == reset_balances_of(
        before.channel().mutual_credits,
    )
    &&& signed_reset_token(
        after.status->Inconsistent_0.reset_token,
        local_public_key,
        remote_public_key,
        reset_counter(before.move_token_counter),
        signer,
    )
    &&& after.local_max_debts == before.local_max_debts
    &&& after.remote_max_debts == before.remote_max_debts
    &&& after.move_token_counter == before.move_token_counter
    &&& output is ChainInconsistent
    &&& output->ChainInconsistent_0.reason == reason
    &&& output->ChainInconsistent_0.lost_requests@ == lost_requests_of(
        before.channel().mutual_credits,
    )
}

/// Whether `after` is `before` with an accepted move token applied: the
/// local side holds the token, the channel is where the token leads, and
/// `output` hands up what the operations led to and the relays of the token.
pub open spec fn received(
    before: TokenChannel,
    after: TokenChannel,
    output: ReceiveMoveTokenOutput,
    move_token: MoveToken,
    done: IncomingOps,
) -> bool {
    &&& after.status == TcStatus::ConsistentIn(hashed(move_token))
    &&& after.channel() == done.channel
    &&& after.local_max_debts == before.local_max_debts
    &&& after.remote_max_debts == before.remote_max_debts
    &&& output is Received
    &&& outputs_view(output->Received_0.currency_outputs@) == done.outputs
    &&& output->Received_0.opt_remote_relays == move_token.opt_local_relays
}

/// Whether `after` and `output` are what handling `move_token` on the
/// channel `before` gives.
///
/// While the local side holds the token, the only move token it can get is
/// the one it got last, which changes nothing; any other freezes the
/// channel. While the local side awaits the friend, a move token that names
/// the token sent last as its `old_token` is checked and applied: the counter
/// goes up by one and the local side holds the token, or, if anything is
/// wrong with the move token, the channel freezes. The move token received
/// before asks for the last one to be sent again; any other freezes the
/// channel. While the channel is inconsistent, a move token that names the
/// local reset token restarts the channel from the local reset terms, with
/// their counter, if it is right in every other way; any other changes
/// nothing.
pub open spec fn move_token_handled<F: Fn(&Vec<u8>) -> Signature>(
    before: TokenChannel,
    after: TokenChannel,
    output: ReceiveMoveTokenOutput,
    move_token: MoveToken,
    rates: CurrencyMap<Rate>,
    local_public_key: PublicKey,
    remote_public_key: PublicKey,
    signer: &F,
) -> bool {
    match before.status {
        TcStatus::ConsistentIn(last) => {
            if move_token.new_token == last.new_token {
                output is Duplicate && after == before
            } else {
                froze(
                    before,
                    after,
                    output,
                    TokenChannelError::ChainInconsistency,
                    local_public_key,
                    remote_public_key,
                    signer,
                )
            }
        },
        TcStatus::ConsistentOut(sent, opt_last) => {
            if move_token.old_token == sent.new_token {
                match incoming_verdict(
                    before.channel(),
                    move_token,
                    next_counter(before.move_token_counter),
                    before.local_max_debts,
                    before.remote_max_debts,
                    rates,
                    local_public_key,
                    remote_public_key,
                ) {
                    Ok(done) => received(before, after, output, move_token, done),
                    Err(e) => froze(
                        before,
                        after,
                        output,
                        e,
                        local_public_key,
                        remote_public_key,
                        signer,
                    ),
                }
            } else if opt_last is Some && move_token.new_token == opt_last.unwrap().new_token {
                output is RetransmitOutgoing && after == before
            } else {
                froze(
                    before,
                    after,
                    output,
                    TokenChannelError::ChainInconsistency,
                    local_public_key,
                    remote_public_key,
                    signer,
                )
            }
        },
        TcStatus::Inconsistent(local, opt_remote) => {
            if move_token.old_token == local.reset_token {
                match incoming_verdict(
                    channel_after_reset(
                        local.reset_balances.keys(),
                        local.reset_balances.values(),
                        local.move_token_counter,
                        true,
                    ),
                    move_token,
                    Some(local.move_token_counter),
                    before.local_max_debts,
                    before.remote_max_debts,
                    rates,
                    local_public_key,
                    remote_public_key,
                ) {
                    Ok(done) => received(before, after, output, move_token, done),
                    Err(e) => {
                        &&& output == ReceiveMoveTokenOutput::ResetRefused(e)
                        &&& after.status == before.status
                        &&& after.local_max_debts == before.local_max_debts
                        &&& after.remote_max_debts == before.remote_max_debts
                        &&& after.move_token_counter == before.move_token_counter
                    },
                }
            } else {
                &&& output == ReceiveMoveTokenOutput::ResetRefused(
                    TokenChannelError::ChainInconsistency,
                )
                &&& after == before
            }
        },
    }
}

/// Handles a move token that the friend sent, as `move_token_handled` says.
pub fn handle_in_move_token<F: Fn(&Vec<u8>) -> Signature>(
    tc: &mut TokenChannel,
    move_token: MoveToken,
    rates: &CurrencyMap<Rate>,
    local_public_key: &PublicKey,
    remote_public_key: &PublicKey,
    signer: &F,
) -> (output: ReceiveMoveTokenOutput)
    requires
        old(tc).wf(),
        rates.wf(),
        forall|buffer: &Vec<u8>| signer.requires((buffer,)),
    ensures
        final(tc).wf(),
        move_token_handled(
            *old(tc),
            *final(tc),
            output,
            move_token,
            *rates,
            *local_public_key,
            *remote_public_key,
            signer,
        ),
{
    let step = match &tc.status {
        TcStatus::ConsistentIn(last) => {
            if array_eq(&move_token.new_token, &last.new_token) {
                Step::Duplicate
            } else {
                Step::Freeze
            }
        },
        TcStatus::ConsistentOut(sent, opt_last) => {
            if array_eq(&move_token.old_token, &sent.new_token) {
                Step::Continue
            } else {
                match opt_last {
                    Some(last) if array_eq(&move_token.new_token, &last.new_token) => {
                        Step::Retransmit
                    },
                    _ => Step::Freeze,
                }
            }
        },
        TcStatus::Inconsistent(local, _) => {
            if array_eq(&move_token.old_token, &local.reset_token) {
                Step::Restart
            } else {
                Step::Refuse
            }
        },
    };
    match step {
        Step::Duplicate => ReceiveMoveTokenOutput::Duplicate,
        Step::Retransmit => ReceiveMoveTokenOutput::RetransmitOutgoing,
        Step::Refuse => ReceiveMoveTokenOutput::ResetRefused(TokenChannelError::ChainInconsistency),
        Step::Freeze => {
            let snapshot = tc.reset_snapshot();
            tc.set_inconsistent(
                snapshot.reset_balances,
                None,
                local_public_key,
                remote_public_key,
                signer,
            );
            ReceiveMoveTokenOutput::ChainInconsistent(
                ChannelInconsistent {
                    reason: TokenChannelError::ChainInconsistency,
                    lost_requests: snapshot.lost_requests,
                },
            )
        },
        Step::Continue => {
            let snapshot = tc.reset_snapshot();
            let counter_before = tc.move_token_counter;
            let opt_counter = if tc.move_token_counter == u128::MAX {
                None
            } else {
                Some(tc.move_token_counter + 1)
            };
            match tc.process_incoming_token(
                &move_token,
                opt_counter,
                rates,
                local_public_key,
                remote_public_key,
            ) {
                Ok(currency_outputs) => {
                    tc.status = TcStatus::ConsistentIn(hash_move_token(&move_token));
                    ReceiveMoveTokenOutput::Received(
                        MoveTokenReceived {
                            currency_outputs,
                            opt_remote_relays: move_token.opt_local_relays,
                        },
                    )
                },
                Err(reason) => {
                    tc.move_token_counter = counter_before;
                    tc.set_inconsistent(
                        snapshot.reset_balances,
                        None,
                        local_public_key,
                        remote_public_key,
                        signer,
                    );
                    ReceiveMoveTokenOutput::ChainInconsistent(
                        ChannelInconsistent { reason, lost_requests: snapshot.lost_requests },
                    )
                },
            }
        },
        Step::Restart => {
            let counter_before = tc.move_token_counter;
            let mut taken = TcStatus::ConsistentIn(hash_move_token(&move_token));
            core::mem::swap(&mut tc.status, &mut taken);
            let outcome = match &taken {
                TcStatus::Inconsistent(local, _) => {
                    tc.restart_from(local, true);
                    tc.process_incoming_token(
                        &move_token,
                        Some(local.move_token_counter),
                        rates,
                        local_public_key,
                        remote_public_key,
                    )
                },
                _ => Err(TokenChannelError::ChainInconsistency),
            };
            match outcome {
                Ok(currency_outputs) => ReceiveMoveTokenOutput::Received(
                    MoveTokenReceived {
                        currency_outputs,
                        opt_remote_relays: move_token.opt_local_relays,
                    },
                ),
                Err(reason) => {
                    tc.status = taken;
                    tc.mutual_credits = CurrencyMap::new();
                    tc.local_currencies = CurrencyMap::new();
                    tc.remote_currencies = CurrencyMap::new();
                    tc.move_token_counter = counter_before;
                    ReceiveMoveTokenOutput::ResetRefused(reason)
                },
            }
        },
    }
}

} // verus!
