//! The one way in which values are laid out as bytes before they are hashed
//! or signed: integers big-endian, a variant by its tag, a byte string of
//! varying length behind its length.

use crate::crypto::{
    extend_from_array, extend_from_vec, i128_be, u128_be, u32_be, u64_be, write_i128_be,
    write_u128_be, write_u32_be, write_u64_be,
};
use crate::index_server::IndexMutation;
use crate::proto::McBalance;
use crate::types::{Currency, Rate};
use vstd::prelude::*;

verus! {

/// A currency: the length of its name in eight bytes, then the name.
pub open spec fn canon_currency(currency: Currency) -> Seq<u8> {
    u64_be(currency@.len() as u64) + currency@
}

/// A rate: its two numbers, four bytes each.
pub open spec fn canon_rate(rate: Rate) -> Seq<u8> {
    u32_be(rate.mul) + u32_be(rate.add)
}

/// A balance: the balance and the two pending debts, which the two sides of
/// a channel agree on. The fee counters are each side's own and are left out.
pub open spec fn canon_balance(b: McBalance) -> Seq<u8> {
    i128_be(b.balance) + u128_be(b.local_pending_debt) + u128_be(b.remote_pending_debt)
}

/// An index mutation: tag 0 and the friend's key, capacities and rate for an
/// update; tag 1 and the friend's key for a removal.
pub open spec fn canon_index_mutation(mutation: IndexMutation) -> Seq<u8> {
    match mutation {
        IndexMutation::UpdateFriend(update) => seq![0u8] + update.public_key@ + u128_be(
            update.send_capacity,
        ) + u128_be(update.recv_capacity) + canon_rate(update.rate),
        IndexMutation::RemoveFriend(public_key) => seq![1u8] + public_key@,
    }
}

/// A list of index mutations: one after the other.
pub open spec fn canon_index_mutations(mutations: Seq<IndexMutation>) -> Seq<u8>
    decreases mutations.len(),
{
    if mutations.len() == 0 {
        Seq::<u8>::empty()
    } else {
        canon_index_mutations(mutations.drop_last()) + canon_index_mutation(mutations.last())
    }
}

/// Appends a currency.
pub fn write_currency(buf: &mut Vec<u8>, currency: &Currency)
    ensures
        final(buf)@ == old(buf)@ + canon_currency(*currency),
{
    let name = currency.as_bytes();
    write_u64_be(buf, name.len() as u64);
    extend_from_vec(buf, &name);
    assert(buf@ =~= old(buf)@ + canon_currency(*currency));
}

/// Appends a rate.
pub fn write_rate(buf: &mut Vec<u8>, rate: &Rate)
    ensures
        final(buf)@ == old(buf)@ + canon_rate(*rate),
{
    write_u32_be(buf, rate.mul);
    write_u32_be(buf, rate.add);
    assert(buf@ =~= old(buf)@ + canon_rate(*rate));
}

/// Appends a balance.
pub fn write_balance(buf: &mut Vec<u8>, b: &McBalance)
    ensures
        final(buf)@ == old(buf)@ + canon_balance(*b),
{
    write_i128_be(buf, b.balance);
    write_u128_be(buf, b.local_pending_debt);
    write_u128_be(buf, b.remote_pending_debt);
    assert(buf@ =~= old(buf)@ + canon_balance(*b));
}

/// Appends an index mutation.
pub fn write_index_mutation(buf: &mut Vec<u8>, mutation: &IndexMutation)
    ensures
        final(buf)@ == old(buf)@ + canon_index_mutation(*mutation),
{
    match mutation {
        IndexMutation::UpdateFriend(update) => {
            buf.push(0u8);
            extend_from_array(buf, &update.public_key);
            write_u128_be(buf, update.send_capacity);
            write_u128_be(buf, update.recv_capacity);
            write_rate(buf, &update.rate);
        },
        IndexMutation::RemoveFriend(public_key) => {
            buf.push(1u8);
            extend_from_array(buf, public_key);
        },
    }
    assert(buf@ =~= old(buf)@ + canon_index_mutation(*mutation));
}

} // verus!
