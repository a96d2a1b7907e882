//! The buffers that are hashed and signed. Signer and verifier both build
//! them here, so that they sign and check the same bytes.

use crate::canonical::{canon_currency, canon_index_mutations, write_currency, write_index_mutation};
use crate::crypto::{
    extend_from_array, hash_buffer, sha_512_256, u128_be, u64_be, write_u128_be, write_u64_be,
};
use crate::index_server::MutationsUpdate;
use crate::messages::SendFundsReceipt;
use crate::proto::{MoveToken, PendingTransaction, ResponseSendFundsOp, TokenInfo, TransactionView};
use crate::types::{Currency, HashResult, PublicKey, Signature};
use vstd::prelude::*;

verus! {

/// `FUND_RESPONSE`, in ASCII.
pub const FUNDS_RESPONSE_PREFIX: [u8; 13] = [70, 85, 78, 68, 95, 82, 69, 83, 80, 79, 78, 83, 69];

/// `FUND_CANCEL`, in ASCII.
pub const FUNDS_CANCEL_PREFIX: [u8; 11] = [70, 85, 78, 68, 95, 67, 65, 78, 67, 69, 76];

/// `NEXT`, in ASCII. Prefix of the chain of tokens.
pub const TOKEN_NEXT: [u8; 4] = [78, 69, 88, 84];

/// `RESET_TOKEN`, in ASCII.
pub const RESET_TOKEN_PREFIX: [u8; 11] = [82, 69, 83, 69, 84, 95, 84, 79, 75, 69, 78];

/// `MUTATIONS_UPDATE`, in ASCII.
pub const MUTATIONS_UPDATE_PREFIX: [u8; 16] = [
    77,
    85,
    84,
    65,
    84,
    73,
    79,
    78,
    83,
    95,
    85,
    80,
    68,
    65,
    84,
    69,
];

/// The buffer that the destination of a payment signs when it responds. It
/// covers the response and, from the request, what the payer committed to.
pub open spec fn response_signature_buffer(
    currency: Currency,
    response: ResponseSendFundsOp,
    pending_transaction: TransactionView,
) -> Seq<u8> {
    sha_512_256(FUNDS_RESPONSE_PREFIX@) + response_digest(response, pending_transaction)
        + u128_be(response.serial_num) + u128_be(pending_transaction.total_dest_payment)
        + pending_transaction.invoice_hash@ + canon_currency(currency)
}

/// What a move token's `info_hash` is the digest of.
pub open spec fn token_info_buffer(
    local_public_key: PublicKey,
    remote_public_key: PublicKey,
    balances_hash: Seq<u8>,
    move_token_counter: u128,
) -> Seq<u8> {
    local_public_key@ + remote_public_key@ + balances_hash + u128_be(move_token_counter)
}

/// The buffer that the sender of a move token signs.
pub open spec fn move_token_signature_buffer(old_token: Signature, info_hash: HashResult) -> Seq<
    u8,
> {
    sha_512_256(TOKEN_NEXT@) + old_token@ + info_hash@
}

/// The buffer that a side signs to make its reset token.
pub open spec fn reset_token_signature_buffer(
    local_public_key: PublicKey,
    remote_public_key: PublicKey,
    move_token_counter: u128,
) -> Seq<u8> {
    sha_512_256(RESET_TOKEN_PREFIX@) + local_public_key@ + remote_public_key@ + u128_be(
        move_token_counter,
    )
}

/// The buffer that a node signs when it reports mutations to an index
/// server.
pub open spec fn mutations_update_signature_buffer(
    node_public_key: PublicKey,
    index_mutations: Seq<crate::index_server::IndexMutation>,
    time_hash: HashResult,
    session_id: crate::types::Uid,
    counter: u64,
    rand_nonce: crate::types::RandValue,
) -> Seq<u8> {
    sha_512_256(MUTATIONS_UPDATE_PREFIX@) + node_public_key@ + u64_be(index_mutations.len() as u64)
        + canon_index_mutations(index_mutations) + time_hash@ + session_id@ + u64_be(counter)
        + rand_nonce@
}

/// Create the buffer we sign over at the Response funds.
/// Note that the signature is not just over the Response funds bytes. The
/// signed buffer also contains information from the Request funds.
pub fn create_response_signature_buffer(
    currency: &Currency,
    response_send_funds: &ResponseSendFundsOp,
    pending_transaction: &PendingTransaction,
) -> (sbuffer: Vec<u8>)
    ensures
        sbuffer@ == response_signature_buffer(
            *currency,
            *response_send_funds,
            pending_transaction@,
        ),
        sbuffer@.len() == 136 + currency@.len(),
{
    let mut sbuffer: Vec<u8> = Vec::new();
    let prefix = FUNDS_RESPONSE_PREFIX;
    extend_from_array(&mut sbuffer, &hash_buffer(prefix.as_slice()));

    let mut inner_blob: Vec<u8> = Vec::new();
    extend_from_array(&mut inner_blob, &pending_transaction.request_id);
    extend_from_array(&mut inner_blob, &pending_transaction.hmac);
    extend_from_array(&mut inner_blob, &response_send_funds.src_plain_lock);
    write_u128_be(&mut inner_blob, pending_transaction.dest_payment);
    assert(inner_blob@ =~= pending_transaction.request_id@ + pending_transaction.hmac@
        + response_send_funds.src_plain_lock@ + u128_be(pending_transaction.dest_payment));

    extend_from_array(&mut sbuffer, &hash_buffer(inner_blob.as_slice()));
    write_u128_be(&mut sbuffer, response_send_funds.serial_num);
    write_u128_be(&mut sbuffer, pending_transaction.total_dest_payment);
    extend_from_array(&mut sbuffer, &pending_transaction.invoice_hash);
    write_currency(&mut sbuffer, currency);
    assert(sbuffer@ =~= response_signature_buffer(
        *currency,
        *response_send_funds,
        pending_transaction@,
    ));
    sbuffer
}

/// What a response commits to of the request that it answers: the digest of
/// the request's id and hmac, the lock that the response opens, and the
/// payment.
pub open spec fn response_digest(
    response: ResponseSendFundsOp,
    pending_transaction: TransactionView,
) -> Seq<u8> {
    sha_512_256(
        pending_transaction.request_id@ + pending_transaction.hmac@ + response.src_plain_lock@
            + u128_be(pending_transaction.dest_payment),
    )
}

/// The receipt that shows that a payment reached its destination: what the
/// destination signed, with its signature.
pub fn prepare_receipt(
    response_send_funds: &ResponseSendFundsOp,
    pending_transaction: &PendingTransaction,
) -> (receipt: SendFundsReceipt)
    ensures
        receipt.response_hash@ == response_digest(*response_send_funds, pending_transaction@),
        receipt.invoice_hash == pending_transaction.invoice_hash,
        receipt.request_id == pending_transaction.request_id,
        receipt.dest_payment == pending_transaction.dest_payment,
        receipt.total_dest_payment == pending_transaction.total_dest_payment,
        receipt.signature == response_send_funds.signature,
{
    let mut inner_blob: Vec<u8> = Vec::new();
    extend_from_array(&mut inner_blob, &pending_transaction.request_id);
    extend_from_array(&mut inner_blob, &pending_transaction.hmac);
    extend_from_array(&mut inner_blob, &response_send_funds.src_plain_lock);
    write_u128_be(&mut inner_blob, pending_transaction.dest_payment);
    assert(inner_blob@ =~= pending_transaction.request_id@ + pending_transaction.hmac@
        + response_send_funds.src_plain_lock@ + u128_be(pending_transaction.dest_payment));
    SendFundsReceipt {
        response_hash: hash_buffer(inner_blob.as_slice()),
        invoice_hash: pending_transaction.invoice_hash,
        request_id: pending_transaction.request_id,
        dest_payment: pending_transaction.dest_payment,
        total_dest_payment: pending_transaction.total_dest_payment,
        signature: response_send_funds.signature,
    }
}

/// The digest that ties a move token to the two parties, to the balances
/// after it and to its place in the sequence of tokens.
pub fn hash_token_info(
    local_public_key: &PublicKey,
    remote_public_key: &PublicKey,
    token_info: &TokenInfo,
) -> (info_hash: HashResult)
    ensures
        info_hash@ == sha_512_256(
            token_info_buffer(
                *local_public_key,
                *remote_public_key,
                token_info.balances_hash@,
                token_info.move_token_counter,
            ),
        ),
        info_hash@.len() == 32,
{
    let mut buff: Vec<u8> = Vec::new();
    extend_from_array(&mut buff, local_public_key);
    extend_from_array(&mut buff, remote_public_key);
    extend_from_array(&mut buff, &token_info.balances_hash);
    write_u128_be(&mut buff, token_info.move_token_counter);
    assert(buff@ =~= token_info_buffer(
        *local_public_key,
        *remote_public_key,
        token_info.balances_hash@,
        token_info.move_token_counter,
    ));
    hash_buffer(buff.as_slice())
}

/// The buffer that the sender of `move_token` signs to make its `new_token`.
pub fn move_token_signature_buff(move_token: &MoveToken) -> (sig_buffer: Vec<u8>)
    ensures
        sig_buffer@ == move_token_signature_buffer(move_token.old_token, move_token.info_hash),
        sig_buffer@.len() == 128,
{
    let mut sig_buffer: Vec<u8> = Vec::new();
    let prefix = TOKEN_NEXT;
    extend_from_array(&mut sig_buffer, &hash_buffer(prefix.as_slice()));
    extend_from_array(&mut sig_buffer, &move_token.old_token);
    extend_from_array(&mut sig_buffer, &move_token.info_hash);
    assert(sig_buffer@ =~= move_token_signature_buffer(move_token.old_token, move_token.info_hash));
    sig_buffer
}

/// The buffer that a side signs to make the reset token of its reset terms.
pub fn reset_token_signature_buff(
    local_public_key: &PublicKey,
    remote_public_key: &PublicKey,
    move_token_counter: u128,
) -> (sig_buffer: Vec<u8>)
    ensures
        sig_buffer@ == reset_token_signature_buffer(
            *local_public_key,
            *remote_public_key,
            move_token_counter,
        ),
        sig_buffer@.len() == 112,
{
    let mut sig_buffer: Vec<u8> = Vec::new();
    let prefix = RESET_TOKEN_PREFIX;
    extend_from_array(&mut sig_buffer, &hash_buffer(prefix.as_slice()));
    extend_from_array(&mut sig_buffer, local_public_key);
    extend_from_array(&mut sig_buffer, remote_public_key);
    write_u128_be(&mut sig_buffer, move_token_counter);
    assert(sig_buffer@ =~= reset_token_signature_buffer(
        *local_public_key,
        *remote_public_key,
        move_token_counter,
    ));
    sig_buffer
}

/// The buffer that a node signs over a report of mutations for an index
/// server.
pub fn create_mutations_update_signature_buff(mutations_update: &MutationsUpdate) -> (res_bytes:
    Vec<u8>)
    ensures
        res_bytes@ == mutations_update_signature_buffer(
            mutations_update.node_public_key,
            mutations_update.index_mutations@,
            mutations_update.time_hash,
            mutations_update.session_id,
            mutations_update.counter,
            mutations_update.rand_nonce,
        ),
        res_bytes@.len() == 144 + canon_index_mutations(mutations_update.index_mutations@).len(),
{
    let mut res_bytes: Vec<u8> = Vec::new();
    let prefix = MUTATIONS_UPDATE_PREFIX;
    extend_from_array(&mut res_bytes, &hash_buffer(prefix.as_slice()));
    extend_from_array(&mut res_bytes, &mutations_update.node_public_key);
    write_u64_be(&mut res_bytes, mutations_update.index_mutations.len() as u64);
    let ghost head = res_bytes@;
    let mut i: usize = 0;
    while i < mutations_update.index_mutations.len()
        invariant
            0 <= i <= mutations_update.index_mutations.len(),
            res_bytes@ == head + canon_index_mutations(
                mutations_update.index_mutations@.subrange(0, i as int),
            ),
        decreases mutations_update.index_mutations.len() - i,
    {
        write_index_mutation(&mut res_bytes, &mutations_update.index_mutations[i]);
        proof {
            let all = mutations_update.index_mutations@;
            assert(all.subrange(0, i + 1).drop_last() =~= all.subrange(0, i as int));
            assert(all.subrange(0, i + 1).last() == all[i as int]);
            assert(res_bytes@ =~= head + canon_index_mutations(all.subrange(0, i + 1)));
        }
        i += 1;
    }
    assert(mutations_update.index_mutations@.subrange(0, i as int)
        =~= mutations_update.index_mutations@);
    extend_from_array(&mut res_bytes, &mutations_update.time_hash);
    extend_from_array(&mut res_bytes, &mutations_update.session_id);
    write_u64_be(&mut res_bytes, mutations_update.counter);
    extend_from_array(&mut res_bytes, &mutations_update.rand_nonce);
    assert(res_bytes@ =~= mutations_update_signature_buffer(
        mutations_update.node_public_key,
        mutations_update.index_mutations@,
        mutations_update.time_hash,
        mutations_update.session_id,
        mutations_update.counter,
        mutations_update.rand_nonce,
    ));
    res_bytes
}

} // verus!
