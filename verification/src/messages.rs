//! What the part of the node that moves credits says to the other parts.

use crate::mutual_credit::McMutation;
use crate::types::{Currency, HashResult, PublicKey, Signature, Uid};
use vstd::prelude::*;

verus! {

/// Proof that a payment reached its destination.
#[derive(Clone, Copy, Debug, PartialEq, Eq)]
pub struct SendFundsReceipt {
    pub response_hash: HashResult,
    pub invoice_hash: HashResult,
    pub request_id: Uid,
    pub dest_payment: u128,
    pub total_dest_payment: u128,
    pub signature: Signature,
}

/// How a request to send funds ended.
#[derive(Debug)]
pub enum ResponseSendFundsResult {
    Success(SendFundsReceipt),
    /// The public key of the node that reported the failure.
    Failure(PublicKey),
}

/// A change to the mutual credit of one currency of one friend.
#[derive(Clone, Debug, PartialEq, Eq)]
pub struct FunderMutation {
    pub friend_public_key: PublicKey,
    pub currency: Currency,
    pub mc_mutation: McMutation,
}

/// What is asked of the database: to append a mutation to its log.
#[derive(Clone, Debug, PartialEq, Eq)]
pub enum FunderToDatabase {
    Mutation(FunderMutation),
}

/// What is asked of the part that keeps the connections to the friends.
pub enum FunderToChanneler<A> {
    /// Request send message to remote.
    SendChannelMessage { friend_public_key: PublicKey, content: Vec<u8> },
    /// Request to add a new friend.
    AddFriend { info: A },
    /// Request to remove a friend.
    RemoveFriend { friend_public_key: PublicKey },
}

} // verus!
