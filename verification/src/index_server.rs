//! What an index client and the index servers say to each other.

use crate::types::{Currency, HashResult, PublicKey, RandValue, Rate, Signature, Uid};
use vstd::prelude::*;

verus! {

/// An address on the network, as text.
#[derive(Debug, Clone, PartialEq, Eq)]
pub struct NetAddress {
    pub address: String,
}

/// A chain of nodes, each a friend of the next.
#[derive(Debug, Clone, PartialEq, Eq)]
pub struct FriendsRoute {
    pub public_keys: Vec<PublicKey>,
}

/// IndexClient -> IndexServer
#[derive(Debug, PartialEq, Eq, Clone)]
pub struct RequestRoutes {
    pub request_id: Uid,
    /// Wanted capacity for the route.
    pub capacity: u128,
    pub source: PublicKey,
    pub destination: PublicKey,
    /// This directed edge must not show up in any route inside the
    /// multi-route. Useful for finding non trivial directed loops.
    pub opt_exclude: Option<(PublicKey, PublicKey)>,
}

#[derive(Debug, PartialEq, Eq, Clone)]
pub struct RouteCapacityRate {
    pub route: FriendsRoute,
    /// How many credits we can push along this route?
    pub capacity: u128,
    /// Combined rate of pushing credits along this route.
    pub rate: Rate,
}

/// Multiple routes that together allow to pass a certain amount of credits to
/// a destination. All routes must have the same beginning and the same end.
#[derive(Debug, PartialEq, Eq, Clone)]
pub struct MultiRoute {
    pub routes: Vec<RouteCapacityRate>,
}

/// IndexServer -> IndexClient
#[derive(Debug, Clone)]
pub struct ResponseRoutes {
    pub request_id: Uid,
    /// A few separate multi routes that allow to send the wanted amount of
    /// credits to the requested destination:
    pub multi_routes: Vec<MultiRoute>,
}

#[derive(Debug, Clone, Copy, PartialEq, Eq)]
pub struct UpdateFriend {
    /// Friend's public key
    pub public_key: PublicKey,
    /// To denote remote requests closed, assign 0 to send_capacity
    pub send_capacity: u128,
    /// To denote local requests closed, assign 0 to recv_capacity
    pub recv_capacity: u128,
    /// The rate we charge for forwarding messages to another friend from this
    /// friend.
    pub rate: Rate,
}

/// IndexClient -> IndexServer
#[derive(Debug, Clone, Copy, PartialEq, Eq)]
pub enum IndexMutation {
    UpdateFriend(UpdateFriend),
    RemoveFriend(PublicKey),
}

/// An index mutation, with the currency whose index it is for.
#[derive(Debug, Clone, Copy, PartialEq, Eq)]
pub struct CurrencyIndexMutation {
    pub currency: Currency,
    pub index_mutation: IndexMutation,
}

#[derive(Debug, Clone)]
pub struct MutationsUpdate {
    /// Public key of the node sending the mutations.
    pub node_public_key: PublicKey,
    /// List of mutations to relationships with direct friends.
    pub index_mutations: Vec<IndexMutation>,
    /// A time hash (given by the server previously). This is used as time,
    /// proving that this message was signed recently.
    pub time_hash: HashResult,
    /// A randomly generated session id. The counter is related to this
    /// session id.
    pub session_id: Uid,
    /// Incrementing counter, making sure that mutations are received in the
    /// correct order. For a new session, the counter should begin from 0 and
    /// increment by 1 for every MutationsUpdate message.
    pub counter: u64,
    /// Rand nonce, used as a security measure for the next signature.
    pub rand_nonce: RandValue,
    /// Signature over the buffer that
    /// `create_mutations_update_signature_buff` builds.
    pub signature: Signature,
}

#[derive(Debug, Clone)]
pub struct TimeProofLink {
    /// List of hashes that produce a certain hash
    pub hashes: Vec<HashResult>,
}

#[derive(Debug, Clone)]
pub struct ForwardMutationsUpdate {
    pub mutations_update: MutationsUpdate,
    /// A proof that MutationsUpdate was signed recently
    pub time_proof_chain: Vec<TimeProofLink>,
}

#[derive(Debug)]
pub enum IndexServerToClient {
    TimeHash(HashResult),
    ResponseRoutes(ResponseRoutes),
}

#[derive(Debug)]
pub enum IndexClientToServer {
    MutationsUpdate(MutationsUpdate),
    RequestRoutes(RequestRoutes),
}

#[derive(Debug)]
pub enum IndexServerToServer {
    TimeHash(HashResult),
    ForwardMutationsUpdate(ForwardMutationsUpdate),
}

#[derive(Debug, Clone, PartialEq, Eq)]
pub struct NamedIndexServerAddress<ISA> {
    pub public_key: PublicKey,
    pub address: ISA,
    pub name: String,
}

#[derive(Debug, Clone, PartialEq, Eq)]
pub struct IndexServerAddress<ISA> {
    pub public_key: PublicKey,
    pub address: ISA,
}

impl<ISA> From<NamedIndexServerAddress<ISA>> for IndexServerAddress<ISA> {
    fn from(from: NamedIndexServerAddress<ISA>) -> (r: Self) {
        IndexServerAddress { public_key: from.public_key, address: from.address }
    }
}

impl<ISA> vstd::std_specs::convert::FromSpecImpl<NamedIndexServerAddress<ISA>> for IndexServerAddress<ISA> {
    open spec fn obeys_from_spec() -> bool {
        true
    }

    /// The address without its name.
    open spec fn from_spec(from: NamedIndexServerAddress<ISA>) -> Self {
        IndexServerAddress { public_key: from.public_key, address: from.address }
    }
}

} // verus!
