//! Routes: the chain of nodes that a payment passes.

use crate::types::{array_eq, PublicKey};
use vstd::prelude::*;

verus! {

/// Whether no node stands twice on a route.
pub open spec fn distinct_keys(route: Seq<PublicKey>) -> bool {
    forall|i: int, j: int| 0 <= i < j < route.len() ==> #[trigger] route[i] != #[trigger] route[j]
}

/// Whether a route can be handed to `receiver`: it is not empty, it starts
/// with the receiver, and no node stands on it twice.
pub open spec fn valid_route_for(route: Seq<PublicKey>, receiver: PublicKey) -> bool {
    &&& route.len() > 0
    &&& route[0] == receiver
    &&& distinct_keys(route)
}

/// Whether a node stands on a route.
pub fn route_contains(route: &Vec<PublicKey>, public_key: &PublicKey) -> (r: bool)
    ensures
        r == route@.contains(*public_key),
{
    let mut i: usize = 0;
    while i < route.len()
        invariant
            0 <= i <= route.len(),
            forall|j: int| 0 <= j < i ==> route@[j] != *public_key,
        decreases route.len() - i,
    {
        if array_eq(&route[i], public_key) {
            return true;
        }
        i += 1;
    }
    false
}

/// Whether no node stands twice on a route.
pub fn is_distinct(route: &Vec<PublicKey>) -> (r: bool)
    ensures
        r == distinct_keys(route@),
{
    let mut j: usize = 0;
    while j < route.len()
        invariant
            0 <= j <= route.len(),
            forall|a: int, b: int| 0 <= a < b < j ==> #[trigger] route@[a] != #[trigger] route@[b],
        decreases route.len() - j,
    {
        let mut i: usize = 0;
        while i < j
            invariant
                0 <= i <= j < route.len(),
                forall|a: int| 0 <= a < i ==> #[trigger] route@[a] != route@[j as int],
            decreases j - i,
        {
            if array_eq(&route[i], &route[j]) {
                return false;
            }
            i += 1;
        }
        j += 1;
    }
    true
}

/// Whether a route can be handed to `receiver`.
pub fn is_valid_route_for(route: &Vec<PublicKey>, receiver: &PublicKey) -> (r: bool)
    ensures
        r == valid_route_for(route@, *receiver),
{
    route.len() > 0 && array_eq(&route[0], receiver) && is_distinct(route)
}

/// The route without its first node: what the receiver hands on.
pub fn route_tail(route: &Vec<PublicKey>) -> (tail: Vec<PublicKey>)
    requires
        route@.len() > 0,
    ensures
        tail@ == route@.subrange(1, route@.len() as int),
{
    let mut tail: Vec<PublicKey> = Vec::new();
    let mut i: usize = 1;
    while i < route.len()
        invariant
            1 <= i <= route.len(),
            tail@ == route@.subrange(1, i as int),
        decreases route.len() - i,
    {
        tail.push(route[i]);
        assert(route@.subrange(1, i + 1) =~= route@.subrange(1, i as int).push(route@[i as int]));
        i += 1;
    }
    tail
}

} // verus!
