//! What the node keeps in memory only: which friends can be reached, and
//! how many credits are frozen toward each.

use crate::mutual_credit::MutualCreditView;
use crate::router::RouterState;
use crate::types::{array_eq, PublicKey};
use vstd::prelude::*;

verus! {

/// Which friends can be reached.
#[derive(Clone, Debug)]
pub struct Liveness {
    /// The friends that can be reached, each once.
    pub friends: Vec<PublicKey>,
}

/// A change of which friends can be reached.
#[derive(Clone, Copy, Debug)]
pub enum LivenessMutation {
    SetOnline(PublicKey),
    SetOffline(PublicKey),
}

impl Liveness {
    /// No friend stands twice in the list.
    pub open spec fn wf(&self) -> bool {
        forall|i: int, j: int|
            0 <= i < j < self.friends@.len() ==> #[trigger] self.friends@[i]
                != #[trigger] self.friends@[j]
    }

    /// Whether a friend can be reached.
    pub open spec fn online(&self, friend_public_key: PublicKey) -> bool {
        self.friends@.contains(friend_public_key)
    }

    /// Nobody can be reached.
    pub fn new() -> (liveness: Liveness)
        ensures
            liveness.wf(),
            forall|k: PublicKey| !liveness.online(k),
    {
        Liveness { friends: Vec::new() }
    }

    /// Where a friend stands in the list, if it does.
    fn position(&self, friend_public_key: &PublicKey) -> (r: Option<usize>)
        ensures
            r is Some == self.online(*friend_public_key),
            r is Some ==> r.unwrap() < self.friends@.len() && self.friends@[r.unwrap() as int]
                == *friend_public_key,
    {
        let mut i: usize = 0;
        while i < self.friends.len()
            invariant
                0 <= i <= self.friends@.len(),
                forall|j: int| 0 <= j < i ==> self.friends@[j] != *friend_public_key,
            decreases self.friends@.len() - i,
        {
            if array_eq(&self.friends[i], friend_public_key) {
                return Some(i);
            }
            i += 1;
        }
        None
    }

    /// Whether a friend can be reached.
    pub fn is_online(&self, friend_public_key: &PublicKey) -> (r: bool)
        ensures
            r == self.online(*friend_public_key),
    {
        self.position(friend_public_key).is_some()
    }

    /// Notes that a friend can be reached, or that it cannot.
    pub fn mutate(&mut self, mutation: &LivenessMutation)
        requires
            old(self).wf(),
        ensures
            final(self).wf(),
            match *mutation {
                LivenessMutation::SetOnline(key) => forall|k: PublicKey|
                    final(self).online(k) == (k == key || old(self).online(k)),
                LivenessMutation::SetOffline(key) => forall|k: PublicKey|
                    final(self).online(k) == (k != key && old(self).online(k)),
            },
    {
        match mutation {
            LivenessMutation::SetOnline(key) => {
                if self.position(key).is_none() {
                    self.friends.push(*key);
                    proof {
                        let ghost before = old(self).friends@;
                        assert forall|k: PublicKey|
                            self.online(k) == (k == *key || old(self).online(k)) by {
                            if self.online(k) {
                                let i = self.friends@.index_of(k);
                                if i < before.len() {
                                    assert(before[i] == k);
                                }
                            }
                            if k == *key {
                                assert(self.friends@[before.len() as int] == k);
                            }
                            if old(self).online(k) {
                                let i = before.index_of(k);
                                assert(self.friends@[i] == k);
                            }
                        }
                    }
                }
            },
            LivenessMutation::SetOffline(key) => {
                match self.position(key) {
                    Some(i) => {
                        self.friends.remove(i);
                        proof {
                            let ghost before = old(self).friends@;
                            assert forall|k: PublicKey|
                                self.online(k) == (k != *key && old(self).online(k)) by {
                                if self.online(k) {
                                    let j = self.friends@.index_of(k);
                                    let j0 = if j < i { j } else { j + 1 };
                                    assert(before[j0] == k);
                                    if k == *key {
                                        if j0 < i {
                                            assert(before[j0] != before[i as int]);
                                        } else {
                                            assert(before[i as int] != before[j0]);
                                        }
                                    }
                                }
                                if k != *key && old(self).online(k) {
                                    let j0 = before.index_of(k);
                                    let j = if j0 < i { j0 } else { j0 - 1 };
                                    assert(self.friends@[j] == k);
                                }
                            }
                            assert forall|a: int, b: int|
                                0 <= a < b < self.friends@.len() implies #[trigger] self.friends@[a]
                                != #[trigger] self.friends@[b] by {
                                let a0 = if a < i { a } else { a + 1 };
                                let b0 = if b < i { b } else { b + 1 };
                                assert(before[a0] != before[b0]);
                            }
                        }
                    },
                    None => {},
                }
            },
        }
    }
}

/// The credits frozen toward one friend.
#[derive(Clone, Copy, Debug)]
pub struct FrozenCredits {
    pub friend_public_key: PublicKey,
    pub credits: u128,
}

/// How many credits the node has frozen toward each friend, so that no
/// friend can make it freeze more than it means to.
#[derive(Clone, Debug)]
pub struct FreezeGuard {
    pub local_public_key: PublicKey,
    /// One entry for each friend that has credits frozen, each friend once.
    pub frozen_to: Vec<FrozenCredits>,
}

/// A change of the credits frozen toward a friend.
#[derive(Clone, Copy, Debug)]
pub enum FreezeGuardMutation {
    /// Credits were frozen toward the friend.
    AddFrozenCredit(PublicKey, u128),
    /// Credits frozen toward the friend were released.
    SubFrozenCredit(PublicKey, u128),
}

impl FreezeGuard {
    /// No friend has two entries.
    pub open spec fn wf(&self) -> bool {
        forall|i: int, j: int|
            0 <= i < j < self.frozen_to@.len() ==> (#[trigger] self.frozen_to@[i]).friend_public_key
                != (#[trigger] self.frozen_to@[j]).friend_public_key
    }

    /// Whether a friend has an entry.
    pub open spec fn has_entry(&self, friend_public_key: PublicKey) -> bool {
        exists|i: int|
            0 <= i < self.frozen_to@.len() && (#[trigger] self.frozen_to@[i]).friend_public_key
                == friend_public_key
    }

    /// The credits frozen toward a friend.
    pub open spec fn frozen(&self, friend_public_key: PublicKey) -> u128 {
        if self.has_entry(friend_public_key) {
            self.frozen_to@[choose|i: int|
                0 <= i < self.frozen_to@.len() && (#[trigger] self.frozen_to@[i]).friend_public_key
                    == friend_public_key].credits
        } else {
            0
        }
    }

    /// Nothing is frozen.
    pub fn new(local_public_key: &PublicKey) -> (guard: FreezeGuard)
        ensures
            guard.wf(),
            guard.local_public_key == *local_public_key,
            forall|k: PublicKey| guard.frozen(k) == 0,
    {
        FreezeGuard { local_public_key: *local_public_key, frozen_to: Vec::new() }
    }

    /// Where the entry of a friend stands, if it has one.
    fn position(&self, friend_public_key: &PublicKey) -> (r: Option<usize>)
        requires
            self.wf(),
        ensures
            r is Some == self.has_entry(*friend_public_key),
            r is Some ==> r.unwrap() < self.frozen_to@.len() && self.frozen_to@[r.unwrap() as int].friend_public_key
                == *friend_public_key && self.frozen(*friend_public_key)
                == self.frozen_to@[r.unwrap() as int].credits,
    {
        let mut i: usize = 0;
        while i < self.frozen_to.len()
            invariant
                0 <= i <= self.frozen_to@.len(),
                self.wf(),
                forall|j: int|
                    0 <= j < i ==> (#[trigger] self.frozen_to@[j]).friend_public_key
                        != *friend_public_key,
            decreases self.frozen_to@.len() - i,
        {
            if array_eq(&self.frozen_to[i].friend_public_key, friend_public_key) {
                proof {
                    self.lemma_entry(i as int);
                }
                return Some(i);
            }
            i += 1;
        }
        None
    }

    /// The entry at an index is the entry of its friend.
    proof fn lemma_entry(&self, i: int)
        requires
            self.wf(),
            0 <= i < self.frozen_to@.len(),
        ensures
            self.has_entry(self.frozen_to@[i].friend_public_key),
            self.frozen(self.frozen_to@[i].friend_public_key) == self.frozen_to@[i].credits,
    {
        let key = self.frozen_to@[i].friend_public_key;
        let j = choose|j: int|
            0 <= j < self.frozen_to@.len() && (#[trigger] self.frozen_to@[j]).friend_public_key
                == key;
        if i < j {
            assert(self.frozen_to@[i].friend_public_key != self.frozen_to@[j].friend_public_key);
        } else if j < i {
            assert(self.frozen_to@[j].friend_public_key != self.frozen_to@[i].friend_public_key);
        }
    }

    /// The credits frozen toward a friend.
    pub fn get_frozen(&self, friend_public_key: &PublicKey) -> (credits: u128)
        requires
            self.wf(),
        ensures
            credits == self.frozen(*friend_public_key),
    {
        match self.position(friend_public_key) {
            Some(i) => self.frozen_to[i].credits,
            None => 0,
        }
    }

    /// Sets the credits frozen toward a friend.
    fn set_frozen(&mut self, friend_public_key: &PublicKey, credits: u128)
        requires
            old(self).wf(),
        ensures
            final(self).wf(),
            final(self).local_public_key == old(self).local_public_key,
            final(self).frozen(*friend_public_key) == credits,
            forall|k: PublicKey| k != *friend_public_key ==> final(self).frozen(k) == old(self).frozen(k),
    {
        let ghost before = *self;
        match self.position(friend_public_key) {
            Some(i) => {
                self.frozen_to[i].credits = credits;
                proof {
                    assert(self.wf()) by {
                        assert forall|a: int, b: int|
                            0 <= a < b < self.frozen_to@.len() implies (
                        #[trigger] self.frozen_to@[a]).friend_public_key != (
                        #[trigger] self.frozen_to@[b]).friend_public_key by {
                            assert(before.frozen_to@[a].friend_public_key
                                != before.frozen_to@[b].friend_public_key);
                        }
                    }
                    self.lemma_entry(i as int);
                    assert forall|k: PublicKey| k != *friend_public_key implies self.frozen(k)
                        == before.frozen(k) by {
                        if before.has_entry(k) {
                            let j = choose|j: int|
                                0 <= j < before.frozen_to@.len() && (
                                #[trigger] before.frozen_to@[j]).friend_public_key == k;
                            before.lemma_entry(j);
                            assert(self.frozen_to@[j].friend_public_key == k);
                            self.lemma_entry(j);
                        } else if self.has_entry(k) {
                            let j = choose|j: int|
                                0 <= j < self.frozen_to@.len() && (
                                #[trigger] self.frozen_to@[j]).friend_public_key == k;
                            assert(before.frozen_to@[j].friend_public_key == k);
                        }
                    }
                }
            },
            None => {
                self.frozen_to.push(FrozenCredits { friend_public_key: *friend_public_key, credits });
                proof {
                    let n = before.frozen_to@.len() as int;
                    assert(self.wf()) by {
                        assert forall|a: int, b: int|
                            0 <= a < b < self.frozen_to@.len() implies (
                        #[trigger] self.frozen_to@[a]).friend_public_key != (
                        #[trigger] self.frozen_to@[b]).friend_public_key by {
                            if b == n {
                                assert(before.frozen_to@[a].friend_public_key
                                    != *friend_public_key);
                            } else {
                                assert(before.frozen_to@[a].friend_public_key
                                    != before.frozen_to@[b].friend_public_key);
                            }
                        }
                    }
                    self.lemma_entry(n);
                    assert forall|k: PublicKey| k != *friend_public_key implies self.frozen(k)
                        == before.frozen(k) by {
                        if before.has_entry(k) {
                            let j = choose|j: int|
                                0 <= j < before.frozen_to@.len() && (
                                #[trigger] before.frozen_to@[j]).friend_public_key == k;
                            before.lemma_entry(j);
                            assert(self.frozen_to@[j].friend_public_key == k);
                            self.lemma_entry(j);
                        } else if self.has_entry(k) {
                            let j = choose|j: int|
                                0 <= j < self.frozen_to@.len() && (
                                #[trigger] self.frozen_to@[j]).friend_public_key == k;
                            assert(before.frozen_to@[j].friend_public_key == k);
                        }
                    }
                }
            },
        }
    }

    /// Freezes credits toward a friend, or releases them. The count stops at
    /// the largest number when credits are added, and at zero when they are
    /// released.
    pub fn mutate(&mut self, mutation: &FreezeGuardMutation)
        requires
            old(self).wf(),
        ensures
            final(self).wf(),
            final(self).local_public_key == old(self).local_public_key,
            match *mutation {
                FreezeGuardMutation::AddFrozenCredit(key, credits) => {
                    &&& final(self).frozen(key) == if old(self).frozen(key) + credits > u128::MAX {
                        u128::MAX
                    } else {
                        (old(self).frozen(key) + credits) as u128
                    }
                    &&& forall|k: PublicKey| k != key ==> final(self).frozen(k) == old(self).frozen(k)
                },
                FreezeGuardMutation::SubFrozenCredit(key, credits) => {
                    &&& final(self).frozen(key) == if old(self).frozen(key) < credits {
                        0
                    } else {
                        (old(self).frozen(key) - credits) as u128
                    }
                    &&& forall|k: PublicKey| k != key ==> final(self).frozen(k) == old(self).frozen(k)
                },
            },
    {
        match mutation {
            FreezeGuardMutation::AddFrozenCredit(key, credits) => {
                let now = self.get_frozen(key);
                let sum = match now.checked_add(*credits) {
                    Some(sum) => sum,
                    None => u128::MAX,
                };
                self.set_frozen(key, sum);
            },
            FreezeGuardMutation::SubFrozenCredit(key, credits) => {
                let now = self.get_frozen(key);
                let rest = if now < *credits {
                    0
                } else {
                    now - *credits
                };
                self.set_frozen(key, rest);
            },
        }
    }
}

/// The credits that the local side has frozen in a list of mutual credits.
pub open spec fn frozen_by(mcs: Seq<MutualCreditView>) -> nat
    decreases mcs.len(),
{
    if mcs.len() == 0 {
        0
    } else {
        frozen_by(mcs.drop_last()) + mcs.last().balance.local_pending_debt as nat
    }
}

/// A number of credits, capped at the largest number.
pub open spec fn capped(credits: nat) -> u128 {
    if credits > u128::MAX {
        u128::MAX
    } else {
        credits as u128
    }
}

/// What the node keeps in memory only.
#[derive(Clone, Debug)]
pub struct Ephemeral {
    pub freeze_guard: FreezeGuard,
    pub liveness: Liveness,
}

/// A change of what the node keeps in memory only.
#[derive(Clone, Copy, Debug)]
pub enum EphemeralMutation {
    LivenessMutation(LivenessMutation),
    FreezeGuardMutation(FreezeGuardMutation),
}

impl Ephemeral {
    /// Both parts are well formed.
    pub open spec fn wf(&self) -> bool {
        self.freeze_guard.wf() && self.liveness.wf()
    }

    /// What the node starts with: nobody can be reached yet, and toward each
    /// friend the credits are frozen that its channel holds as pending debt
    /// of the local side, summed over the currencies and capped at the
    /// largest number.
    pub fn new(router_state: &RouterState) -> (ephemeral: Ephemeral)
        requires
            router_state.wf(),
        ensures
            ephemeral.wf(),
            ephemeral.freeze_guard.local_public_key == router_state.local_public_key,
            forall|k: PublicKey| !ephemeral.liveness.online(k),
            forall|k: PublicKey|
                !router_state.has_friend(k) ==> ephemeral.freeze_guard.frozen(k) == 0,
            forall|i: int|
                0 <= i < router_state.friends@.len() ==> ephemeral.freeze_guard.frozen(
                    (#[trigger] router_state.friends@[i]).public_key,
                ) == capped(frozen_by(router_state.friends@[i].token_channel.channel().mutual_credits)),
    {
        let mut freeze_guard = FreezeGuard::new(&router_state.local_public_key);
        let mut i: usize = 0;
        while i < router_state.friends.len()
            invariant
                0 <= i <= router_state.friends@.len(),
                router_state.wf(),
                freeze_guard.wf(),
                freeze_guard.local_public_key == router_state.local_public_key,
                forall|k: PublicKey| !router_state.has_friend(k) ==> freeze_guard.frozen(k) == 0,
                forall|j: int|
                    0 <= j < i ==> freeze_guard.frozen(
                        (#[trigger] router_state.friends@[j]).public_key,
                    ) == capped(
                        frozen_by(router_state.friends@[j].token_channel.channel().mutual_credits),
                    ),
                forall|j: int|
                    i <= j < router_state.friends@.len() ==> freeze_guard.frozen(
                        (#[trigger] router_state.friends@[j]).public_key,
                    ) == 0,
            decreases router_state.friends@.len() - i,
        {
            let friend = &router_state.friends[i];
            assert(router_state.has_friend(friend.public_key));
            let ghost mcs = friend.token_channel.channel().mutual_credits;
            let ghost before = freeze_guard;
            let n = friend.token_channel.mutual_credits.len();
            let mut k: usize = 0;
            while k < n
                invariant
                    0 <= k <= n,
                    n == friend.token_channel.mutual_credits.keys().len(),
                    n == mcs.len(),
                    mcs == friend.token_channel.channel().mutual_credits,
                    friend.wf(),
                    freeze_guard.wf(),
                    freeze_guard.local_public_key == router_state.local_public_key,
                    freeze_guard.frozen(friend.public_key) == capped(frozen_by(mcs.take(k as int))),
                    forall|key: PublicKey|
                        key != friend.public_key ==> freeze_guard.frozen(key) == before.frozen(key),
                decreases n - k,
            {
                let debt = friend.token_channel.mutual_credits.value_at(k).balance.local_pending_debt;
                proof {
                    assert(mcs.take(k + 1).drop_last() =~= mcs.take(k as int));
                    assert(mcs.take(k + 1).last() == mcs[k as int]);
                }
                freeze_guard.mutate(&FreezeGuardMutation::AddFrozenCredit(friend.public_key, debt));
                k += 1;
            }
            proof {
                assert(mcs.take(n as int) =~= mcs);
                assert forall|j: int| 0 <= j < i + 1 implies freeze_guard.frozen(
                    (#[trigger] router_state.friends@[j]).public_key,
                ) == capped(
                    frozen_by(router_state.friends@[j].token_channel.channel().mutual_credits),
                ) by {
                    if j < i {
                        assert(router_state.friends@[j].public_key
                            != router_state.friends@[i as int].public_key);
                    }
                }
                assert forall|j: int| i + 1 <= j < router_state.friends@.len() implies freeze_guard.frozen(
                    (#[trigger] router_state.friends@[j]).public_key,
                ) == 0 by {
                    assert(router_state.friends@[i as int].public_key
                        != router_state.friends@[j].public_key);
                }
                assert forall|key: PublicKey| !router_state.has_friend(key) implies freeze_guard.frozen(
                    key,
                ) == 0 by {
                    assert(key != friend.public_key);
                }
            }
            i += 1;
        }
        Ephemeral { freeze_guard, liveness: Liveness::new() }
    }

    /// Applies a change to the part that it is for, and leaves the other
    /// part as it is.
    pub fn mutate(&mut self, mutation: &EphemeralMutation)
        requires
            old(self).wf(),
        ensures
            final(self).wf(),
            match *mutation {
                EphemeralMutation::LivenessMutation(liveness_mutation) => {
                    &&& final(self).freeze_guard == old(self).freeze_guard
                    &&& match liveness_mutation {
                        LivenessMutation::SetOnline(key) => forall|k: PublicKey|
                            final(self).liveness.online(k) == (k == key || old(self).liveness.online(k)),
                        LivenessMutation::SetOffline(key) => forall|k: PublicKey|
                            final(self).liveness.online(k) == (k != key && old(self).liveness.online(k)),
                    }
                },
                EphemeralMutation::FreezeGuardMutation(freeze_guard_mutation) => {
                    &&& final(self).liveness == old(self).liveness
                    &&& final(self).freeze_guard.local_public_key == old(self).freeze_guard.local_public_key
                    &&& match freeze_guard_mutation {
                        FreezeGuardMutation::AddFrozenCredit(key, credits) => {
                            &&& final(self).freeze_guard.frozen(key) == if old(self).freeze_guard.frozen(key) + credits > u128::MAX {
                                u128::MAX
                            } else {
                                (old(self).freeze_guard.frozen(key) + credits) as u128
                            }
                            &&& forall|k: PublicKey|
                                k != key ==> final(self).freeze_guard.frozen(k) == old(self).freeze_guard.frozen(k)
                        },
                        FreezeGuardMutation::SubFrozenCredit(key, credits) => {
                            &&& final(self).freeze_guard.frozen(key) == if old(self).freeze_guard.frozen(key) < credits {
                                0
                            } else {
                                (old(self).freeze_guard.frozen(key) - credits) as u128
                            }
                            &&& forall|k: PublicKey|
                                k != key ==> final(self).freeze_guard.frozen(k) == old(self).freeze_guard.frozen(k)
                        },
                    }
                },
            },
    {
        match mutation {
            EphemeralMutation::LivenessMutation(liveness_mutation) => self.liveness.mutate(
                liveness_mutation,
            ),
            EphemeralMutation::FreezeGuardMutation(freeze_guard_mutation) => self.freeze_guard.mutate(
                freeze_guard_mutation,
            ),
        }
    }
}

} // verus!
