//! A map keyed by currency, kept in the order of the currencies so that
//! every node walks it the same way.

use crate::types::{bytes_lt, Currency, lemma_bytes_lt_trans};
use vstd::prelude::*;

verus! {

/// Whether the currencies stand in strictly rising order.
pub open spec fn strictly_rising(keys: Seq<Currency>) -> bool {
    forall|i: int, j: int|
        0 <= i < j < keys.len() ==> bytes_lt(#[trigger] keys[i].key(), #[trigger] keys[j].key())
}

/// Where a currency goes in a rising list: behind the currencies that are
/// ordered before it.
pub open spec fn insert_position(keys: Seq<Currency>, currency: Currency) -> int
    decreases keys.len(),
{
    if keys.len() == 0 || !bytes_lt(keys[0].key(), currency.key()) {
        0
    } else {
        1 + insert_position(keys.drop_first(), currency)
    }
}

/// Where a currency stands in a list, if it stands there.
pub open spec fn position_of(keys: Seq<Currency>, currency: Currency) -> Option<int> {
    if keys.contains(currency) {
        Some(keys.index_of(currency))
    } else {
        None
    }
}

/// The list with a currency put in its place.
pub open spec fn insert_sorted(keys: Seq<Currency>, currency: Currency) -> Seq<Currency> {
    keys.insert(insert_position(keys, currency), currency)
}

/// The list with a currency taken out if it stood there, put in if not.
pub open spec fn toggle(keys: Seq<Currency>, currency: Currency) -> Seq<Currency> {
    if keys.contains(currency) {
        keys.remove(keys.index_of(currency))
    } else {
        insert_sorted(keys, currency)
    }
}

/// The place of a currency is inside the list or at its end.
pub proof fn lemma_insert_position_bounds(keys: Seq<Currency>, currency: Currency)
    ensures
        0 <= insert_position(keys, currency) <= keys.len(),
    decreases keys.len(),
{
    if keys.len() > 0 && bytes_lt(keys[0].key(), currency.key()) {
        lemma_insert_position_bounds(keys.drop_first(), currency);
    }
}

/// A map from currencies to values.
#[derive(Clone, Debug, PartialEq, Eq)]
pub struct CurrencyMap<V> {
    keys: Vec<Currency>,
    values: Vec<V>,
}

impl<V> CurrencyMap<V> {
    /// The currencies that have a value, in rising order.
    pub closed spec fn keys(&self) -> Seq<Currency> {
        self.keys@
    }

    /// The values, each at the index of its currency.
    pub closed spec fn values(&self) -> Seq<V> {
        self.values@
    }

    /// Every currency has one value, and the currencies rise strictly, so none
    /// occurs twice.
    pub open spec fn wf(&self) -> bool {
        &&& self.keys().len() == self.values().len()
        &&& forall|i: int| 0 <= i < self.keys().len() ==> (#[trigger] self.keys()[i]).wf()
        &&& strictly_rising(self.keys())
    }

    /// Whether the currency has a value.
    pub open spec fn contains(&self, currency: Currency) -> bool {
        self.keys().contains(currency)
    }

    /// The index of a currency that has a value.
    pub open spec fn index_of(&self, currency: Currency) -> int {
        self.keys().index_of(currency)
    }

    /// The value of a currency that has one.
    pub open spec fn value_of(&self, currency: Currency) -> V
        recommends
            self.contains(currency),
    {
        self.values()[self.index_of(currency)]
    }

    /// The value of a currency, or `default` if it has none.
    pub open spec fn value_or(&self, currency: Currency, default: V) -> V {
        if self.contains(currency) {
            self.value_of(currency)
        } else {
            default
        }
    }

    /// In a well-formed map a currency stands at one index only.
    pub proof fn lemma_unique(&self, i: int, j: int)
        requires
            self.wf(),
            0 <= i < self.keys().len(),
            0 <= j < self.keys().len(),
            self.keys()[i] == self.keys()[j],
        ensures
            i == j,
    {
        if i != j {
            Currency::lemma_order_total(self.keys()[i], self.keys()[j]);
        }
    }

    /// The currency at an index has that index, and the value there.
    pub proof fn lemma_index_of(&self, i: int)
        requires
            self.wf(),
            0 <= i < self.keys().len(),
        ensures
            self.contains(self.keys()[i]),
            self.index_of(self.keys()[i]) == i,
            self.value_of(self.keys()[i]) == self.values()[i],
    {
        let c = self.keys()[i];
        assert(self.keys().contains(c));
        let j = self.keys().index_of(c);
        self.lemma_unique(i, j);
    }

    /// The empty map.
    pub fn new() -> (m: Self)
        ensures
            m.wf(),
            m.keys() == Seq::<Currency>::empty(),
            m.values() == Seq::<V>::empty(),
    {
        CurrencyMap { keys: Vec::new(), values: Vec::new() }
    }

    /// A map with the currencies of another map, and the values handed in,
    /// each for the currency at its index.
    pub fn with_keys_of<U>(other: &CurrencyMap<U>, values: Vec<V>) -> (m: Self)
        requires
            other.wf(),
            values@.len() == other.keys().len(),
        ensures
            m.wf(),
            m.keys() == other.keys(),
            m.values() == values@,
    {
        let mut keys: Vec<Currency> = Vec::new();
        let mut i: usize = 0;
        while i < other.keys.len()
            invariant
                0 <= i <= other.keys@.len(),
                keys@ == other.keys@.take(i as int),
            decreases other.keys@.len() - i,
        {
            keys.push(other.keys[i]);
            assert(other.keys@.take(i + 1) =~= other.keys@.take(i as int).push(
                other.keys@[i as int],
            ));
            i += 1;
        }
        assert(other.keys@.take(i as int) =~= other.keys@);
        CurrencyMap { keys, values }
    }

    /// How many currencies have a value.
    pub fn len(&self) -> (n: usize)
        requires
            self.wf(),
        ensures
            n == self.keys().len(),
            n == self.values().len(),
    {
        self.keys.len()
    }

    /// The currency at an index.
    pub fn key_at(&self, i: usize) -> (c: Currency)
        requires
            self.wf(),
            i < self.keys().len(),
        ensures
            c == self.keys()[i as int],
    {
        self.keys[i]
    }

    /// The value at an index.
    pub fn value_at(&self, i: usize) -> (v: &V)
        requires
            self.wf(),
            i < self.keys().len(),
        ensures
            *v == self.values()[i as int],
    {
        &self.values[i]
    }

    /// The value at an index, to change in place.
    pub fn value_at_mut(&mut self, i: usize) -> (v: &mut V)
        requires
            old(self).wf(),
            i < old(self).keys().len(),
        ensures
            *v == old(self).values()[i as int],
            final(self).keys() == old(self).keys(),
            final(self).values() == old(self).values().update(i as int, *final(v)),
            final(self).wf(),
    {
        &mut self.values[i]
    }

    /// Where a currency stands, if it has a value.
    pub fn position(&self, currency: &Currency) -> (r: Option<usize>)
        requires
            self.wf(),
        ensures
            r.is_some() == self.contains(*currency),
            r.is_some() ==> r.unwrap() < self.keys().len() && self.keys()[r.unwrap() as int]
                == *currency && self.index_of(*currency) == r.unwrap(),
    {
        let mut i: usize = 0;
        while i < self.keys.len()
            invariant
                0 <= i <= self.keys@.len(),
                self.wf(),
                forall|j: int| 0 <= j < i ==> self.keys@[j] != *currency,
            decreases self.keys@.len() - i,
        {
            if self.keys[i].same(currency) {
                proof {
                    self.lemma_index_of(i as int);
                }
                return Some(i);
            }
            i += 1;
        }
        None
    }

    /// Whether the currency has a value.
    pub fn has(&self, currency: &Currency) -> (r: bool)
        requires
            self.wf(),
        ensures
            r == self.contains(*currency),
    {
        self.position(currency).is_some()
    }

    /// Gives a value to a currency that has none. Returns the index at which
    /// the currency now stands.
    pub fn insert(&mut self, currency: Currency, value: V) -> (pos: usize)
        requires
            old(self).wf(),
            !old(self).contains(currency),
        ensures
            final(self).wf(),
            pos <= old(self).keys().len(),
            pos == insert_position(old(self).keys(), currency),
            final(self).keys() == old(self).keys().insert(pos as int, currency),
            final(self).values() == old(self).values().insert(pos as int, value),
            forall|c: Currency|
                final(self).contains(c) == (c == currency || old(self).contains(c)),
    {
        proof {
            use_type_invariant(&currency);
            assert(self.keys@.skip(0) =~= self.keys@);
        }
        let mut pos: usize = 0;
        while pos < self.keys.len() && self.keys[pos].before(&currency)
            invariant
                0 <= pos <= self.keys@.len(),
                self.wf(),
                forall|j: int| 0 <= j < pos ==> bytes_lt(self.keys@[j].key(), currency.key()),
                insert_position(self.keys@, currency) == pos + insert_position(
                    self.keys@.skip(pos as int),
                    currency,
                ),
            decreases self.keys@.len() - pos,
        {
            assert(self.keys@.skip(pos as int).drop_first() =~= self.keys@.skip(pos + 1));
            pos += 1;
        }
        proof {
            let keys = self.keys@;
            let new_keys = keys.insert(pos as int, currency);
            assert forall|i: int, j: int| 0 <= i < j < new_keys.len() implies bytes_lt(
                #[trigger] new_keys[i].key(),
                #[trigger] new_keys[j].key(),
            ) by {
                if j == pos {
                } else if i == pos {
                    // keys[pos] is not below the new currency, and differs from it
                    let k = keys[pos as int];
                    assert(keys.contains(k));
                    assert(k.wf());
                    Currency::lemma_order_total(k, currency);
                    if j - 1 > pos {
                        assert(bytes_lt(keys[pos as int].key(), keys[j - 1].key()));
                        lemma_bytes_lt_trans(currency.key(), k.key(), keys[j - 1].key());
                    }
                } else if i < pos && j < pos {
                    assert(bytes_lt(keys[i].key(), keys[j].key()));
                } else if i < pos {
                    assert(bytes_lt(keys[i].key(), keys[j - 1].key()));
                } else {
                    assert(bytes_lt(keys[i - 1].key(), keys[j - 1].key()));
                }
            }
            assert forall|i: int| 0 <= i < new_keys.len() implies (#[trigger] new_keys[i]).wf() by {
                if i < pos {
                    assert(keys[i].wf());
                } else if i > pos {
                    assert(keys[i - 1].wf());
                }
            }
            assert forall|c: Currency|
                new_keys.contains(c) == (c == currency || keys.contains(c)) by {
                if new_keys.contains(c) {
                    let i = new_keys.index_of(c);
                    if i < pos {
                        assert(keys[i] == c);
                    } else if i > pos {
                        assert(keys[i - 1] == c);
                    }
                }
                if c == currency {
                    assert(new_keys[pos as int] == c);
                }
                if keys.contains(c) {
                    let i = keys.index_of(c);
                    if i < pos {
                        assert(new_keys[i] == c);
                    } else {
                        assert(new_keys[i + 1] == c);
                    }
                }
            }
        }
        self.keys.insert(pos, currency);
        self.values.insert(pos, value);
        pos
    }

    /// Takes out the currency at an index, with its value.
    pub fn remove_at(&mut self, i: usize) -> (r: (Currency, V))
        requires
            old(self).wf(),
            i < old(self).keys().len(),
        ensures
            final(self).wf(),
            r.0 == old(self).keys()[i as int],
            r.1 == old(self).values()[i as int],
            final(self).keys() == old(self).keys().remove(i as int),
            final(self).values() == old(self).values().remove(i as int),
            forall|c: Currency| final(self).contains(c) == (c != r.0 && old(self).contains(c)),
    {
        proof {
            let keys = self.keys@;
            let new_keys = keys.remove(i as int);
            assert forall|a: int, b: int| 0 <= a < b < new_keys.len() implies bytes_lt(
                #[trigger] new_keys[a].key(),
                #[trigger] new_keys[b].key(),
            ) by {
                let a0 = if a < i { a } else { a + 1 };
                let b0 = if b < i { b } else { b + 1 };
                assert(bytes_lt(keys[a0].key(), keys[b0].key()));
            }
            assert forall|a: int| 0 <= a < new_keys.len() implies (#[trigger] new_keys[a]).wf() by {
                let a0 = if a < i { a } else { a + 1 };
                assert(keys[a0].wf());
            }
            assert forall|c: Currency|
                new_keys.contains(c) == (c != keys[i as int] && keys.contains(c)) by {
                if new_keys.contains(c) {
                    let a = new_keys.index_of(c);
                    let a0 = if a < i { a } else { a + 1 };
                    assert(keys[a0] == c);
                    if c == keys[i as int] {
                        self.lemma_unique(a0, i as int);
                    }
                }
                if c != keys[i as int] && keys.contains(c) {
                    let a0 = keys.index_of(c);
                    let a = if a0 < i { a0 } else { a0 - 1 };
                    assert(new_keys[a] == c);
                }
            }
        }
        let k = self.keys.remove(i);
        let v = self.values.remove(i);
        (k, v)
    }

    /// The value of a currency, or `default` if it has none.
    pub fn get_or(&self, currency: &Currency, default: V) -> (v: V) where V: Copy
        requires
            self.wf(),
        ensures
            v == self.value_or(*currency, default),
    {
        match self.position(currency) {
            Some(i) => self.values[i],
            None => default,
        }
    }

    /// Gives a currency a value, in place of the one it had if it had one.
    pub fn set(&mut self, currency: Currency, value: V)
        requires
            old(self).wf(),
        ensures
            final(self).wf(),
            final(self).contains(currency),
            final(self).value_of(currency) == value,
            forall|c: Currency|
                final(self).contains(c) == (c == currency || old(self).contains(c)),
            forall|c: Currency|
                c != currency && old(self).contains(c) ==> final(self).value_of(c) == old(self).value_of(c),
    {
        match self.position(&currency) {
            Some(i) => {
                self.values[i] = value;
                proof {
                    assert forall|c: Currency|
                        c != currency && old(self).contains(c) implies self.value_of(c) == old(self).value_of(c) by {
                        let j = self.keys().index_of(c);
                        assert(j != i);
                    }
                }
            },
            None => {
                let pos = self.insert(currency, value);
                proof {
                    let old_keys = old(self).keys();
                    assert(self.keys()[pos as int] == currency);
                    self.lemma_index_of(pos as int);
                    assert forall|c: Currency|
                        c != currency && old(self).contains(c) implies self.value_of(c) == old(self).value_of(c) by {
                        let j = old_keys.index_of(c);
                        old(self).lemma_index_of(j);
                        let j2 = if j < pos { j } else { j + 1 };
                        assert(self.keys()[j2] == c);
                        self.lemma_index_of(j2);
                    }
                }
            },
        }
    }
}

} // verus!
