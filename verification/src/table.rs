//! Tables with text keys, kept in the order of their keys.

use vstd::prelude::*;

use crate::text;

verus! {

/// Whether texts stand in strictly increasing order, so that none occurs twice.
pub open spec fn ascending(keys: Seq<Seq<char>>) -> bool {
    forall|i: int, j: int| 0 <= i < j < keys.len() ==> #[trigger] text::text_less(keys[i], keys[j])
}

/// The members of `keys` in increasing order.
pub open spec fn in_order(keys: Set<Seq<char>>) -> Seq<Seq<char>> {
    choose|s: Seq<Seq<char>>| ascending(s) && s.to_set() == keys
}

/// Two increasing sequences with the same members are the same sequence.
pub proof fn ascending_is_unique(a: Seq<Seq<char>>, b: Seq<Seq<char>>)
    requires
        ascending(a),
        ascending(b),
        a.to_set() == b.to_set(),
    ensures
        a == b,
    decreases a.len(),
{
    if a.len() == 0 {
        if b.len() > 0 {
            assert(b.to_set().contains(b[0]));
            assert(a.contains(b[0]));
        }
        assert(a =~= b);
    } else {
        assert(a.to_set().contains(a.last()));
        assert(b.contains(a.last()));
        assert(b.to_set().contains(b.last()));
        assert(a.contains(b.last()));
        let i = b.index_of(a.last());
        let j = a.index_of(b.last());
        if a.last() != b.last() {
            assert(text::text_less(b[i], b[b.len() - 1]));
            assert(text::text_less(a[j], a[a.len() - 1]));
            text::text_less_transitive(a.last(), b.last(), a.last());
            text::text_less_irreflexive(a.last());
        }
        let x = a.drop_last();
        let y = b.drop_last();
        assert forall|k: Seq<char>| x.contains(k) implies y.contains(k) by {
            let p = x.index_of(k);
            assert(a[p] == k);
            assert(a.to_set().contains(k));
            assert(b.contains(k));
            let q = b.index_of(k);
            if q == b.len() - 1 {
                assert(text::text_less(a[p], a[a.len() - 1]));
                text::text_less_irreflexive(k);
            }
            assert(y[q] == k);
        }
        assert forall|k: Seq<char>| y.contains(k) implies x.contains(k) by {
            let p = y.index_of(k);
            assert(b[p] == k);
            assert(b.to_set().contains(k));
            assert(a.contains(k));
            let q = a.index_of(k);
            if q == a.len() - 1 {
                assert(text::text_less(b[p], b[b.len() - 1]));
                text::text_less_irreflexive(k);
            }
            assert(x[q] == k);
        }
        assert(x.to_set() =~= y.to_set());
        ascending_is_unique(x, y);
        assert(a =~= x.push(a.last()));
        assert(b =~= y.push(b.last()));
    }
}

/// An increasing sequence is its members in increasing order.
pub proof fn ascending_is_in_order(keys: Seq<Seq<char>>)
    requires
        ascending(keys),
    ensures
        in_order(keys.to_set()) == keys,
{
    let s = in_order(keys.to_set());
    assert(ascending(s) && s.to_set() == keys.to_set());
    ascending_is_unique(s, keys);
}

/// The members of a finite set can be put in increasing order.
pub proof fn in_order_holds(keys: Set<Seq<char>>)
    requires
        keys.finite(),
    ensures
        ascending(in_order(keys)),
        in_order(keys).to_set() == keys,
        in_order(keys).no_duplicates(),
    decreases keys.len(),
{
    if keys.is_empty() {
        let none = Seq::<Seq<char>>::empty();
        assert(none.to_set() =~= keys);
        ascending_is_in_order(none);
    } else {
        let key = keys.choose();
        let rest = keys.remove(key);
        in_order_holds(rest);
        let sorted = in_order(rest);
        let at = position_for(sorted, key, 0);
        let longer = sorted.insert(at, key);
        assert(!sorted.to_set().contains(key));
        assert forall|i: int, j: int| 0 <= i < j < longer.len() implies #[trigger] text::text_less(
            longer[i],
            longer[j],
        ) by {
            if i < at && j < at {
                assert(text::text_less(sorted[i], sorted[j]));
            } else if i < at && j > at {
                assert(text::text_less(sorted[i], sorted[j - 1]));
            } else if i == at {
                assert(sorted.to_set().contains(sorted[j - 1]));
                text::text_less_total(sorted[j - 1], key);
            } else if i > at {
                assert(text::text_less(sorted[i - 1], sorted[j - 1]));
            }
        }
        assert forall|k: Seq<char>| longer.to_set().contains(k) == keys.contains(k) by {
            if keys.contains(k) {
                if k == key {
                    assert(longer[at] == k);
                } else {
                    assert(sorted.to_set().contains(k));
                    let p = sorted.index_of(k);
                    if p < at {
                        assert(longer[p] == k);
                    } else {
                        assert(longer[p + 1] == k);
                    }
                }
            }
            if longer.to_set().contains(k) {
                let p = longer.index_of(k);
                if p < at {
                    assert(sorted[p] == k);
                    assert(sorted.to_set().contains(k));
                } else if p > at {
                    assert(sorted[p - 1] == k);
                    assert(sorted.to_set().contains(k));
                }
            }
        }
        assert(longer.to_set() =~= keys);
        ascending_is_in_order(longer);
    }
    let ordered = in_order(keys);
    assert forall|i: int, j: int| 0 <= i < j < ordered.len() implies ordered[i] != ordered[j] by {
        assert(text::text_less(ordered[i], ordered[j]));
        text::text_less_irreflexive(ordered[i]);
    }
}

/// Whether a position is the one at which a text goes into an increasing sequence.
spec fn place(keys: Seq<Seq<char>>, key: Seq<char>, at: int) -> bool {
    &&& 0 <= at <= keys.len()
    &&& forall|i: int| 0 <= i < at ==> text::text_less(#[trigger] keys[i], key)
    &&& forall|i: int| at <= i < keys.len() ==> !text::text_less(#[trigger] keys[i], key)
}

/// There is such a position, found from a given one on.
proof fn position_for(keys: Seq<Seq<char>>, key: Seq<char>, from: int) -> (at: int)
    requires
        ascending(keys),
        0 <= from <= keys.len(),
        forall|i: int| 0 <= i < from ==> text::text_less(#[trigger] keys[i], key),
    ensures
        place(keys, key, at),
    decreases keys.len() - from,
{
    if from == keys.len() {
        from
    } else if text::text_less(keys[from], key) {
        position_for(keys, key, from + 1)
    } else {
        assert forall|i: int| from <= i < keys.len() implies !text::text_less(
            #[trigger] keys[i],
            key,
        ) by {
            if i > from && text::text_less(keys[i], key) {
                assert(text::text_less(keys[from], keys[i]));
                text::text_less_transitive(keys[from], keys[i], key);
            }
        }
        from
    }
}

/// Values found by text keys; no key occurs twice.
pub struct Table<V> {
    entries: Vec<(String, V)>,
}

impl<V> Table<V> {
    /// The keys, in the order in which the table holds them.
    pub closed spec fn keys(self) -> Seq<Seq<char>> {
        Seq::new(self.entries@.len(), |i: int| self.entries@[i].0@)
    }

    /// The values, each at the position of its key.
    pub closed spec fn values(self) -> Seq<V> {
        Seq::new(self.entries@.len(), |i: int| self.entries@[i].1)
    }

    /// The keys stand in increasing order.
    pub open spec fn wf(self) -> bool {
        ascending(self.keys()) && self.keys().len() == self.values().len()
    }

    /// What each key leads to.
    pub open spec fn view(&self) -> Map<Seq<char>, V> {
        Map::new(
            |k: Seq<char>| self.keys().contains(k),
            |k: Seq<char>| self.values()[self.keys().index_of(k)],
        )
    }

    /// In a well-formed table each key stands at one position, and the keys in order are those of
    /// the map.
    pub proof fn positions(self)
        requires
            self.wf(),
        ensures
            self.keys().no_duplicates(),
            self@.dom() == self.keys().to_set(),
            self.keys() == in_order(self@.dom()),
            self.values().len() == self.keys().len(),
            forall|i: int|
                0 <= i < self.keys().len() ==> {
                    &&& self@.contains_key(#[trigger] self.keys()[i])
                    &&& self@[self.keys()[i]] == self.values()[i]
                },
    {
        assert forall|i: int, j: int|
            0 <= i < self.keys().len() && 0 <= j < self.keys().len() && i
                != j implies self.keys()[i] != self.keys()[j] by {
            if i < j {
                assert(text::text_less(self.keys()[i], self.keys()[j]));
            } else {
                assert(text::text_less(self.keys()[j], self.keys()[i]));
            }
            text::text_less_irreflexive(self.keys()[i]);
        }
        assert(self@.dom() =~= self.keys().to_set());
        ascending_is_in_order(self.keys());
        assert forall|i: int| 0 <= i < self.keys().len() implies {
            &&& self@.contains_key(#[trigger] self.keys()[i])
            &&& self@[self.keys()[i]] == self.values()[i]
        } by {
            assert(self.keys().contains(self.keys()[i]));
            assert(self.keys().index_of(self.keys()[i]) == i);
        }
    }

    /// A table without entries.
    pub fn new() -> (table: Table<V>)
        ensures
            table.wf(),
            table@ == Map::<Seq<char>, V>::empty(),
            table.keys() == Seq::<Seq<char>>::empty(),
    {
        let table = Table { entries: Vec::new() };
        proof {
            assert(table@ =~= Map::<Seq<char>, V>::empty());
            assert(table.keys() =~= Seq::<Seq<char>>::empty());
        }
        table
    }

    /// The first position whose key is not less than `key`.
    fn seek(&self, key: &str) -> (at: usize)
        requires
            self.wf(),
        ensures
            at <= self.keys().len(),
            forall|i: int| 0 <= i < at ==> text::text_less(#[trigger] self.keys()[i], key@),
            at < self.keys().len() ==> !text::text_less(self.keys()[at as int], key@),
    {
        let mut low: usize = 0;
        let mut high: usize = self.entries.len();
        while low < high
            invariant
                self.wf(),
                low <= high <= self.entries@.len(),
                forall|i: int| 0 <= i < low ==> text::text_less(#[trigger] self.keys()[i], key@),
                forall|i: int|
                    high <= i < self.keys().len() ==> !text::text_less(
                        #[trigger] self.keys()[i],
                        key@,
                    ),
            decreases high - low,
        {
            let middle: usize = low + (high - low) / 2;
            if text::is_less(self.entries[middle].0.as_str(), key) {
                proof {
                    assert forall|i: int| 0 <= i < middle implies text::text_less(
                        #[trigger] self.keys()[i],
                        key@,
                    ) by {
                        assert(text::text_less(self.keys()[i], self.keys()[middle as int]));
                        text::text_less_transitive(self.keys()[i], self.keys()[middle as int], key@);
                    }
                }
                low = middle + 1;
            } else {
                proof {
                    assert forall|i: int| middle <= i < self.keys().len() implies !text::text_less(
                        #[trigger] self.keys()[i],
                        key@,
                    ) by {
                        if i > middle && text::text_less(self.keys()[i], key@) {
                            assert(text::text_less(self.keys()[middle as int], self.keys()[i]));
                            text::text_less_transitive(
                                self.keys()[middle as int],
                                self.keys()[i],
                                key@,
                            );
                        }
                    }
                }
                high = middle;
            }
        }
        low
    }

    /// Where `key` stands, if it does.
    fn find(&self, key: &str) -> (at: Option<usize>)
        requires
            self.wf(),
        ensures
            at is Some == self@.contains_key(key@),
            at matches Some(i) ==> i < self.keys().len() && self.keys()[i as int] == key@
                && self@[key@] == self.values()[i as int],
    {
        let at = self.seek(key);
        proof {
            self.positions();
            if self.keys().contains(key@) {
                let i = self.keys().index_of(key@);
                text::text_less_irreflexive(key@);
                assert(self.keys()[i] == key@);
                if at < i {
                    assert(text::text_less(self.keys()[at as int], self.keys()[i]));
                }
            }
        }
        if at < self.entries.len() && text::same_text(self.entries[at].0.as_str(), key) {
            proof {
                assert(self.keys()[at as int] == key@);
            }
            Some(at)
        } else {
            None
        }
    }

    /// Whether the table has an entry for `key`.
    pub fn contains(&self, key: &str) -> (found: bool)
        requires
            self.wf(),
        ensures
            found == self@.contains_key(key@),
    {
        self.find(key).is_some()
    }

    /// The value of `key`.
    pub fn get(&self, key: &str) -> (value: Option<&V>)
        requires
            self.wf(),
        ensures
            value is Some == self@.contains_key(key@),
            value matches Some(v) ==> *v == self@[key@],
    {
        match self.find(key) {
            Some(at) => Some(&self.entries[at].1),
            None => None,
        }
    }

    /// How many entries the table has.
    pub fn len(&self) -> (len: usize)
        requires
            self.wf(),
        ensures
            len == self.keys().len(),
    {
        self.entries.len()
    }

    /// The key at a position.
    pub fn key_at(&self, at: usize) -> (key: &String)
        requires
            self.wf(),
            at < self.keys().len(),
        ensures
            key@ == self.keys()[at as int],
    {
        &self.entries[at].0
    }

    /// The value at a position.
    pub fn value_at(&self, at: usize) -> (value: &V)
        requires
            self.wf(),
            at < self.keys().len(),
        ensures
            *value == self.values()[at as int],
            self@.contains_key(self.keys()[at as int]),
            *value == self@[self.keys()[at as int]],
    {
        proof {
            self.positions();
        }
        &self.entries[at].1
    }

    /// Sets the value of `key`.
    pub fn insert(&mut self, key: String, value: V)
        requires
            old(self).wf(),
        ensures
            final(self).wf(),
            final(self)@ == old(self)@.insert(key@, value),
    {
        let ghost before = *self;
        let at = self.seek(key.as_str());
        let ghost name = key@;
        proof {
            before.positions();
        }
        if at < self.entries.len() && text::same_text(self.entries[at].0.as_str(), key.as_str()) {
            self.entries.set(at, (key, value));
            proof {
                assert(self.keys() =~= before.keys());
                self.positions();
                assert(self.keys()[at as int] == name);
                assert forall|k: Seq<char>| self@.contains_key(k) && k != name implies self@[k]
                    == before@[k] by {
                    let i = self.keys().index_of(k);
                    assert(self.keys()[i] == k);
                    assert(self.values()[i] == before.values()[i]);
                }
                assert(self@[self.keys()[at as int]] == self.values()[at as int]);
                assert(self@ =~= before@.insert(name, value));
            }
        } else {
            self.entries.insert(at, (key, value));
            proof {
                let old_keys = before.keys();
                assert(self.keys() =~= old_keys.insert(at as int, name));
                assert(self.values() =~= before.values().insert(at as int, value));
                if at < old_keys.len() {
                    text::text_less_total(old_keys[at as int], name);
                }
                assert forall|i: int, j: int|
                    0 <= i < j < self.keys().len() implies #[trigger] text::text_less(
                    self.keys()[i],
                    self.keys()[j],
                ) by {
                    let n = at as int;
                    if i < n && j < n {
                        assert(text::text_less(old_keys[i], old_keys[j]));
                    } else if i < n && j == n {
                        assert(text::text_less(old_keys[i], name));
                    } else if i < n {
                        assert(text::text_less(old_keys[i], old_keys[j - 1]));
                    } else if i == n {
                        if j - 1 > n {
                            assert(text::text_less(old_keys[n], old_keys[j - 1]));
                            text::text_less_transitive(name, old_keys[n], old_keys[j - 1]);
                        }
                    } else {
                        assert(text::text_less(old_keys[i - 1], old_keys[j - 1]));
                    }
                }
                self.positions();
                assert(self.keys()[at as int] == name);
                assert forall|k: Seq<char>| self@.contains_key(k) implies before@.insert(
                    name,
                    value,
                ).contains_key(k) && self@[k] == before@.insert(name, value)[k] by {
                    let i = self.keys().index_of(k);
                    assert(self.keys()[i] == k);
                    if i < at {
                        assert(old_keys[i] == k);
                        assert(before@.contains_key(old_keys[i]));
                    } else if i > at {
                        assert(old_keys[i - 1] == k);
                        assert(before@.contains_key(old_keys[i - 1]));
                    }
                }
                assert forall|k: Seq<char>| before@.contains_key(k) implies self@.contains_key(
                    k,
                ) by {
                    let i = old_keys.index_of(k);
                    if i < at {
                        assert(self.keys()[i] == k);
                    } else {
                        assert(self.keys()[i + 1] == k);
                    }
                }
                assert(self@ =~= before@.insert(name, value));
            }
        }
    }

    /// Takes out the entry of `key`.
    pub fn remove(&mut self, key: &str) -> (value: Option<V>)
        requires
            old(self).wf(),
        ensures
            final(self).wf(),
            final(self)@ == old(self)@.remove(key@),
            value is Some == old(self)@.contains_key(key@),
            value matches Some(v) ==> v == old(self)@[key@],
    {
        let ghost before = *self;
        proof {
            before.positions();
        }
        match self.find(key) {
            Some(at) => {
                let (_name, value) = self.entries.remove(at);
                proof {
                    let old_keys = before.keys();
                    assert(self.keys() =~= old_keys.remove(at as int));
                    assert(self.values() =~= before.values().remove(at as int));
                    assert forall|i: int, j: int|
                        0 <= i < j < self.keys().len() implies #[trigger] text::text_less(
                        self.keys()[i],
                        self.keys()[j],
                    ) by {
                        let p = if i < at { i } else { i + 1 };
                        let q = if j < at { j } else { j + 1 };
                        assert(text::text_less(old_keys[p], old_keys[q]));
                    }
                    self.positions();
                    assert forall|k: Seq<char>| self@.contains_key(k) implies before@.remove(
                        key@,
                    ).contains_key(k) && self@[k] == before@[k] by {
                        let i = self.keys().index_of(k);
                        assert(self.keys()[i] == k);
                        let p = if i < at { i } else { i + 1 };
                        assert(old_keys[p] == k);
                        assert(before@.contains_key(old_keys[p]));
                        assert(p != at);
                    }
                    assert forall|k: Seq<char>|
                        before@.contains_key(k) && k != key@ implies self@.contains_key(k) by {
                        let p = old_keys.index_of(k);
                        assert(old_keys[p] == k);
                        if p < at {
                            assert(self.keys()[p] == k);
                        } else {
                            assert(self.keys()[p - 1] == k);
                        }
                    }
                    assert(self@ =~= before@.remove(key@));
                }
                Some(value)
            },
            None => {
                proof {
                    assert(self@ =~= before@.remove(key@));
                }
                None
            },
        }
    }
}

}
