//! The validators and their voting power.
use crate::bytes::{
    bytes_lt, lemma_bytes_lt_irreflexive, lemma_bytes_lt_total, lemma_bytes_lt_transitive, lt, same,
};
use vstd::prelude::*;

verus! {

/// Public keys in ascending order, each once, with their voting power.
pub open spec fn ascending(entries: Seq<(Seq<u8>, u64)>) -> bool {
    forall|i: int, j: int|
        0 <= i < j < entries.len() ==> bytes_lt(#[trigger] entries[i].0, #[trigger] entries[j].0)
}

/// `key` stands at position `i` of `entries`.
pub open spec fn key_at(entries: Seq<(Seq<u8>, u64)>, key: Seq<u8>, i: int) -> bool {
    0 <= i < entries.len() && entries[i].0 == key
}

/// The voting power of each key of `entries`.
pub open spec fn powers(entries: Seq<(Seq<u8>, u64)>) -> Map<Seq<u8>, u64> {
    Map::new(
        |key: Seq<u8>| exists|i: int| key_at(entries, key, i),
        |key: Seq<u8>| entries[choose|i: int| key_at(entries, key, i)].1,
    )
}

/// The entries of `map` in ascending order of their keys.
pub open spec fn entries_of(map: Map<Seq<u8>, u64>) -> Seq<(Seq<u8>, u64)> {
    choose|entries: Seq<(Seq<u8>, u64)>| ascending(entries) && powers(entries) == map
}

/// A key of ascending entries stands at one position only.
proof fn lemma_position_unique(entries: Seq<(Seq<u8>, u64)>, i: int, j: int)
    requires
        ascending(entries),
        0 <= i < entries.len(),
        0 <= j < entries.len(),
        entries[i].0 == entries[j].0,
    ensures
        i == j,
{
    lemma_bytes_lt_irreflexive(entries[i].0);
}

/// The power at a position is the power of its key.
proof fn lemma_power_at(entries: Seq<(Seq<u8>, u64)>, i: int)
    requires
        ascending(entries),
        0 <= i < entries.len(),
    ensures
        powers(entries).contains_key(entries[i].0),
        powers(entries)[entries[i].0] == entries[i].1,
{
    let key = entries[i].0;
    assert(key_at(entries, key, i));
    let j = choose|j: int| key_at(entries, key, j);
    lemma_position_unique(entries, i, j);
}

/// No key of ascending entries comes after the last.
proof fn lemma_last_key(entries: Seq<(Seq<u8>, u64)>, key: Seq<u8>)
    requires
        ascending(entries),
        entries.len() > 0,
        powers(entries).contains_key(key),
    ensures
        key == entries.last().0 || bytes_lt(key, entries.last().0),
{
    let i = choose|i: int| key_at(entries, key, i);
    assert(key_at(entries, key, i));
}

/// Leaving out the last entry removes its key.
proof fn lemma_powers_drop_last(entries: Seq<(Seq<u8>, u64)>)
    requires
        ascending(entries),
        entries.len() > 0,
    ensures
        ascending(entries.drop_last()),
        powers(entries.drop_last()) == powers(entries).remove(entries.last().0),
{
    let rest = entries.drop_last();
    let last = entries.last().0;
    assert forall|key: Seq<u8>| powers(rest).contains_key(key) <==> #[trigger] powers(
        entries,
    ).remove(last).contains_key(key) by {
        if powers(rest).contains_key(key) {
            let i = choose|i: int| key_at(rest, key, i);
            assert(key_at(entries, key, i));
            if key == last {
                lemma_position_unique(entries, i, entries.len() - 1);
            }
        }
        if powers(entries).remove(last).contains_key(key) {
            let i = choose|i: int| key_at(entries, key, i);
            assert(key_at(rest, key, i));
        }
    }
    assert forall|key: Seq<u8>| #[trigger] powers(rest).contains_key(key) implies powers(rest)[key]
        == powers(entries).remove(last)[key] by {
        let i = choose|i: int| key_at(rest, key, i);
        assert(key_at(rest, key, i));
        assert(powers(entries).remove(last).contains_key(key));
        lemma_power_at(rest, i);
        lemma_power_at(entries, i);
    }
    assert(powers(rest) =~= powers(entries).remove(last));
}

/// The powers of the keys determine the ascending entries.
pub proof fn law_entries_unique(s: Seq<(Seq<u8>, u64)>, t: Seq<(Seq<u8>, u64)>)
    requires
        ascending(s),
        ascending(t),
        powers(s) == powers(t),
    ensures
        s == t,
    decreases s.len(),
{
    if s.len() == 0 {
        if t.len() > 0 {
            lemma_power_at(t, 0);
        }
        assert(s =~= t);
    } else if t.len() == 0 {
        lemma_power_at(s, 0);
    } else {
        lemma_power_at(s, s.len() - 1);
        lemma_power_at(t, t.len() - 1);
        lemma_last_key(s, t.last().0);
        lemma_last_key(t, s.last().0);
        if s.last().0 != t.last().0 {
            lemma_bytes_lt_transitive(s.last().0, t.last().0, s.last().0);
            lemma_bytes_lt_irreflexive(s.last().0);
        }
        lemma_powers_drop_last(s);
        lemma_powers_drop_last(t);
        law_entries_unique(s.drop_last(), t.drop_last());
        assert(s =~= s.drop_last().push(s.last()));
        assert(t =~= t.drop_last().push(t.last()));
    }
}

/// Ascending entries are the entries of their powers.
pub proof fn lemma_entries_of(entries: Seq<(Seq<u8>, u64)>)
    requires
        ascending(entries),
    ensures
        entries_of(powers(entries)) == entries,
{
    law_entries_unique(entries_of(powers(entries)), entries);
}

/// The voting power of each validator, by public key.
#[derive(Debug)]
pub struct ValidatorSet {
    entries: Vec<(Vec<u8>, u64)>,
}

impl View for ValidatorSet {
    type V = Map<Seq<u8>, u64>;

    closed spec fn view(&self) -> Map<Seq<u8>, u64> {
        powers(self.listed())
    }
}

impl ValidatorSet {
    /// The entries as they are listed.
    spec fn listed(&self) -> Seq<(Seq<u8>, u64)> {
        Seq::new(self.entries@.len(), |i: int| (self.entries@[i].0@, self.entries@[i].1))
    }

    /// The entries stand in ascending order of their keys, each key once.
    pub closed spec fn wf(&self) -> bool {
        ascending(self.listed())
    }

    /// The listed entries are those of the view, in ascending order.
    proof fn lemma_listed(&self)
        requires
            self.wf(),
        ensures
            self.listed() == entries_of(self@),
            self@ == powers(self.listed()),
    {
        lemma_entries_of(self.listed());
    }

    /// The entries stand in ascending order of their keys, each key once, and
    /// give every key its voting power.
    pub proof fn lemma_ordered(&self)
        requires
            self.wf(),
        ensures
            ascending(entries_of(self@)),
            powers(entries_of(self@)) == self@,
    {
        self.lemma_listed();
    }

    /// The listing of a set: the keys ascend, every entry is a validator with its
    /// voting power, and every validator has an entry.
    pub proof fn law_listing(&self)
        requires
            self.wf(),
        ensures
            ({
                let entries = entries_of(self@);
                &&& forall|i: int, j: int|
                    0 <= i < j < entries.len() ==> bytes_lt(
                        #[trigger] entries[i].0,
                        #[trigger] entries[j].0,
                    )
                &&& forall|i: int|
                    0 <= i < entries.len() ==> self@.contains_key(#[trigger] entries[i].0)
                        && self@[entries[i].0] == entries[i].1
                &&& forall|key: Seq<u8>| #[trigger]
                    self@.contains_key(key) ==> exists|i: int|
                        0 <= i < entries.len() && #[trigger] entries[i].0 == key
            }),
    {
        self.lemma_ordered();
        let entries = entries_of(self@);
        assert forall|i: int| 0 <= i < entries.len() implies self@.contains_key(
            #[trigger] entries[i].0,
        ) && self@[entries[i].0] == entries[i].1 by {
            lemma_power_at(entries, i);
        }
        assert forall|key: Seq<u8>| #[trigger] self@.contains_key(key) implies exists|i: int|
            0 <= i < entries.len() && #[trigger] entries[i].0 == key by {
            let i = choose|i: int| key_at(entries, key, i);
            assert(key_at(entries, key, i));
            assert(entries[i].0 == key);
        }
    }

    /// A set without validators.
    pub fn new() -> (r: Self)
        ensures
            r.wf(),
            r@ == Map::<Seq<u8>, u64>::empty(),
    {
        let r = ValidatorSet { entries: Vec::new() };
        assert(r@ =~= Map::<Seq<u8>, u64>::empty());
        r
    }

    /// The number of validators.
    pub fn len(&self) -> (r: usize)
        requires
            self.wf(),
        ensures
            r == entries_of(self@).len(),
    {
        proof {
            self.lemma_listed();
        }
        self.entries.len()
    }

    /// The public key at position `i`, in ascending order.
    pub fn key(&self, i: usize) -> (r: &Vec<u8>)
        requires
            self.wf(),
            i < entries_of(self@).len(),
        ensures
            r@ == entries_of(self@)[i as int].0,
    {
        proof {
            self.lemma_listed();
        }
        &self.entries[i].0
    }

    /// The voting power of the validator at position `i`, in ascending order
    /// of the public keys.
    pub fn power(&self, i: usize) -> (r: u64)
        requires
            self.wf(),
            i < entries_of(self@).len(),
        ensures
            r == entries_of(self@)[i as int].1,
    {
        proof {
            self.lemma_listed();
        }
        self.entries[i].1
    }

    /// The first position whose key does not come before `key`.
    fn position(&self, key: &Vec<u8>) -> (r: usize)
        requires
            self.wf(),
        ensures
            r <= self.entries@.len(),
            forall|j: int| 0 <= j < r ==> bytes_lt(#[trigger] self.listed()[j].0, key@),
            r < self.entries@.len() ==> !bytes_lt(self.listed()[r as int].0, key@),
    {
        let mut i: usize = 0;
        while i < self.entries.len() && lt(&self.entries[i].0, key)
            invariant
                i <= self.entries@.len(),
                forall|j: int| 0 <= j < i ==> bytes_lt(#[trigger] self.listed()[j].0, key@),
            decreases self.entries@.len() - i,
        {
            i += 1;
        }
        i
    }

    /// The voting power of `key`, if it is a validator's.
    pub fn get(&self, key: &Vec<u8>) -> (r: Option<u64>)
        requires
            self.wf(),
        ensures
            r == (if self@.contains_key(key@) {
                Some(self@[key@])
            } else {
                None
            }),
    {
        let i = self.position(key);
        if i < self.entries.len() && same(self.entries[i].0.as_slice(), key.as_slice()) {
            proof {
                lemma_power_at(self.listed(), i as int);
            }
            return Some(self.entries[i].1);
        }
        proof {
            self.lemma_absent(key@, i as int);
        }
        None
    }

    /// A key that is not at its position is not in the set.
    proof fn lemma_absent(&self, key: Seq<u8>, i: int)
        requires
            self.wf(),
            0 <= i <= self.listed().len(),
            forall|j: int| 0 <= j < i ==> bytes_lt(#[trigger] self.listed()[j].0, key),
            i < self.listed().len() ==> !bytes_lt(self.listed()[i].0, key) && self.listed()[i].0
                != key,
        ensures
            !self@.contains_key(key),
            forall|j: int| i <= j < self.listed().len() ==> bytes_lt(key, #[trigger] self.listed()[j].0),
    {
        let s = self.listed();
        assert forall|j: int| i <= j < s.len() implies bytes_lt(key, #[trigger] s[j].0) by {
            lemma_bytes_lt_total(key, s[i].0);
            if j > i {
                lemma_bytes_lt_transitive(key, s[i].0, s[j].0);
            }
        }
        if self@.contains_key(key) {
            let j = choose|j: int| key_at(s, key, j);
            assert(key_at(s, key, j));
            lemma_bytes_lt_irreflexive(key);
        }
    }

    /// Gives `key` the voting power `power`, whatever it had before.
    pub fn insert(&mut self, key: Vec<u8>, power: u64)
        requires
            old(self).wf(),
        ensures
            final(self).wf(),
            final(self)@ == old(self)@.insert(key@, power),
    {
        let i = self.position(&key);
        let ghost s = self.listed();
        let ghost k = key@;
        if i < self.entries.len() && same(self.entries[i].0.as_slice(), key.as_slice()) {
            self.entries.set(i, (key, power));
            proof {
                let t = self.listed();
                assert(t =~= s.update(i as int, (k, power)));
                assert(ascending(t)) by {
                    assert forall|a: int, b: int| 0 <= a < b < t.len() implies bytes_lt(
                        #[trigger] t[a].0,
                        #[trigger] t[b].0,
                    ) by {
                        assert(s[a].0 == t[a].0 && s[b].0 == t[b].0);
                    }
                }
                assert forall|x: Seq<u8>| powers(t).contains_key(x) <==> #[trigger] powers(s).insert(
                    k,
                    power,
                ).contains_key(x) by {
                    if powers(t).contains_key(x) {
                        let j = choose|j: int| key_at(t, x, j);
                        assert(key_at(s, x, j));
                    }
                    if powers(s).contains_key(x) {
                        let j = choose|j: int| key_at(s, x, j);
                        assert(key_at(t, x, j));
                    }
                    assert(key_at(t, k, i as int));
                }
                assert forall|x: Seq<u8>| #[trigger] powers(t).contains_key(x) implies powers(t)[x]
                    == powers(s).insert(k, power)[x] by {
                    let j = choose|j: int| key_at(t, x, j);
                    assert(key_at(t, x, j));
                    lemma_power_at(t, j);
                    lemma_power_at(s, j);
                    if x == k {
                        lemma_position_unique(t, i as int, j);
                    }
                }
                assert(powers(t) =~= powers(s).insert(k, power));
            }
        } else {
            proof {
                self.lemma_absent(k, i as int);
            }
            self.entries.insert(i, (key, power));
            proof {
                let t = self.listed();
                let n = i as int;
                assert(t =~= s.insert(n, (k, power)));
                assert(ascending(t)) by {
                    assert forall|a: int, b: int| 0 <= a < b < t.len() implies bytes_lt(
                        #[trigger] t[a].0,
                        #[trigger] t[b].0,
                    ) by {
                        if a < n && b > n {
                            assert(t[a] == s[a] && t[b] == s[b - 1]);
                        } else if b < n {
                            assert(t[a] == s[a] && t[b] == s[b]);
                        } else if b == n {
                            assert(t[a] == s[a]);
                        } else if a == n {
                            assert(t[b] == s[b - 1]);
                        } else {
                            assert(t[a] == s[a - 1] && t[b] == s[b - 1]);
                        }
                    }
                }
                assert forall|x: Seq<u8>| powers(t).contains_key(x) <==> #[trigger] powers(s).insert(
                    k,
                    power,
                ).contains_key(x) by {
                    if powers(t).contains_key(x) {
                        let j = choose|j: int| key_at(t, x, j);
                        if j < n {
                            assert(key_at(s, x, j));
                        } else if j > n {
                            assert(key_at(s, x, j - 1));
                        }
                    }
                    if powers(s).contains_key(x) {
                        let j = choose|j: int| key_at(s, x, j);
                        if j < n {
                            assert(key_at(t, x, j));
                        } else {
                            assert(key_at(t, x, j + 1));
                        }
                    }
                    assert(key_at(t, k, n));
                }
                assert forall|x: Seq<u8>| #[trigger] powers(t).contains_key(x) implies powers(t)[x]
                    == powers(s).insert(k, power)[x] by {
                    let j = choose|j: int| key_at(t, x, j);
                    assert(key_at(t, x, j));
                    lemma_power_at(t, j);
                    if j < n {
                        lemma_power_at(s, j);
                    } else if j > n {
                        lemma_power_at(s, j - 1);
                    }
                    if x == k {
                        lemma_power_at(t, n);
                        lemma_position_unique(t, n, j);
                    }
                }
                assert(powers(t) =~= powers(s).insert(k, power));
            }
        }
    }
}

} // verus!
