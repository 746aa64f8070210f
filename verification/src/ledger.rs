//! Balances or prices kept per resource: a list of (resource id, amount)
//! entries with distinct ids, seen as a map from id to amount.
use vstd::prelude::*;
use crate::decimal::{Decimal, in_range};

verus! {

/// No two entries share an id.
pub open spec fn keys_distinct(s: Seq<(u64, Decimal)>) -> bool {
    forall|i: int, j: int| 0 <= i < s.len() && 0 <= j < s.len() && i != j ==> s[i].0 != s[j].0
}

/// The map an entry list stands for (a later entry wins, though with
/// distinct ids there is none).
pub open spec fn to_map(s: Seq<(u64, Decimal)>) -> Map<u64, int>
    decreases s.len(),
{
    if s.len() == 0 {
        Map::empty()
    } else {
        to_map(s.drop_last()).insert(s.last().0, s.last().1@)
    }
}

/// Amounts kept per resource id.
#[derive(Clone, Debug)]
pub struct Ledger {
    pub entries: Vec<(u64, Decimal)>,
}

impl View for Ledger {
    type V = Map<u64, int>;

    open spec fn view(&self) -> Map<u64, int> {
        to_map(self.entries@)
    }
}

proof fn lemma_to_map_dom(s: Seq<(u64, Decimal)>, k: u64)
    ensures
        to_map(s).dom().contains(k) <==> exists|i: int| 0 <= i < s.len() && s[i].0 == k,
    decreases s.len(),
{
    if s.len() > 0 {
        lemma_to_map_dom(s.drop_last(), k);
        if to_map(s.drop_last()).dom().contains(k) {
            let i = choose|i: int| 0 <= i < s.drop_last().len() && s.drop_last()[i].0 == k;
            assert(s[i].0 == k);
        }
        if exists|i: int| 0 <= i < s.len() && s[i].0 == k {
            let i = choose|i: int| 0 <= i < s.len() && s[i].0 == k;
            if i < s.len() - 1 {
                assert(s.drop_last()[i].0 == k);
            }
        }
    }
}

proof fn lemma_to_map_at(s: Seq<(u64, Decimal)>, i: int)
    requires
        keys_distinct(s),
        0 <= i < s.len(),
    ensures
        to_map(s).dom().contains(s[i].0),
        to_map(s)[s[i].0] == s[i].1@,
    decreases s.len(),
{
    if i < s.len() - 1 {
        let t = s.drop_last();
        assert(keys_distinct(t));
        lemma_to_map_at(t, i);
        assert(t[i] == s[i]);
        assert(s.last().0 != s[i].0);
    }
}

proof fn lemma_to_map_update(s: Seq<(u64, Decimal)>, i: int, v: Decimal)
    requires
        keys_distinct(s),
        0 <= i < s.len(),
    ensures
        to_map(s.update(i, (s[i].0, v))) == to_map(s).insert(s[i].0, v@),
        keys_distinct(s.update(i, (s[i].0, v))),
    decreases s.len(),
{
    let u = s.update(i, (s[i].0, v));
    if i == s.len() - 1 {
        assert(u.drop_last() =~= s.drop_last());
        assert(to_map(u) =~= to_map(s).insert(s[i].0, v@));
    } else {
        let t = s.drop_last();
        assert(keys_distinct(t));
        lemma_to_map_update(t, i, v);
        assert(u.drop_last() =~= t.update(i, (t[i].0, v)));
        assert(s.last().0 != s[i].0);
        assert(to_map(u) =~= to_map(s).insert(s[i].0, v@));
    }
}

impl Ledger {
    /// Entries have distinct ids.
    pub open spec fn wf(&self) -> bool {
        keys_distinct(self.entries@)
    }

    /// A copy of the ledger, with the same entries.
    pub fn duplicate(&self) -> (r: Ledger)
        ensures
            r.entries@ == self.entries@,
    {
        let mut out: Vec<(u64, Decimal)> = Vec::new();
        let mut i: usize = 0;
        while i < self.entries.len()
            invariant
                0 <= i <= self.entries@.len(),
                out@ == self.entries@.take(i as int),
            decreases self.entries@.len() - i,
        {
            out.push(self.entries[i]);
            i = i + 1;
            assert(out@ =~= self.entries@.take(i as int));
        }
        assert(self.entries@.take(self.entries@.len() as int) =~= self.entries@);
        Ledger { entries: out }
    }

    /// An empty ledger.
    pub fn new() -> (r: Ledger)
        ensures
            r.wf(),
            r@ == Map::<u64, int>::empty(),
            r.entries@.len() == 0,
    {
        Ledger { entries: Vec::new() }
    }

    fn find(&self, key: u64) -> (r: Option<usize>)
        requires
            self.wf(),
        ensures
            r matches Some(i) ==> i < self.entries@.len() && self.entries@[i as int].0 == key,
            r is None ==> forall|i: int|
                0 <= i < self.entries@.len() ==> self.entries@[i].0 != key,
    {
        let mut i: usize = 0;
        while i < self.entries.len()
            invariant
                0 <= i <= self.entries@.len(),
                forall|j: int| 0 <= j < i ==> self.entries@[j].0 != key,
            decreases self.entries@.len() - i,
        {
            if self.entries[i].0 == key {
                return Some(i);
            }
            i = i + 1;
        }
        None
    }

    /// Whether `key` has an entry.
    pub fn contains(&self, key: u64) -> (r: bool)
        requires
            self.wf(),
        ensures
            r == self@.dom().contains(key),
    {
        proof {
            lemma_to_map_dom(self.entries@, key);
        }
        self.find(key).is_some()
    }

    /// The amount kept for `key`, if it has an entry.
    pub fn get(&self, key: u64) -> (r: Option<Decimal>)
        requires
            self.wf(),
        ensures
            r is Some <==> self@.dom().contains(key),
            r matches Some(v) ==> v@ == self@[key],
    {
        proof {
            lemma_to_map_dom(self.entries@, key);
        }
        match self.find(key) {
            Some(i) => {
                proof {
                    lemma_to_map_at(self.entries@, i as int);
                }
                Some(self.entries[i].1)
            },
            None => None,
        }
    }

    /// Sets the amount for `key`, adding an entry when it has none.
    pub fn set(&mut self, key: u64, value: Decimal)
        requires
            old(self).wf(),
        ensures
            final(self).wf(),
            final(self)@ == old(self)@.insert(key, value@),
            old(self)@.dom().contains(key) ==> final(self).entries@.len() == old(
                self).entries@.len(),
            !old(self)@.dom().contains(key) ==> final(self).entries@ == old(self).entries@.push(
                (key, value),
            ),
    {
        proof {
            lemma_to_map_dom(self.entries@, key);
        }
        match self.find(key) {
            Some(i) => {
                proof {
                    lemma_to_map_update(self.entries@, i as int, value);
                }
                self.entries.set(i, (key, value));
            },
            None => {
                let ghost before = self.entries@;
                self.entries.push((key, value));
                proof {
                    assert(self.entries@.drop_last() =~= before);
                    assert forall|i: int, j: int|
                        0 <= i < self.entries@.len() && 0 <= j < self.entries@.len() && i != j
                            implies self.entries@[i].0 != self.entries@[j].0 by {
                        if i < before.len() && j < before.len() {
                            assert(before[i].0 != before[j].0);
                        }
                    }
                }
            },
        }
    }

    /// The number of ids with an entry.
    pub fn len(&self) -> (r: usize)
        ensures
            r == self.entries@.len(),
    {
        self.entries.len()
    }

    /// Adds `amount` to the entry for `key`; refused when `key` has none.
    pub fn deposit(&mut self, key: u64, amount: Decimal) -> (r: bool)
        requires
            old(self).wf(),
            old(self)@.dom().contains(key) ==> in_range(old(self)@[key] + amount@),
        ensures
            final(self).wf(),
            r == old(self)@.dom().contains(key),
            r ==> final(self)@ == old(self)@.insert(key, old(self)@[key] + amount@),
            !r ==> final(self)@ == old(self)@ && final(self).entries@ == old(self).entries@,
            final(self).entries@.len() == old(self).entries@.len(),
    {
        match self.get(key) {
            Some(v) => {
                self.set(key, v.add(amount));
                true
            },
            None => false,
        }
    }
}

} // verus!
