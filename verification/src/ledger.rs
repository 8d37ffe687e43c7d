//! The persistent storage of a token contract: amounts under keys.

use crate::address::Address;
use vstd::prelude::*;

verus! {

/// What an amount in a token's persistent storage stands for.
#[derive(Debug, Clone, Copy)]
pub enum DataKey {
    /// What an address holds.
    Balance(Address),
    /// What the second address may still transfer on behalf of the first.
    Allowance(Address, Address),
}

impl PartialEq for DataKey {
    fn eq(&self, other: &Self) -> (same: bool) {
        match (*self, *other) {
            (DataKey::Balance(a), DataKey::Balance(b)) => a == b,
            (DataKey::Allowance(a, s), DataKey::Allowance(b, t)) => a == b && s == t,
            _ => false,
        }
    }
}

impl vstd::std_specs::cmp::PartialEqSpecImpl for DataKey {
    open spec fn obeys_eq_spec() -> bool {
        true
    }

    open spec fn eq_spec(&self, other: &Self) -> bool {
        *self == *other
    }
}

impl Eq for DataKey {

}

/// The map that a list of entries stands for; the first entry under a key counts.
pub open spec fn entries_map(entries: Seq<(DataKey, i128)>) -> Map<DataKey, i128>
    decreases entries.len(),
{
    if entries.len() == 0 {
        Map::empty()
    } else {
        entries_map(entries.drop_first()).insert(entries[0].0, entries[0].1)
    }
}

/// What is stored under `key`, and zero where nothing is.
pub open spec fn amount_at(ledger: Map<DataKey, i128>, key: DataKey) -> i128 {
    if ledger.dom().contains(key) {
        ledger[key]
    } else {
        0
    }
}

/// A map from keys to amounts.
#[derive(Debug)]
pub struct Ledger {
    entries: Vec<(DataKey, i128)>,
}

impl View for Ledger {
    type V = Map<DataKey, i128>;

    closed spec fn view(&self) -> Map<DataKey, i128> {
        entries_map(self.entries@)
    }
}

/// An entry whose key has not occurred before it is the one that counts.
proof fn lemma_first_entry(entries: Seq<(DataKey, i128)>, i: int)
    requires
        0 <= i < entries.len(),
        forall|j: int| 0 <= j < i ==> (#[trigger] entries[j]).0 != entries[i].0,
    ensures
        entries_map(entries).dom().contains(entries[i].0),
        entries_map(entries)[entries[i].0] == entries[i].1,
    decreases entries.len(),
{
    if i > 0 {
        let rest = entries.drop_first();
        assert forall|j: int| 0 <= j < i - 1 implies (#[trigger] rest[j]).0 != rest[i - 1].0 by {
            assert(rest[j] == entries[j + 1]);
        }
        lemma_first_entry(rest, i - 1);
        assert(entries[0].0 != entries[i].0);
    }
}

/// A key that no entry has is not in the map.
proof fn lemma_no_entry(entries: Seq<(DataKey, i128)>, key: DataKey)
    requires
        forall|j: int| 0 <= j < entries.len() ==> (#[trigger] entries[j]).0 != key,
    ensures
        !entries_map(entries).dom().contains(key),
    decreases entries.len(),
{
    if entries.len() > 0 {
        let rest = entries.drop_first();
        assert forall|j: int| 0 <= j < rest.len() implies (#[trigger] rest[j]).0 != key by {
            assert(rest[j] == entries[j + 1]);
        }
        lemma_no_entry(rest, key);
        assert(entries[0].0 != key);
    }
}

/// Overwriting the first entry under a key stores the new amount under that key.
proof fn lemma_overwrite_entry(entries: Seq<(DataKey, i128)>, i: int, amount: i128)
    requires
        0 <= i < entries.len(),
        forall|j: int| 0 <= j < i ==> (#[trigger] entries[j]).0 != entries[i].0,
    ensures
        entries_map(entries.update(i, (entries[i].0, amount))) == entries_map(entries).insert(
            entries[i].0,
            amount,
        ),
    decreases entries.len(),
{
    let changed = entries.update(i, (entries[i].0, amount));
    let rest = entries.drop_first();
    if i == 0 {
        assert(changed.drop_first() =~= rest);
    } else {
        assert forall|j: int| 0 <= j < i - 1 implies (#[trigger] rest[j]).0 != rest[i - 1].0 by {
            assert(rest[j] == entries[j + 1]);
        }
        lemma_overwrite_entry(rest, i - 1, amount);
        assert(changed.drop_first() =~= rest.update(i - 1, (rest[i - 1].0, amount)));
        assert(entries[0].0 != entries[i].0);
    }
    assert(entries_map(changed) =~= entries_map(entries).insert(entries[i].0, amount));
}

/// Adding an entry under a key that no other entry has stores the amount under that key.
proof fn lemma_push_entry(entries: Seq<(DataKey, i128)>, key: DataKey, amount: i128)
    requires
        forall|j: int| 0 <= j < entries.len() ==> (#[trigger] entries[j]).0 != key,
    ensures
        entries_map(entries.push((key, amount))) == entries_map(entries).insert(key, amount),
    decreases entries.len(),
{
    let grown = entries.push((key, amount));
    if entries.len() == 0 {
        assert(grown.drop_first() =~= entries);
    } else {
        let rest = entries.drop_first();
        assert forall|j: int| 0 <= j < rest.len() implies (#[trigger] rest[j]).0 != key by {
            assert(rest[j] == entries[j + 1]);
        }
        lemma_push_entry(rest, key, amount);
        assert(grown.drop_first() =~= rest.push((key, amount)));
        assert(entries[0].0 != key);
    }
    assert(entries_map(grown) =~= entries_map(entries).insert(key, amount));
}

/// A list of entries stands for a finite map.
proof fn lemma_entries_finite(entries: Seq<(DataKey, i128)>)
    ensures
        entries_map(entries).dom().finite(),
    decreases entries.len(),
{
    if entries.len() > 0 {
        lemma_entries_finite(entries.drop_first());
    }
}

impl Ledger {
    /// A ledger holds amounts under finitely many keys.
    pub proof fn lemma_finite(self)
        ensures
            self@.dom().finite(),
    {
        lemma_entries_finite(self.entries@);
    }

    /// A ledger with nothing in it.
    pub fn new() -> (ledger: Ledger)
        ensures
            ledger@ == Map::<DataKey, i128>::empty(),
    {
        Ledger { entries: Vec::new() }
    }

    /// The position of the first entry under `key`, or the number of entries if there is none.
    fn position(&self, key: DataKey) -> (i: usize)
        ensures
            i <= self.entries@.len(),
            i < self.entries@.len() ==> self.entries@[i as int].0 == key,
            forall|j: int| 0 <= j < i ==> (#[trigger] self.entries@[j]).0 != key,
    {
        let mut i: usize = 0;
        while i < self.entries.len()
            invariant
                i <= self.entries@.len(),
                forall|j: int| 0 <= j < i ==> (#[trigger] self.entries@[j]).0 != key,
            decreases self.entries@.len() - i,
        {
            if self.entries[i].0 == key {
                return i;
            }
            i += 1;
        }
        i
    }

    /// What is stored under `key`, if anything is.
    pub fn get(&self, key: DataKey) -> (amount: Option<i128>)
        ensures
            amount == (if self@.dom().contains(key) {
                Some(self@[key])
            } else {
                None
            }),
    {
        let i: usize = self.position(key);
        if i < self.entries.len() {
            proof {
                lemma_first_entry(self.entries@, i as int);
            }
            Some(self.entries[i].1)
        } else {
            proof {
                lemma_no_entry(self.entries@, key);
            }
            None
        }
    }

    /// What is stored under `key`, and zero where nothing is.
    pub fn get_or_zero(&self, key: DataKey) -> (amount: i128)
        ensures
            amount == amount_at(self@, key),
    {
        self.get(key).unwrap_or(0)
    }

    /// Store `amount` under `key`.
    pub fn set(&mut self, key: DataKey, amount: i128)
        ensures
            final(self)@ == old(self)@.insert(key, amount),
    {
        let i: usize = self.position(key);
        if i < self.entries.len() {
            proof {
                lemma_overwrite_entry(self.entries@, i as int, amount);
            }
            self.entries.set(i, (key, amount));
        } else {
            proof {
                lemma_push_entry(self.entries@, key, amount);
            }
            self.entries.push((key, amount));
        }
    }
}

} // verus!
