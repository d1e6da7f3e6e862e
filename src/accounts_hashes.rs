use vstd::prelude::*;

use crate::package::AccountsHash;

verus! {

/// The hash of the accounts written since a full snapshot's slot.
#[derive(Clone, Copy, Debug, PartialEq, Eq)]
pub struct IncrementalAccountsHash(pub [u8; 32]);

/// A hash recorded for a slot, with the capitalization it was computed with.
pub type HashEntry = (u64, [u8; 32], u64);

/// What `entries` records for `slot`: the last entry for that slot, if any.
pub open spec fn lookup(entries: Seq<HashEntry>, slot: u64) -> Option<([u8; 32], u64)>
    decreases entries.len(),
{
    if entries.len() == 0 {
        None
    } else if entries.last().0 == slot {
        Some((entries.last().1, entries.last().2))
    } else {
        lookup(entries.drop_last(), slot)
    }
}

/// The map from slot to hash and capitalization that `entries` records.
pub open spec fn entries_map(entries: Seq<HashEntry>) -> Map<u64, ([u8; 32], u64)> {
    Map::new(|slot: u64| lookup(entries, slot) is Some, |slot: u64| lookup(entries, slot)->0)
}

/// The map `m` without the slots before `slot`.
pub open spec fn purged<V>(m: Map<u64, V>, slot: u64) -> Map<u64, V> {
    m.restrict(Set::new(|s: u64| s >= slot))
}

pub open spec fn at_least(slot: u64) -> spec_fn(HashEntry) -> bool {
    |e: HashEntry| e.0 >= slot
}

pub open spec fn other_than(slot: u64) -> spec_fn(HashEntry) -> bool {
    |e: HashEntry| e.0 != slot
}

/// Keeping the entries whose slot passes a test keeps what is recorded for
/// those slots and forgets the others.
proof fn lemma_lookup_filter(
    entries: Seq<HashEntry>,
    keep: spec_fn(HashEntry) -> bool,
    test: spec_fn(u64) -> bool,
    slot: u64,
)
    requires
        forall|e: HashEntry| #[trigger] keep(e) == test(e.0),
    ensures
        lookup(entries.filter(keep), slot) == if test(slot) {
            lookup(entries, slot)
        } else {
            None
        },
    decreases entries.len(),
{
    reveal(Seq::filter);
    if entries.len() > 0 {
        lemma_lookup_filter(entries.drop_last(), keep, test, slot);
        if keep(entries.last()) {
            assert(entries.filter(keep).drop_last() =~= entries.drop_last().filter(keep));
        }
    }
}

/// Whatever `entries` records for a slot comes from one of its entries.
proof fn lemma_lookup_witness(entries: Seq<HashEntry>, slot: u64)
    requires
        lookup(entries, slot) is Some,
    ensures
        exists|i: int|
            0 <= i < entries.len() && #[trigger] entries[i].0 == slot && lookup(entries, slot)
                == Some((entries[i].1, entries[i].2)),
    decreases entries.len(),
{
    if entries.last().0 != slot {
        lemma_lookup_witness(entries.drop_last(), slot);
        let i = choose|i: int|
            0 <= i < entries.drop_last().len() && #[trigger] entries.drop_last()[i].0 == slot
                && lookup(entries.drop_last(), slot) == Some(
                (entries.drop_last()[i].1, entries.drop_last()[i].2),
            );
        assert(entries[i] == entries.drop_last()[i]);
    } else {
        assert(entries[entries.len() - 1] == entries.last());
    }
}

/// Keeps the entries for `bound` and later slots when `by_bound` holds, and
/// otherwise the entries for slots other than `bound`, in their order.
fn filter_entries(entries: &Vec<HashEntry>, bound: u64, by_bound: bool) -> (r: Vec<HashEntry>)
    ensures
        by_bound ==> r@ == entries@.filter(at_least(bound)),
        !by_bound ==> r@ == entries@.filter(other_than(bound)),
{
    let ghost keep = if by_bound {
        at_least(bound)
    } else {
        other_than(bound)
    };
    let mut r: Vec<HashEntry> = Vec::new();
    let mut i: usize = 0;
    while i < entries.len()
        invariant
            i <= entries@.len(),
            r@ == entries@.subrange(0, i as int).filter(keep),
            keep == if by_bound {
                at_least(bound)
            } else {
                other_than(bound)
            },
        decreases entries@.len() - i,
    {
        let e = entries[i];
        proof {
            reveal(Seq::filter);
            assert(entries@.subrange(0, i + 1).drop_last() =~= entries@.subrange(0, i as int));
            assert(entries@.subrange(0, i + 1).last() == e);
        }
        let kept = if by_bound {
            e.0 >= bound
        } else {
            e.0 != bound
        };
        if kept {
            r.push(e);
        }
        i = i + 1;
    }
    assert(entries@.subrange(0, i as int) =~= entries@);
    r
}

/// Finds what `entries` records for `slot`.
fn find_entry(entries: &Vec<HashEntry>, slot: u64) -> (r: Option<([u8; 32], u64)>)
    ensures
        r == lookup(entries@, slot),
{
    let mut i: usize = entries.len();
    assert(entries@.subrange(0, i as int) =~= entries@);
    while i > 0
        invariant
            i <= entries@.len(),
            lookup(entries@, slot) == lookup(entries@.subrange(0, i as int), slot),
        decreases i,
    {
        let e = entries[i - 1];
        assert(entries@.subrange(0, i - 1) =~= entries@.subrange(0, i as int).drop_last());
        if e.0 == slot {
            return Some((e.1, e.2));
        }
        i = i - 1;
    }
    None
}

/// The accounts hashes computed so far: full accounts hashes and incremental
/// accounts hashes, each by slot, with their capitalization.
pub struct AccountsHashes {
    full: Vec<HashEntry>,
    incremental: Vec<HashEntry>,
}

impl AccountsHashes {
    /// The full accounts hashes recorded, by slot.
    pub closed spec fn full_view(&self) -> Map<u64, ([u8; 32], u64)> {
        entries_map(self.full@)
    }

    /// The incremental accounts hashes recorded, by slot.
    pub closed spec fn incremental_view(&self) -> Map<u64, ([u8; 32], u64)> {
        entries_map(self.incremental@)
    }

    /// No hash recorded.
    pub fn new() -> (r: AccountsHashes)
        ensures
            r.full_view() == Map::<u64, ([u8; 32], u64)>::empty(),
            r.incremental_view() == Map::<u64, ([u8; 32], u64)>::empty(),
    {
        let r = AccountsHashes { full: Vec::new(), incremental: Vec::new() };
        assert(r.full_view() =~= Map::<u64, ([u8; 32], u64)>::empty());
        assert(r.incremental_view() =~= Map::<u64, ([u8; 32], u64)>::empty());
        r
    }

    /// Records the full accounts hash of `slot`, replacing any recorded before.
    pub fn set_accounts_hash(&mut self, slot: u64, accounts_hash: (AccountsHash, u64))
        ensures
            final(self).full_view() == old(self).full_view().insert(
                slot,
                ((accounts_hash.0).0, accounts_hash.1),
            ),
            final(self).incremental_view() == old(self).incremental_view(),
    {
        let ghost before = self.full@;
        let mut full = filter_entries(&self.full, slot, false);
        full.push((slot, (accounts_hash.0).0, accounts_hash.1));
        self.full = full;
        proof {
            assert forall|s: u64| true implies lookup(self.full@, s) == if s == slot {
                Some(((accounts_hash.0).0, accounts_hash.1))
            } else {
                lookup(before, s)
            } by {
                assert(self.full@.drop_last() == before.filter(other_than(slot)));
                lemma_lookup_filter(before, other_than(slot), |t: u64| t != slot, s);
            }
        }
        assert(self.full_view() =~= old(self).full_view().insert(
            slot,
            ((accounts_hash.0).0, accounts_hash.1),
        ));
    }

    /// Records the incremental accounts hash of `slot`, replacing any recorded before.
    pub fn set_incremental_accounts_hash(
        &mut self,
        slot: u64,
        incremental_accounts_hash: (IncrementalAccountsHash, u64),
    )
        ensures
            final(self).incremental_view() == old(self).incremental_view().insert(
                slot,
                ((incremental_accounts_hash.0).0, incremental_accounts_hash.1),
            ),
            final(self).full_view() == old(self).full_view(),
    {
        let ghost before = self.incremental@;
        let mut incremental = filter_entries(&self.incremental, slot, false);
        incremental.push((slot, (incremental_accounts_hash.0).0, incremental_accounts_hash.1));
        self.incremental = incremental;
        proof {
            assert forall|s: u64| true implies lookup(self.incremental@, s) == if s == slot {
                Some(((incremental_accounts_hash.0).0, incremental_accounts_hash.1))
            } else {
                lookup(before, s)
            } by {
                assert(self.incremental@.drop_last() == before.filter(other_than(slot)));
                lemma_lookup_filter(before, other_than(slot), |t: u64| t != slot, s);
            }
        }
        assert(self.incremental_view() =~= old(self).incremental_view().insert(
            slot,
            ((incremental_accounts_hash.0).0, incremental_accounts_hash.1),
        ));
    }

    /// The full accounts hash recorded for `slot`, with its capitalization.
    pub fn get_accounts_hash(&self, slot: u64) -> (r: Option<(AccountsHash, u64)>)
        ensures
            r is Some <==> self.full_view().contains_key(slot),
            r matches Some((hash, capitalization)) ==> self.full_view()[slot] == (
                hash.0,
                capitalization,
            ),
    {
        match find_entry(&self.full, slot) {
            Some((hash, capitalization)) => Some((AccountsHash(hash), capitalization)),
            None => None,
        }
    }

    /// The incremental accounts hash recorded for `slot`, with its capitalization.
    pub fn get_incremental_accounts_hash(&self, slot: u64) -> (r: Option<
        (IncrementalAccountsHash, u64),
    >)
        ensures
            r is Some <==> self.incremental_view().contains_key(slot),
            r matches Some((hash, capitalization)) ==> self.incremental_view()[slot] == (
                hash.0,
                capitalization,
            ),
    {
        match find_entry(&self.incremental, slot) {
            Some((hash, capitalization)) => Some((IncrementalAccountsHash(hash), capitalization)),
            None => None,
        }
    }

    /// Every full accounts hash recorded, with its slot and capitalization.
    pub fn get_accounts_hashes(&self) -> (r: Vec<(u64, AccountsHash, u64)>)
        ensures
            forall|j: int|
                0 <= j < r@.len() ==> self.full_view().contains_key(#[trigger] r@[j].0)
                    && self.full_view()[r@[j].0] == ((r@[j].1).0, r@[j].2),
            forall|slot: u64|
                #[trigger] self.full_view().contains_key(slot) ==> exists|j: int|
                    0 <= j < r@.len() && #[trigger] r@[j].0 == slot,
    {
        let mut r: Vec<(u64, AccountsHash, u64)> = Vec::new();
        let mut i: usize = 0;
        while i < self.full.len()
            invariant
                i <= self.full@.len(),
                forall|j: int|
                    0 <= j < r@.len() ==> lookup(self.full@, #[trigger] r@[j].0) == Some(
                        ((r@[j].1).0, r@[j].2),
                    ),
                forall|j: int|
                    0 <= j < i && lookup(self.full@, #[trigger] self.full@[j].0) is Some ==> exists|l: int| 0 <= l < r@.len() && #[trigger] r@[l].0 == self.full@[j].0,
            decreases self.full@.len() - i,
        {
            let e = self.full[i];
            let ghost before = r@;
            let current = find_entry(&self.full, e.0);
            match current {
                Some((hash, capitalization)) => {
                    r.push((e.0, AccountsHash(hash), capitalization));
                    assert(forall|l: int| 0 <= l < before.len() ==> r@[l] == before[l]);
                },
                None => {},
            }
            proof {
                assert forall|j: int|
                    0 <= j < i + 1 && lookup(self.full@, #[trigger] self.full@[j].0) is Some implies exists|
                    l: int,
                | 0 <= l < r@.len() && #[trigger] r@[l].0 == self.full@[j].0 by {
                    if j < i {
                        let l = choose|l: int| 0 <= l < before.len() && #[trigger] before[l].0 == self.full@[j].0;
                        assert(r@[l] == before[l]);
                    } else {
                        assert(r@[r@.len() - 1].0 == self.full@[j].0);
                    }
                }
            }
            i = i + 1;
        }
        proof {
            assert forall|slot: u64| #[trigger] self.full_view().contains_key(slot) implies exists|
                j: int,
            | 0 <= j < r@.len() && #[trigger] r@[j].0 == slot by {
                lemma_lookup_witness(self.full@, slot);
            }
        }
        r
    }

    /// Every incremental accounts hash recorded, with its slot and capitalization.
    pub fn get_incremental_accounts_hashes(&self) -> (r: Vec<(u64, IncrementalAccountsHash, u64)>)
        ensures
            forall|j: int|
                0 <= j < r@.len() ==> self.incremental_view().contains_key(#[trigger] r@[j].0)
                    && self.incremental_view()[r@[j].0] == ((r@[j].1).0, r@[j].2),
            forall|slot: u64|
                #[trigger] self.incremental_view().contains_key(slot) ==> exists|j: int|
                    0 <= j < r@.len() && #[trigger] r@[j].0 == slot,
    {
        let mut r: Vec<(u64, IncrementalAccountsHash, u64)> = Vec::new();
        let mut i: usize = 0;
        while i < self.incremental.len()
            invariant
                i <= self.incremental@.len(),
                forall|j: int|
                    0 <= j < r@.len() ==> lookup(self.incremental@, #[trigger] r@[j].0) == Some(
                        ((r@[j].1).0, r@[j].2),
                    ),
                forall|j: int|
                    0 <= j < i && lookup(self.incremental@, #[trigger] self.incremental@[j].0)
                        is Some ==> exists|
                        l: int,
                    | 0 <= l < r@.len() && #[trigger] r@[l].0 == self.incremental@[j].0,
            decreases self.incremental@.len() - i,
        {
            let e = self.incremental[i];
            let ghost before = r@;
            let current = find_entry(&self.incremental, e.0);
            match current {
                Some((hash, capitalization)) => {
                    r.push((e.0, IncrementalAccountsHash(hash), capitalization));
                    assert(forall|l: int| 0 <= l < before.len() ==> r@[l] == before[l]);
                },
                None => {},
            }
            proof {
                assert forall|j: int|
                    0 <= j < i + 1 && lookup(self.incremental@, #[trigger] self.incremental@[j].0) is Some implies exists|
                    l: int,
                | 0 <= l < r@.len() && #[trigger] r@[l].0 == self.incremental@[j].0 by {
                    if j < i {
                        let l = choose|l: int| 0 <= l < before.len() && #[trigger] before[l].0 == self.incremental@[j].0;
                        assert(r@[l] == before[l]);
                    } else {
                        assert(r@[r@.len() - 1].0 == self.incremental@[j].0);
                    }
                }
            }
            i = i + 1;
        }
        proof {
            assert forall|slot: u64| #[trigger] self.incremental_view().contains_key(slot) implies exists|
                j: int,
            | 0 <= j < r@.len() && #[trigger] r@[j].0 == slot by {
                lemma_lookup_witness(self.incremental@, slot);
            }
        }
        r
    }

    /// Forgets every hash, full or incremental, recorded for a slot before `slot`.
    pub fn purge_old_accounts_hashes(&mut self, slot: u64)
        ensures
            final(self).full_view() == purged(old(self).full_view(), slot),
            final(self).incremental_view() == purged(old(self).incremental_view(), slot),
    {
        let ghost full = self.full@;
        let ghost incremental = self.incremental@;
        self.full = filter_entries(&self.full, slot, true);
        self.incremental = filter_entries(&self.incremental, slot, true);
        proof {
            assert forall|s: u64| true implies lookup(self.full@, s) == (if s >= slot {
                lookup(full, s)
            } else {
                None
            }) && lookup(self.incremental@, s) == (if s >= slot {
                lookup(incremental, s)
            } else {
                None
            }) by {
                lemma_lookup_filter(full, at_least(slot), |t: u64| t >= slot, s);
                lemma_lookup_filter(incremental, at_least(slot), |t: u64| t >= slot, s);
            }
        }
        assert(self.full_view() =~= purged(old(self).full_view(), slot));
        assert(self.incremental_view() =~= purged(old(self).incremental_view(), slot));
    }
}

} // verus!
