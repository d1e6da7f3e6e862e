use vstd::prelude::*;

use crate::package::{
    cmp_accounts_packages_by_priority, kind_rank, priority_cmp, priority_le, AccountsPackage,
    AccountsPackageKind, SnapshotKind,
};

verus! {

/// The number of epoch accounts hash packages in `s`.
pub open spec fn eah_count(s: Seq<AccountsPackage>) -> nat
    decreases s.len(),
{
    if s.len() == 0 {
        0
    } else {
        eah_count(s.drop_last()) + if s.last().package_kind is EpochAccountsHash {
            1nat
        } else {
            0nat
        }
    }
}

/// There are no more epoch accounts hash packages than packages.
pub proof fn lemma_eah_count_bound(s: Seq<AccountsPackage>)
    ensures
        eah_count(s) <= s.len(),
        eah_count(s) >= 2 ==> s.len() >= 2,
    decreases s.len(),
{
    if s.len() > 0 {
        lemma_eah_count_bound(s.drop_last());
    }
}

/// The package at `z` has the highest priority in `s`.
pub open spec fn is_top(s: Seq<AccountsPackage>, z: int) -> bool {
    &&& 0 <= z < s.len()
    &&& forall|j: int| 0 <= j < s.len() ==> priority_le(#[trigger] s[j], s[z])
}

/// The package at `y` has the highest priority in `s` once the one at `z` is set aside.
pub open spec fn is_second(s: Seq<AccountsPackage>, z: int, y: int) -> bool {
    &&& 0 <= y < s.len()
    &&& y != z
    &&& forall|j: int| 0 <= j < s.len() && j != z ==> priority_le(#[trigger] s[j], s[y])
}

/// A full snapshot for an older slot than an epoch accounts hash package goes
/// first, so that the base hash that later incremental snapshots need is kept.
pub open spec fn preempts(top: AccountsPackage, second: AccountsPackage) -> bool {
    &&& top.package_kind is EpochAccountsHash
    &&& second.package_kind == AccountsPackageKind::Snapshot(SnapshotKind::FullSnapshot)
    &&& second.slot < top.slot
}

/// The package at `k` is the one to handle next out of `s`: the highest
/// priority one, unless that is an epoch accounts hash package and the next
/// one is an older full snapshot, which then goes first.
pub open spec fn is_next(s: Seq<AccountsPackage>, k: int) -> bool {
    ||| exists|z: int| is_top(s, z) && is_second(s, z, k) && preempts(s[z], #[trigger] s[k])
    ||| is_top(s, k) && forall|y: int| is_second(s, k, y) ==> !preempts(s[k], #[trigger] s[y])
}

/// Whether a package is for a slot later than `slot`.
pub open spec fn later_than(slot: u64) -> spec_fn(AccountsPackage) -> bool {
    |p: AccountsPackage| p.slot > slot
}

/// Whether a package is for `slot` or an earlier one.
pub open spec fn not_later_than(slot: u64) -> spec_fn(AccountsPackage) -> bool {
    |p: AccountsPackage| p.slot <= slot
}

/// The packages other than the one at `k` that are kept for later: those for
/// later slots than the chosen one, in their order.
pub open spec fn re_enqueued(s: Seq<AccountsPackage>, k: int) -> Seq<AccountsPackage> {
    s.remove(k).filter(later_than(s[k].slot))
}

/// The packages other than the one at `k` that are dropped.
pub open spec fn dropped(s: Seq<AccountsPackage>, k: int) -> Seq<AccountsPackage> {
    s.remove(k).filter(not_later_than(s[k].slot))
}

proof fn lemma_priority_facts(a: AccountsPackage, b: AccountsPackage, c: AccountsPackage)
    ensures
        priority_le(a, a),
        priority_cmp(a, b) == std::cmp::Ordering::Less ==> priority_le(a, b),
        priority_cmp(a, b) != std::cmp::Ordering::Less ==> priority_le(b, a),
        priority_le(a, b) && priority_le(b, c) ==> priority_le(a, c),
        priority_le(a, b) && priority_le(b, a) ==> kind_rank(a.package_kind) == kind_rank(
            b.package_kind,
        ) && a.slot == b.slot,
{
}

proof fn lemma_full_rank(p: AccountsPackage)
    ensures
        kind_rank(p.package_kind) == 1 <==> p.package_kind == AccountsPackageKind::Snapshot(
            SnapshotKind::FullSnapshot,
        ),
        kind_rank(p.package_kind) == 2 <==> p.package_kind is EpochAccountsHash,
{
}

proof fn lemma_filter_first(s: Seq<AccountsPackage>, f: spec_fn(AccountsPackage) -> bool)
    requires
        s.len() > 0,
    ensures
        s.filter(f) == (if f(s[0]) {
            seq![s[0]]
        } else {
            Seq::<AccountsPackage>::empty()
        }) + s.drop_first().filter(f),
{
    let head = seq![s[0]];
    assert(s == head + s.drop_first());
    Seq::filter_distributes_over_add(head, s.drop_first(), f);
    reveal_with_fuel(Seq::filter, 2);
    assert(head.drop_last() =~= Seq::<AccountsPackage>::empty());
    if f(s[0]) {
        assert(head.filter(f) =~= seq![s[0]]);
    } else {
        assert(head.filter(f) =~= Seq::<AccountsPackage>::empty());
    }
}

proof fn lemma_filter_split(t: Seq<AccountsPackage>, slot: u64)
    ensures
        t.filter(later_than(slot)).to_multiset().add(t.filter(not_later_than(slot)).to_multiset())
            =~= t.to_multiset(),
    decreases t.len(),
{
    broadcast use vstd::multiset::group_multiset_axioms;
    broadcast use vstd::seq_lib::to_multiset_build;

    reveal(Seq::filter);
    if t.len() == 0 {
        assert(t.to_multiset() =~= vstd::multiset::Multiset::<AccountsPackage>::empty()) by {
            t.to_multiset_ensures();
        }
        assert(t.filter(later_than(slot)) =~= t);
        assert(t.filter(not_later_than(slot)) =~= t);
    } else {
        let u = t.drop_last();
        let x = t.last();
        lemma_filter_split(u, slot);
        assert(u.push(x) =~= t);
    }
}

/// Every package kept for later is for a later slot than the chosen one.
pub proof fn lemma_re_enqueued_are_later(s: Seq<AccountsPackage>, k: int)
    requires
        0 <= k < s.len(),
    ensures
        forall|i: int|
            0 <= i < re_enqueued(s, k).len() ==> #[trigger] re_enqueued(s, k)[i].slot > s[k].slot,
{
    assert forall|i: int| 0 <= i < re_enqueued(s, k).len() implies #[trigger] re_enqueued(
        s,
        k,
    )[i].slot > s[k].slot by {
        s.remove(k).lemma_filter_pred(later_than(s[k].slot), i);
    }
}

/// Every dropped package is for the chosen package's slot or an earlier one,
/// and is not the chosen package: the chosen package, the ones kept for later
/// and the dropped ones are together exactly the packages there were.
pub proof fn lemma_dropped_are_not_later(s: Seq<AccountsPackage>, k: int)
    requires
        0 <= k < s.len(),
    ensures
        forall|i: int|
            0 <= i < dropped(s, k).len() ==> #[trigger] dropped(s, k)[i].slot <= s[k].slot,
        re_enqueued(s, k).to_multiset().add(dropped(s, k).to_multiset()).insert(s[k])
            == s.to_multiset(),
{
    broadcast use vstd::multiset::group_multiset_axioms;

    assert forall|i: int| 0 <= i < dropped(s, k).len() implies #[trigger] dropped(
        s,
        k,
    )[i].slot <= s[k].slot by {
        s.remove(k).lemma_filter_pred(not_later_than(s[k].slot), i);
    }
    lemma_filter_split(s.remove(k), s[k].slot);
    vstd::seq_lib::to_multiset_remove(s, k);
    s.to_multiset_ensures();
    assert(s.to_multiset().remove(s[k]).insert(s[k]) =~= s.to_multiset());
}

/// The index of a highest priority package in `s`.
fn top_index(s: &Vec<AccountsPackage>) -> (z: usize)
    requires
        s@.len() > 0,
    ensures
        is_top(s@, z as int),
{
    let mut z: usize = 0;
    let mut i: usize = 1;
    while i < s.len()
        invariant
            0 <= z < i <= s@.len(),
            forall|j: int| 0 <= j < i ==> priority_le(#[trigger] s@[j], s@[z as int]),
        decreases s@.len() - i,
    {
        let ord = cmp_accounts_packages_by_priority(&s[z], &s[i]);
        proof {
            lemma_priority_facts(s@[z as int], s@[i as int], s@[i as int]);
            assert forall|j: int| 0 <= j < i implies priority_le(#[trigger] s@[j], s@[i as int])
                || ord != std::cmp::Ordering::Less by {
                lemma_priority_facts(s@[j], s@[z as int], s@[i as int]);
            }
        }
        match ord {
            std::cmp::Ordering::Less => {
                z = i;
            },
            _ => {},
        }
        i = i + 1;
    }
    z
}

/// The index of a highest priority package in `s` other than the one at `z`.
fn second_index(s: &Vec<AccountsPackage>, z: usize) -> (y: usize)
    requires
        s@.len() > 1,
        z < s@.len(),
    ensures
        is_second(s@, z as int, y as int),
{
    let mut y: usize = if z == 0 {
        1
    } else {
        0
    };
    let mut i: usize = 0;
    while i < s.len()
        invariant
            0 <= y < s@.len(),
            y != z,
            z < s@.len(),
            i <= s@.len(),
            forall|j: int|
                0 <= j < i && j != z ==> priority_le(#[trigger] s@[j], s@[y as int]),
        decreases s@.len() - i,
    {
        if i != z {
            let ord = cmp_accounts_packages_by_priority(&s[y], &s[i]);
            proof {
                lemma_priority_facts(s@[y as int], s@[i as int], s@[i as int]);
                assert forall|j: int| 0 <= j < i && j != z implies priority_le(
                    #[trigger] s@[j],
                    s@[i as int],
                ) || ord != std::cmp::Ordering::Less by {
                    lemma_priority_facts(s@[j], s@[y as int], s@[i as int]);
                }
            }
            match ord {
                std::cmp::Ordering::Less => {
                    y = i;
                },
                _ => {},
            }
        }
        i = i + 1;
    }
    y
}

fn is_epoch_accounts_hash(p: &AccountsPackage) -> (r: bool)
    ensures
        r == (p.package_kind is EpochAccountsHash),
{
    match p.package_kind {
        AccountsPackageKind::EpochAccountsHash => true,
        _ => false,
    }
}

fn is_full_snapshot(p: &AccountsPackage) -> (r: bool)
    ensures
        r == (p.package_kind == AccountsPackageKind::Snapshot(SnapshotKind::FullSnapshot)),
{
    match p.package_kind {
        AccountsPackageKind::Snapshot(SnapshotKind::FullSnapshot) => true,
        _ => false,
    }
}

/// Picks the accounts package to handle next out of `packages`, which hold at
/// most one epoch accounts hash package.
fn choose_next(packages: Vec<AccountsPackage>) -> (r: Option<(AccountsPackage, Vec<AccountsPackage>)>)
    requires
        eah_count(packages@) <= 1,
    ensures
        r is None <==> packages@.len() == 0,
        packages@.len() == 1 ==> (r matches Some((chosen, re_enqueue)) && chosen == packages@[0]
            && re_enqueue@.len() == 0),
        r matches Some((chosen, re_enqueue)) ==> exists|k: int|
            0 <= k < packages@.len() && #[trigger] packages@[k] == chosen && is_next(packages@, k)
                && re_enqueue@ == re_enqueued(packages@, k),
{
    let n = packages.len();
    if n == 0 {
        return None;
    }
    let ghost s = packages@;
    let z = top_index(&packages);
    let k: usize = if n == 1 {
        proof {
            assert forall|y: int| is_second(s, z as int, y) implies !preempts(
                s[z as int],
                #[trigger] s[y],
            ) by {}
        }
        z
    } else {
        let y = second_index(&packages, z);
        if is_epoch_accounts_hash(&packages[z]) && is_full_snapshot(&packages[y])
            && packages[y].slot < packages[z].slot {
            assert(is_top(s, z as int) && is_second(s, z as int, y as int) && preempts(
                s[z as int],
                s[y as int],
            ));
            y
        } else {
            proof {
                assert forall|y2: int| is_second(s, z as int, y2) implies !preempts(
                    s[z as int],
                    #[trigger] s[y2],
                ) by {
                    lemma_priority_facts(s[y2], s[y as int], s[y as int]);
                    lemma_full_rank(s[y2]);
                    lemma_full_rank(s[y as int]);
                }
            }
            z
        }
    };
    let mut packages = packages;
    let chosen = packages.remove(k);
    let ghost rest = packages@;
    let ghost keep = later_than(chosen.slot);
    let mut re_enqueue: Vec<AccountsPackage> = Vec::new();
    while packages.len() > 0
        invariant
            re_enqueue@ + packages@.filter(keep) == rest.filter(keep),
            keep == later_than(chosen.slot),
        decreases packages@.len(),
    {
        proof {
            lemma_filter_first(packages@, keep);
        }
        let ghost before = packages@;
        let p = packages.remove(0);
        assert(packages@ == before.drop_first());
        if p.slot > chosen.slot {
            re_enqueue.push(p);
            assert(re_enqueue@ + packages@.filter(keep) =~= rest.filter(keep));
        } else {
            assert(re_enqueue@ + packages@.filter(keep) =~= rest.filter(keep));
        }
    }
    assert(packages@.filter(keep) =~= Seq::<AccountsPackage>::empty()) by {
        reveal(Seq::filter);
    }
    assert(re_enqueue@ =~= re_enqueued(s, k as int));
    assert(s[k as int] == chosen);
    if n == 1 {
        assert(rest.len() == 0);
        assert(rest.filter(keep) =~= Seq::<AccountsPackage>::empty()) by {
            reveal(Seq::filter);
        }
    }
    Some((chosen, re_enqueue))
}

/// Why the next accounts package could not be taken.
#[derive(Clone, Copy, Debug, PartialEq, Eq, Structural)]
pub enum NextAccountsPackageError {
    /// More than one epoch accounts hash package was waiting; the count is given.
    TooManyEpochAccountsHashPackages(usize),
    /// A package to keep for later could not be sent back into the channel.
    ReEnqueueFailed,
}

/// Counts the epoch accounts hash packages in `packages`.
pub fn count_epoch_accounts_hash_packages(packages: &Vec<AccountsPackage>) -> (r: usize)
    ensures
        r as nat == eah_count(packages@),
{
    let mut count: usize = 0;
    let mut i: usize = 0;
    while i < packages.len()
        invariant
            i <= packages@.len(),
            count as nat == eah_count(packages@.subrange(0, i as int)),
            count <= i,
        decreases packages@.len() - i,
    {
        assert(packages@.subrange(0, i + 1).drop_last() =~= packages@.subrange(0, i as int));
        match packages[i].package_kind {
            AccountsPackageKind::EpochAccountsHash => {
                count = count + 1;
            },
            _ => {},
        }
        i = i + 1;
    }
    assert(packages@.subrange(0, i as int) =~= packages@);
    count
}

/// Picks the accounts package to handle next out of `packages`, and the ones
/// to keep for later.
///
/// More than one epoch accounts hash package is an error. Otherwise returns
/// `None` for no packages, and else the package to handle (see `is_next`)
/// and, in their order, the others whose slot is later than its slot; the
/// rest are dropped.
pub fn select_next_accounts_package(packages: Vec<AccountsPackage>) -> (r: Result<
    Option<(AccountsPackage, Vec<AccountsPackage>)>,
    NextAccountsPackageError,
>)
    ensures
        r is Err <==> eah_count(packages@) >= 2,
        r matches Err(e) ==> e == NextAccountsPackageError::TooManyEpochAccountsHashPackages(
            eah_count(packages@) as usize,
        ),
        (r is Ok && r->Ok_0 is None) <==> packages@.len() == 0,
        packages@.len() == 1 ==> (r matches Ok(Some((chosen, re_enqueue))) && chosen
            == packages@[0] && re_enqueue@.len() == 0),
        r matches Ok(Some((chosen, re_enqueue))) ==> exists|k: int|
            0 <= k < packages@.len() && #[trigger] packages@[k] == chosen && is_next(packages@, k)
                && re_enqueue@ == re_enqueued(packages@, k),
{
    let num_eah = count_epoch_accounts_hash_packages(&packages);
    proof {
        lemma_eah_count_bound(packages@);
    }
    if num_eah > 1 {
        return Err(NextAccountsPackageError::TooManyEpochAccountsHashPackages(num_eah));
    }
    Ok(choose_next(packages))
}

} // verus!
