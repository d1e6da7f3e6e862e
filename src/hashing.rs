use vstd::prelude::*;

use crate::accounts_hashes::{purged, AccountsHashes, IncrementalAccountsHash};
use crate::package::{
    AccountsHash, AccountsHashAlgorithm, AccountsPackage, AccountsPackageKind, SnapshotKind,
};

verus! {

/// Which kind of Merkle accounts hash was calculated.
#[derive(Clone, Copy, Debug, PartialEq, Eq)]
pub enum AccountsHashKind {
    Full(AccountsHash),
    Incremental(IncrementalAccountsHash),
}

/// The accounts hash of a package: a Merkle accounts hash, or none under the
/// lattice scheme, whose hash is produced elsewhere.
#[derive(Clone, Copy, Debug, PartialEq, Eq)]
pub enum MerkleOrLatticeAccountsHash {
    Merkle(AccountsHashKind),
    Lattice,
}

/// What an incremental snapshot records of the full snapshot it is based on
/// and of its own accounts hash.
#[derive(Clone, Copy, Debug, PartialEq, Eq)]
pub struct BankIncrementalSnapshotPersistence {
    pub full_slot: u64,
    pub full_hash: AccountsHash,
    pub full_capitalization: u64,
    pub incremental_hash: IncrementalAccountsHash,
    pub incremental_capitalization: u64,
}

/// The accounts hash calculation that a package needs.
#[derive(Clone, Debug, PartialEq, Eq)]
pub enum AccountsHashCalculation {
    /// Lattice scheme: nothing to calculate.
    Skip,
    /// A full accounts hash over all the package's storages.
    Full,
    /// An incremental accounts hash over the storages (given by their index in
    /// the package) for slots after the base slot, whose full accounts hash and
    /// capitalization are given.
    Incremental {
        base_slot: u64,
        base_accounts_hash: AccountsHash,
        base_capitalization: u64,
        storage_indices: Vec<usize>,
    },
}

/// Why an accounts package could not be hashed.
#[derive(Clone, Copy, Debug, PartialEq, Eq)]
pub enum AccountsHashError {
    /// No full accounts hash is recorded for the base slot of an incremental snapshot.
    MissingBaseAccountsHash { base_slot: u64 },
    /// The calculated lamports differ from the package's expected capitalization.
    CapitalizationMismatch { expected_capitalization: u64, calculated_capitalization: u64 },
    /// The calculated full accounts hash differs from the one the package gives.
    AccountsHashMismatch { expected_hash: AccountsHash, calculated_hash: AccountsHash },
}

/// A package handed on to the snapshot packager.
#[derive(Clone, Debug, PartialEq, Eq)]
pub struct SnapshotPackage {
    pub snapshot_kind: SnapshotKind,
    pub slot: u64,
    pub block_height: u64,
    pub accounts_hash: MerkleOrLatticeAccountsHash,
    pub bank_incremental_snapshot_persistence: Option<BankIncrementalSnapshotPersistence>,
}

/// The indices of the storages whose slot is after `base_slot`, in order.
pub open spec fn storage_indices_after(slots: Seq<u64>, base_slot: u64) -> Seq<usize>
    decreases slots.len(),
{
    if slots.len() == 0 {
        Seq::empty()
    } else {
        let before = storage_indices_after(slots.drop_last(), base_slot);
        if slots.last() > base_slot {
            before.push((slots.len() - 1) as usize)
        } else {
            before
        }
    }
}

/// The base slot of an incremental snapshot kind.
pub open spec fn incremental_base(kind: AccountsPackageKind) -> Option<u64> {
    match kind {
        AccountsPackageKind::Snapshot(SnapshotKind::IncrementalSnapshot(base)) => Some(base),
        _ => None,
    }
}

/// The indices of the storages whose slot is after `base_slot`, in order.
fn storages_after(slots: &Vec<u64>, base_slot: u64) -> (r: Vec<usize>)
    ensures
        r@ == storage_indices_after(slots@, base_slot),
{
    let mut r: Vec<usize> = Vec::new();
    let mut i: usize = 0;
    while i < slots.len()
        invariant
            i <= slots@.len(),
            r@ == storage_indices_after(slots@.subrange(0, i as int), base_slot),
        decreases slots@.len() - i,
    {
        assert(slots@.subrange(0, i + 1).drop_last() =~= slots@.subrange(0, i as int));
        if slots[i] > base_slot {
            r.push(i);
        }
        i = i + 1;
    }
    assert(slots@.subrange(0, i as int) =~= slots@);
    r
}

/// Decides which accounts hash calculation a package needs.
///
/// Under the lattice scheme there is nothing to calculate. A full snapshot
/// needs a full accounts hash. An incremental snapshot needs the full accounts
/// hash of its base slot, which must be recorded in `accounts_hashes`, and an
/// incremental accounts hash over its storages for slots after the base slot.
pub fn plan_accounts_hash_calculation(
    accounts_package: &AccountsPackage,
    accounts_hashes: &AccountsHashes,
) -> (r: Result<AccountsHashCalculation, AccountsHashError>)
    requires
        accounts_package.accounts_hash_algorithm is Lattice || accounts_package.package_kind is Snapshot,
    ensures
        accounts_package.accounts_hash_algorithm is Lattice ==> r == Ok::<
            AccountsHashCalculation,
            AccountsHashError,
        >(AccountsHashCalculation::Skip),
        accounts_package.accounts_hash_algorithm is Merkle && accounts_package.package_kind
            == AccountsPackageKind::Snapshot(SnapshotKind::FullSnapshot) ==> r == Ok::<
            AccountsHashCalculation,
            AccountsHashError,
        >(AccountsHashCalculation::Full),
        accounts_package.accounts_hash_algorithm is Merkle && incremental_base(
            accounts_package.package_kind,
        ) is Some ==> {
            let base = incremental_base(accounts_package.package_kind)->0;
            &&& r is Ok <==> accounts_hashes.full_view().contains_key(base)
            &&& r is Err ==> r == Err::<AccountsHashCalculation, AccountsHashError>(
                AccountsHashError::MissingBaseAccountsHash { base_slot: base },
            )
            &&& r is Ok ==> r->Ok_0 is Incremental
            &&& r matches Ok(
                AccountsHashCalculation::Incremental {
                    base_slot,
                    base_accounts_hash,
                    base_capitalization,
                    storage_indices,
                },
            ) ==> base_slot == base && accounts_hashes.full_view()[base] == (
                base_accounts_hash.0,
                base_capitalization,
            ) && storage_indices@ == storage_indices_after(
                accounts_package.snapshot_storage_slots@,
                base,
            )
        },
{
    match accounts_package.accounts_hash_algorithm {
        AccountsHashAlgorithm::Lattice => {
            return Ok(AccountsHashCalculation::Skip);
        },
        AccountsHashAlgorithm::Merkle => {},
    }
    match accounts_package.package_kind {
        AccountsPackageKind::Snapshot(SnapshotKind::IncrementalSnapshot(base_slot)) => {
            match accounts_hashes.get_accounts_hash(base_slot) {
                Some((base_accounts_hash, base_capitalization)) => {
                    let storage_indices = storages_after(
                        &accounts_package.snapshot_storage_slots,
                        base_slot,
                    );
                    Ok(
                        AccountsHashCalculation::Incremental {
                            base_slot,
                            base_accounts_hash,
                            base_capitalization,
                            storage_indices,
                        },
                    )
                },
                None => Err(AccountsHashError::MissingBaseAccountsHash { base_slot }),
            }
        },
        _ => Ok(AccountsHashCalculation::Full),
    }
}

fn hashes_equal(a: &[u8; 32], b: &[u8; 32]) -> (r: bool)
    ensures
        r == (a@ == b@),
{
    let mut i: usize = 0;
    while i < 32
        invariant
            i <= 32,
            forall|j: int| 0 <= j < i ==> a@[j] == b@[j],
        decreases 32 - i,
    {
        if a[i] != b[i] {
            return false;
        }
        i = i + 1;
    }
    assert(a@ =~= b@);
    true
}

/// What checking a calculated full accounts hash gives.
pub open spec fn full_hash_outcome(
    accounts_package: AccountsPackage,
    accounts_hash: AccountsHash,
    lamports: u64,
) -> Result<MerkleOrLatticeAccountsHash, AccountsHashError> {
    if lamports != accounts_package.expected_capitalization {
        Err(
            AccountsHashError::CapitalizationMismatch {
                expected_capitalization: accounts_package.expected_capitalization,
                calculated_capitalization: lamports,
            },
        )
    } else if accounts_package.accounts_hash_for_testing is Some && (accounts_package.accounts_hash_for_testing->0).0@
        != accounts_hash.0@ {
        Err(
            AccountsHashError::AccountsHashMismatch {
                expected_hash: accounts_package.accounts_hash_for_testing->0,
                calculated_hash: accounts_hash,
            },
        )
    } else {
        Ok(MerkleOrLatticeAccountsHash::Merkle(AccountsHashKind::Full(accounts_hash)))
    }
}

/// Records the full accounts hash calculated for a package at its slot, and
/// checks it: the calculated lamports must equal the package's expected
/// capitalization, and the hash must equal the one the package gives, if any.
pub fn update_full_accounts_hash(
    accounts_package: &AccountsPackage,
    accounts_hashes: &mut AccountsHashes,
    accounts_hash: AccountsHash,
    lamports: u64,
) -> (r: Result<MerkleOrLatticeAccountsHash, AccountsHashError>)
    ensures
        final(accounts_hashes).full_view() == old(accounts_hashes).full_view().insert(
            accounts_package.slot,
            (accounts_hash.0, lamports),
        ),
        final(accounts_hashes).incremental_view() == old(accounts_hashes).incremental_view(),
        r == full_hash_outcome(*accounts_package, accounts_hash, lamports),
        r is Ok ==> lamports == accounts_package.expected_capitalization,
{
    accounts_hashes.set_accounts_hash(accounts_package.slot, (accounts_hash, lamports));
    if lamports != accounts_package.expected_capitalization {
        return Err(
            AccountsHashError::CapitalizationMismatch {
                expected_capitalization: accounts_package.expected_capitalization,
                calculated_capitalization: lamports,
            },
        );
    }
    match accounts_package.accounts_hash_for_testing {
        Some(expected_hash) => {
            if !hashes_equal(&expected_hash.0, &accounts_hash.0) {
                return Err(
                    AccountsHashError::AccountsHashMismatch {
                        expected_hash,
                        calculated_hash: accounts_hash,
                    },
                );
            }
        },
        None => {},
    }
    Ok(MerkleOrLatticeAccountsHash::Merkle(AccountsHashKind::Full(accounts_hash)))
}

/// Records the incremental accounts hash calculated for a package at its
/// slot, and assembles what the incremental snapshot records of its base
/// full snapshot and of itself.
pub fn update_incremental_accounts_hash(
    accounts_package: &AccountsPackage,
    accounts_hashes: &mut AccountsHashes,
    base_slot: u64,
    base_accounts_hash: AccountsHash,
    base_capitalization: u64,
    incremental_accounts_hash: IncrementalAccountsHash,
    incremental_capitalization: u64,
) -> (r: (MerkleOrLatticeAccountsHash, BankIncrementalSnapshotPersistence))
    ensures
        final(accounts_hashes).incremental_view() == old(accounts_hashes).incremental_view().insert(
            accounts_package.slot,
            (incremental_accounts_hash.0, incremental_capitalization),
        ),
        final(accounts_hashes).full_view() == old(accounts_hashes).full_view(),
        r.0 == MerkleOrLatticeAccountsHash::Merkle(
            AccountsHashKind::Incremental(incremental_accounts_hash),
        ),
        r.1 == (BankIncrementalSnapshotPersistence {
            full_slot: base_slot,
            full_hash: base_accounts_hash,
            full_capitalization: base_capitalization,
            incremental_hash: incremental_accounts_hash,
            incremental_capitalization,
        }),
{
    accounts_hashes.set_incremental_accounts_hash(
        accounts_package.slot,
        (incremental_accounts_hash, incremental_capitalization),
    );
    let persistence = BankIncrementalSnapshotPersistence {
        full_slot: base_slot,
        full_hash: base_accounts_hash,
        full_capitalization: base_capitalization,
        incremental_hash: incremental_accounts_hash,
        incremental_capitalization,
    };
    (MerkleOrLatticeAccountsHash::Merkle(AccountsHashKind::Incremental(incremental_accounts_hash)), persistence)
}

/// Whether old accounts hashes are to be forgotten after handling a package
/// of kind `kind`: always when snapshots are not generated, and otherwise
/// only after a full snapshot, since the incremental snapshots that follow
/// need its hash.
pub open spec fn should_purge(should_generate_snapshots: bool, kind: AccountsPackageKind) -> bool {
    !should_generate_snapshots || kind == AccountsPackageKind::Snapshot(SnapshotKind::FullSnapshot)
}

/// The accounts hashes `m` once a package of kind `kind` at `slot` is handled.
pub open spec fn curated<V>(
    m: Map<u64, V>,
    should_generate_snapshots: bool,
    kind: AccountsPackageKind,
    slot: u64,
) -> Map<u64, V> {
    if should_purge(should_generate_snapshots, kind) {
        purged(m, slot)
    } else {
        m
    }
}

/// Decides whether old accounts hashes are to be forgotten after handling a
/// package of kind `kind`.
pub fn should_purge_old_accounts_hashes(
    should_generate_snapshots: bool,
    kind: AccountsPackageKind,
) -> (r: bool)
    ensures
        r == should_purge(should_generate_snapshots, kind),
{
    match (should_generate_snapshots, kind) {
        (false, _) => true,
        (true, AccountsPackageKind::Snapshot(SnapshotKind::FullSnapshot)) => true,
        (true, _) => false,
    }
}

/// After handling a package, forgets the accounts hashes for slots before the
/// package's slot when `should_purge` says so.
pub fn purge_old_accounts_hashes(
    accounts_package: &AccountsPackage,
    should_generate_snapshots: bool,
    accounts_hashes: &mut AccountsHashes,
)
    ensures
        final(accounts_hashes).full_view() == curated(
            old(accounts_hashes).full_view(),
            should_generate_snapshots,
            accounts_package.package_kind,
            accounts_package.slot,
        ),
        final(accounts_hashes).incremental_view() == curated(
            old(accounts_hashes).incremental_view(),
            should_generate_snapshots,
            accounts_package.package_kind,
            accounts_package.slot,
        ),
{
    if should_purge_old_accounts_hashes(should_generate_snapshots, accounts_package.package_kind) {
        accounts_hashes.purge_old_accounts_hashes(accounts_package.slot);
    }
}

/// The snapshot package made of a handled accounts package.
pub open spec fn snapshot_package_of(
    accounts_package: AccountsPackage,
    snapshot_kind: SnapshotKind,
    accounts_hash: MerkleOrLatticeAccountsHash,
    bank_incremental_snapshot_persistence: Option<BankIncrementalSnapshotPersistence>,
) -> SnapshotPackage {
    SnapshotPackage {
        snapshot_kind,
        slot: accounts_package.slot,
        block_height: accounts_package.block_height,
        accounts_hash,
        bank_incremental_snapshot_persistence,
    }
}

/// Hands a handled snapshot accounts package on to the snapshot packager by
/// appending it to `pending_snapshot_packages`; any other package is not
/// handed on.
pub fn submit_for_packaging(
    accounts_package: &AccountsPackage,
    pending_snapshot_packages: &mut Vec<SnapshotPackage>,
    accounts_hash: MerkleOrLatticeAccountsHash,
    bank_incremental_snapshot_persistence: Option<BankIncrementalSnapshotPersistence>,
)
    ensures
        accounts_package.package_kind matches AccountsPackageKind::Snapshot(snapshot_kind)
            ==> final(pending_snapshot_packages)@ == old(pending_snapshot_packages)@.push(
            snapshot_package_of(
                *accounts_package,
                snapshot_kind,
                accounts_hash,
                bank_incremental_snapshot_persistence,
            ),
        ),
        accounts_package.package_kind is EpochAccountsHash ==> final(pending_snapshot_packages)@
            == old(pending_snapshot_packages)@,
{
    match accounts_package.package_kind {
        AccountsPackageKind::Snapshot(snapshot_kind) => {
            pending_snapshot_packages.push(
                SnapshotPackage {
                    snapshot_kind,
                    slot: accounts_package.slot,
                    block_height: accounts_package.block_height,
                    accounts_hash,
                    bank_incremental_snapshot_persistence,
                },
            );
        },
        AccountsPackageKind::EpochAccountsHash => {},
    }
}

/// Finishes handling a package whose accounts hash was calculated: forgets
/// the old accounts hashes when `should_purge` says so, and then hands the
/// package on to the snapshot packager.
pub fn process_accounts_package(
    accounts_package: &AccountsPackage,
    accounts_hashes: &mut AccountsHashes,
    pending_snapshot_packages: &mut Vec<SnapshotPackage>,
    should_generate_snapshots: bool,
    accounts_hash: MerkleOrLatticeAccountsHash,
    bank_incremental_snapshot_persistence: Option<BankIncrementalSnapshotPersistence>,
)
    ensures
        final(accounts_hashes).full_view() == curated(
            old(accounts_hashes).full_view(),
            should_generate_snapshots,
            accounts_package.package_kind,
            accounts_package.slot,
        ),
        final(accounts_hashes).incremental_view() == curated(
            old(accounts_hashes).incremental_view(),
            should_generate_snapshots,
            accounts_package.package_kind,
            accounts_package.slot,
        ),
        accounts_package.package_kind matches AccountsPackageKind::Snapshot(snapshot_kind)
            ==> final(pending_snapshot_packages)@ == old(pending_snapshot_packages)@.push(
            snapshot_package_of(
                *accounts_package,
                snapshot_kind,
                accounts_hash,
                bank_incremental_snapshot_persistence,
            ),
        ),
        accounts_package.package_kind is EpochAccountsHash ==> final(pending_snapshot_packages)@
            == old(pending_snapshot_packages)@,
{
    purge_old_accounts_hashes(accounts_package, should_generate_snapshots, accounts_hashes);
    submit_for_packaging(
        accounts_package,
        pending_snapshot_packages,
        accounts_hash,
        bank_incremental_snapshot_persistence,
    );
}

/// Handling the same package twice forgets no more accounts hashes than
/// handling it once.
pub proof fn lemma_purge_idempotent<V>(
    m: Map<u64, V>,
    should_generate_snapshots: bool,
    kind: AccountsPackageKind,
    slot: u64,
)
    ensures
        curated(curated(m, should_generate_snapshots, kind, slot), should_generate_snapshots, kind, slot)
            == curated(m, should_generate_snapshots, kind, slot),
{
    assert(purged(purged(m, slot), slot) =~= purged(m, slot));
}

/// The accounts hashes `m` once packages are handled in turn, each given by
/// whether snapshots were being generated, its kind and its slot.
pub open spec fn curated_all<V>(
    m: Map<u64, V>,
    handled: Seq<(bool, AccountsPackageKind, u64)>,
) -> Map<u64, V>
    decreases handled.len(),
{
    if handled.len() == 0 {
        m
    } else {
        let (should_generate_snapshots, kind, slot) = handled.last();
        curated(curated_all(m, handled.drop_last()), should_generate_snapshots, kind, slot)
    }
}

/// A hash recorded for a slot is read back unchanged after any number of
/// packages are handled, as long as none of them forgot hashes from a slot
/// later than that one.
pub proof fn lemma_hash_survives_handling<V>(
    m: Map<u64, V>,
    slot: u64,
    value: V,
    handled: Seq<(bool, AccountsPackageKind, u64)>,
)
    requires
        m.contains_key(slot),
        m[slot] == value,
        forall|i: int|
            0 <= i < handled.len() && should_purge(handled[i].0, handled[i].1) ==> #[trigger] handled[i].2
                <= slot,
    ensures
        curated_all(m, handled).contains_key(slot),
        curated_all(m, handled)[slot] == value,
    decreases handled.len(),
{
    if handled.len() > 0 {
        let rest = handled.drop_last();
        assert forall|i: int|
            0 <= i < rest.len() && should_purge(rest[i].0, rest[i].1) implies #[trigger] rest[i].2
            <= slot by {
            assert(rest[i] == handled[i]);
        }
        lemma_hash_survives_handling(m, slot, value, rest);
        let last = handled.last();
        assert(handled[handled.len() - 1] == last);
    }
}

/// A full accounts hash that was recorded for a slot is the one read back
/// for that slot.
pub proof fn lemma_accounts_hash_round_trip(
    before: AccountsHashes,
    after: AccountsHashes,
    slot: u64,
    accounts_hash: AccountsHash,
    capitalization: u64,
)
    requires
        after.full_view() == before.full_view().insert(slot, (accounts_hash.0, capitalization)),
    ensures
        after.full_view().contains_key(slot),
        after.full_view()[slot] == (accounts_hash.0, capitalization),
{
}

} // verus!
