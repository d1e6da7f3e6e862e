use vstd::prelude::*;

verus! {

/// The kind of snapshot an accounts package is for.
#[derive(Clone, Copy, Debug, PartialEq, Eq, Structural)]
pub enum SnapshotKind {
    FullSnapshot,
    /// An incremental snapshot on top of the full snapshot at the given base slot.
    IncrementalSnapshot(u64),
}

/// What an accounts package is to be used for.
#[derive(Clone, Copy, Debug, PartialEq, Eq, Structural)]
pub enum AccountsPackageKind {
    EpochAccountsHash,
    Snapshot(SnapshotKind),
}

/// Which accounts hash scheme is in force for a package.
#[derive(Clone, Copy, Debug, PartialEq, Eq, Structural)]
pub enum AccountsHashAlgorithm {
    Merkle,
    Lattice,
}

/// A 32-byte accounts hash.
#[derive(Clone, Copy, Debug, PartialEq, Eq)]
pub struct AccountsHash(pub [u8; 32]);

#[verifier::external_type_specification]
#[verifier::external_body]
pub struct ExInstant(std::time::Instant);

/// A unit of work emitted by the bank pipeline: the accounts state at a slot,
/// ready for hashing.
#[derive(Debug)]
pub struct AccountsPackage {
    pub package_kind: AccountsPackageKind,
    pub slot: u64,
    pub block_height: u64,
    /// The slot of each storage in the package, in the package's order.
    pub snapshot_storage_slots: Vec<u64>,
    /// The lamports that the accounts in the package must sum to.
    pub expected_capitalization: u64,
    /// A hash the full accounts hash must equal, where one is given.
    pub accounts_hash_for_testing: Option<AccountsHash>,
    pub accounts_hash_algorithm: AccountsHashAlgorithm,
    /// When the package was emitted.
    pub enqueued: std::time::Instant,
}

/// The rank of a package kind: epoch accounts hash above full snapshot above
/// incremental snapshot.
pub open spec fn kind_rank(kind: AccountsPackageKind) -> int {
    match kind {
        AccountsPackageKind::EpochAccountsHash => 2,
        AccountsPackageKind::Snapshot(SnapshotKind::FullSnapshot) => 1,
        AccountsPackageKind::Snapshot(SnapshotKind::IncrementalSnapshot(_)) => 0,
    }
}

/// The base slot of an incremental snapshot kind, and zero for the others.
pub open spec fn base_slot_of(kind: AccountsPackageKind) -> int {
    match kind {
        AccountsPackageKind::Snapshot(SnapshotKind::IncrementalSnapshot(base)) => base as int,
        _ => 0,
    }
}

/// The priority order on packages, compared lexicographically: kind rank,
/// then slot, then (for incremental snapshots) base slot.
pub open spec fn priority_cmp(a: AccountsPackage, b: AccountsPackage) -> std::cmp::Ordering {
    if kind_rank(a.package_kind) != kind_rank(b.package_kind) {
        if kind_rank(a.package_kind) < kind_rank(b.package_kind) {
            std::cmp::Ordering::Less
        } else {
            std::cmp::Ordering::Greater
        }
    } else if a.slot != b.slot {
        if a.slot < b.slot {
            std::cmp::Ordering::Less
        } else {
            std::cmp::Ordering::Greater
        }
    } else if base_slot_of(a.package_kind) != base_slot_of(b.package_kind) {
        if base_slot_of(a.package_kind) < base_slot_of(b.package_kind) {
            std::cmp::Ordering::Less
        } else {
            std::cmp::Ordering::Greater
        }
    } else {
        std::cmp::Ordering::Equal
    }
}

/// `a` has no higher priority than `b`.
pub open spec fn priority_le(a: AccountsPackage, b: AccountsPackage) -> bool {
    priority_cmp(a, b) != std::cmp::Ordering::Greater
}

fn kind_rank_exec(kind: AccountsPackageKind) -> (r: u8)
    ensures
        r as int == kind_rank(kind),
{
    match kind {
        AccountsPackageKind::EpochAccountsHash => 2,
        AccountsPackageKind::Snapshot(SnapshotKind::FullSnapshot) => 1,
        AccountsPackageKind::Snapshot(SnapshotKind::IncrementalSnapshot(_)) => 0,
    }
}

fn base_slot_exec(kind: AccountsPackageKind) -> (r: u64)
    ensures
        r as int == base_slot_of(kind),
{
    match kind {
        AccountsPackageKind::Snapshot(SnapshotKind::IncrementalSnapshot(base)) => base,
        _ => 0,
    }
}

/// Compares two accounts packages by priority: by kind (epoch accounts hash,
/// then full snapshot, then incremental snapshot), then by slot, then by the
/// base slot of an incremental snapshot.
pub fn cmp_accounts_packages_by_priority(a: &AccountsPackage, b: &AccountsPackage) -> (r:
    std::cmp::Ordering)
    ensures
        r == priority_cmp(*a, *b),
{
    let rank_a = kind_rank_exec(a.package_kind);
    let rank_b = kind_rank_exec(b.package_kind);
    if rank_a != rank_b {
        if rank_a < rank_b {
            std::cmp::Ordering::Less
        } else {
            std::cmp::Ordering::Greater
        }
    } else if a.slot != b.slot {
        if a.slot < b.slot {
            std::cmp::Ordering::Less
        } else {
            std::cmp::Ordering::Greater
        }
    } else {
        let base_a = base_slot_exec(a.package_kind);
        let base_b = base_slot_exec(b.package_kind);
        if base_a != base_b {
            if base_a < base_b {
                std::cmp::Ordering::Less
            } else {
                std::cmp::Ordering::Greater
            }
        } else {
            std::cmp::Ordering::Equal
        }
    }
}

} // verus!
