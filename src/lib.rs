//! Accounts hash verification: selection of the next accounts package to
//! handle, the decisions around hashing it, the record of computed accounts
//! hashes, and the handoff of finished snapshot packages.

pub mod accounts_hashes;
pub mod hashing;
pub mod package;
pub mod queue;
pub mod selector;
pub mod worker;

pub use accounts_hashes::{AccountsHashes, IncrementalAccountsHash};
pub use hashing::{
    plan_accounts_hash_calculation, process_accounts_package, purge_old_accounts_hashes,
    should_purge_old_accounts_hashes, submit_for_packaging, update_full_accounts_hash,
    update_incremental_accounts_hash, AccountsHashCalculation, AccountsHashError, AccountsHashKind,
    BankIncrementalSnapshotPersistence, MerkleOrLatticeAccountsHash, SnapshotPackage,
};
pub use package::{
    cmp_accounts_packages_by_priority, AccountsHash, AccountsHashAlgorithm, AccountsPackage,
    AccountsPackageKind, SnapshotKind,
};
pub use queue::get_next_accounts_package;
pub use selector::{
    count_epoch_accounts_hash_packages, select_next_accounts_package, NextAccountsPackageError,
};
pub use worker::{next_worker_action, WorkerAction, WorkerEvent};
