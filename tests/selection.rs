use accounts_hash_verifier::{
    cmp_accounts_packages_by_priority, count_epoch_accounts_hash_packages,
    get_next_accounts_package, select_next_accounts_package, AccountsHashAlgorithm,
    AccountsPackage, AccountsPackageKind, NextAccountsPackageError, SnapshotKind,
};
use rand::seq::SliceRandom;
use std::cmp::Ordering;
use std::time::Instant;

fn new(package_kind: AccountsPackageKind, slot: u64) -> AccountsPackage {
    AccountsPackage {
        package_kind,
        slot,
        block_height: slot,
        snapshot_storage_slots: Vec::new(),
        expected_capitalization: 0,
        accounts_hash_for_testing: None,
        accounts_hash_algorithm: AccountsHashAlgorithm::Merkle,
        enqueued: Instant::now(),
    }
}
fn new_eah(slot: u64) -> AccountsPackage {
    new(AccountsPackageKind::EpochAccountsHash, slot)
}
fn new_fss(slot: u64) -> AccountsPackage {
    new(
        AccountsPackageKind::Snapshot(SnapshotKind::FullSnapshot),
        slot,
    )
}
fn new_iss(slot: u64, base: u64) -> AccountsPackage {
    new(
        AccountsPackageKind::Snapshot(SnapshotKind::IncrementalSnapshot(base)),
        slot,
    )
}

fn slots(packages: &[AccountsPackage]) -> Vec<u64> {
    packages.iter().map(|p| p.slot).collect()
}

/// Unhandled accounts packages for later slots than the handled one are
/// re-enqueued; the others are dropped.
#[test]
fn test_get_next_accounts_package1() {
    let (accounts_package_sender, accounts_package_receiver) = crossbeam_channel::unbounded();

    let mut accounts_packages = [
        new_fss(100), // skipped, since there's another full snapshot with a higher slot
        new_iss(110, 100),
        new_eah(200), // <-- handle 1st
        new_iss(210, 100),
        new_fss(300),
        new_iss(310, 300),
        new_fss(400), // <-- handle 2nd
        new_iss(410, 400),
        new_iss(420, 400), // <-- handle 3rd
    ];
    accounts_packages.shuffle(&mut rand::thread_rng());
    accounts_packages
        .into_iter()
        .for_each(|accounts_package| accounts_package_sender.send(accounts_package).unwrap());

    // The EAH is handled 1st
    let (account_package, _num_outstanding_accounts_packages, num_re_enqueued_accounts_packages) =
        get_next_accounts_package(&accounts_package_sender, &accounts_package_receiver)
            .unwrap()
            .unwrap();
    assert_eq!(
        account_package.package_kind,
        AccountsPackageKind::EpochAccountsHash
    );
    assert_eq!(account_package.slot, 200);
    assert_eq!(num_re_enqueued_accounts_packages, 6);

    // The Full Snapshot from slot 400 is handled 2nd
    let (account_package, _num_outstanding_accounts_packages, num_re_enqueued_accounts_packages) =
        get_next_accounts_package(&accounts_package_sender, &accounts_package_receiver)
            .unwrap()
            .unwrap();
    assert_eq!(
        account_package.package_kind,
        AccountsPackageKind::Snapshot(SnapshotKind::FullSnapshot)
    );
    assert_eq!(account_package.slot, 400);
    assert_eq!(num_re_enqueued_accounts_packages, 2);

    // The Incremental Snapshot from slot 420 is handled 3rd
    let (account_package, _num_outstanding_accounts_packages, num_re_enqueued_accounts_packages) =
        get_next_accounts_package(&accounts_package_sender, &accounts_package_receiver)
            .unwrap()
            .unwrap();
    assert_eq!(
        account_package.package_kind,
        AccountsPackageKind::Snapshot(SnapshotKind::IncrementalSnapshot(400))
    );
    assert_eq!(account_package.slot, 420);
    assert_eq!(num_re_enqueued_accounts_packages, 0);

    // And now the accounts package channel is empty!
    assert!(
        get_next_accounts_package(&accounts_package_sender, &accounts_package_receiver)
            .unwrap()
            .is_none()
    );
}

/// An older full snapshot must be handled before a newer epoch accounts hash.
#[test]
fn test_get_next_accounts_package2() {
    let (accounts_package_sender, accounts_package_receiver) = crossbeam_channel::unbounded();

    let mut accounts_packages = [
        new_fss(100), // <-- handle 1st
        new_iss(110, 100),
        new_eah(200), // <-- handle 2nd
        new_iss(210, 100),
        new_iss(220, 100), // <-- handle 3rd
    ];
    accounts_packages.shuffle(&mut rand::thread_rng());
    accounts_packages
        .into_iter()
        .for_each(|accounts_package| accounts_package_sender.send(accounts_package).unwrap());

    // The Full Snapshot is handled 1st
    let (account_package, _num_outstanding_accounts_packages, num_re_enqueued_accounts_packages) =
        get_next_accounts_package(&accounts_package_sender, &accounts_package_receiver)
            .unwrap()
            .unwrap();
    assert_eq!(
        account_package.package_kind,
        AccountsPackageKind::Snapshot(SnapshotKind::FullSnapshot)
    );
    assert_eq!(account_package.slot, 100);
    assert_eq!(num_re_enqueued_accounts_packages, 4);

    // The EAH is handled 2nd
    let (account_package, _num_outstanding_accounts_packages, num_re_enqueued_accounts_packages) =
        get_next_accounts_package(&accounts_package_sender, &accounts_package_receiver)
            .unwrap()
            .unwrap();
    assert_eq!(
        account_package.package_kind,
        AccountsPackageKind::EpochAccountsHash
    );
    assert_eq!(account_package.slot, 200);
    assert_eq!(num_re_enqueued_accounts_packages, 2);

    // The Incremental Snapshot from slot 220 is handled 3rd
    let (account_package, _num_outstanding_accounts_packages, num_re_enqueued_accounts_packages) =
        get_next_accounts_package(&accounts_package_sender, &accounts_package_receiver)
            .unwrap()
            .unwrap();
    assert_eq!(
        account_package.package_kind,
        AccountsPackageKind::Snapshot(SnapshotKind::IncrementalSnapshot(100))
    );
    assert_eq!(account_package.slot, 220);
    assert_eq!(num_re_enqueued_accounts_packages, 0);

    // And now the accounts package channel is empty!
    assert!(
        get_next_accounts_package(&accounts_package_sender, &accounts_package_receiver)
            .unwrap()
            .is_none()
    );
}

#[test]
fn empty_channel_gives_none() {
    let (sender, receiver) = crossbeam_channel::unbounded::<AccountsPackage>();
    assert!(get_next_accounts_package(&sender, &receiver)
        .unwrap()
        .is_none());
}

#[test]
fn single_package_is_chosen_without_re_enqueue() {
    let (sender, receiver) = crossbeam_channel::unbounded();
    sender.send(new_iss(310, 300)).unwrap();
    let (package, num_outstanding, num_re_enqueued) =
        get_next_accounts_package(&sender, &receiver).unwrap().unwrap();
    assert_eq!(package.slot, 310);
    assert_eq!(num_outstanding, 1);
    assert_eq!(num_re_enqueued, 0);
    assert!(receiver.try_recv().is_err());
}

#[test]
fn two_epoch_accounts_hash_packages_are_refused() {
    let (sender, receiver) = crossbeam_channel::unbounded();
    sender.send(new_eah(100)).unwrap();
    sender.send(new_fss(150)).unwrap();
    sender.send(new_eah(200)).unwrap();
    let result = get_next_accounts_package(&sender, &receiver);
    assert!(matches!(
        result,
        Err(NextAccountsPackageError::TooManyEpochAccountsHashPackages(2))
    ));
}

#[test]
fn re_enqueued_packages_keep_their_order() {
    let (sender, receiver) = crossbeam_channel::unbounded();
    for package in [new_iss(310, 300), new_fss(300), new_iss(330, 300), new_iss(320, 300)] {
        sender.send(package).unwrap();
    }
    let (package, num_outstanding, num_re_enqueued) =
        get_next_accounts_package(&sender, &receiver).unwrap().unwrap();
    assert_eq!(package.slot, 300);
    assert_eq!(num_outstanding, 4);
    assert_eq!(num_re_enqueued, 3);
    let rest: Vec<AccountsPackage> = receiver.try_iter().collect();
    assert_eq!(slots(&rest), vec![310, 330, 320]);
}

#[test]
fn epoch_accounts_hash_wins_over_snapshots() {
    let packages = vec![
        new_fss(100),
        new_iss(110, 100),
        new_eah(200),
        new_iss(210, 100),
        new_fss(300),
        new_iss(310, 300),
        new_fss(400),
        new_iss(410, 400),
        new_iss(420, 400),
    ];
    let (chosen, re_enqueue) = select_next_accounts_package(packages)
        .unwrap()
        .unwrap();
    assert_eq!(chosen.package_kind, AccountsPackageKind::EpochAccountsHash);
    assert_eq!(chosen.slot, 200);
    assert_eq!(slots(&re_enqueue), vec![210, 300, 310, 400, 410, 420]);

    let (chosen, re_enqueue) = select_next_accounts_package(re_enqueue)
        .unwrap()
        .unwrap();
    assert_eq!(
        chosen.package_kind,
        AccountsPackageKind::Snapshot(SnapshotKind::FullSnapshot)
    );
    assert_eq!(chosen.slot, 400);
    assert_eq!(slots(&re_enqueue), vec![410, 420]);

    let (chosen, re_enqueue) = select_next_accounts_package(re_enqueue)
        .unwrap()
        .unwrap();
    assert_eq!(
        chosen.package_kind,
        AccountsPackageKind::Snapshot(SnapshotKind::IncrementalSnapshot(400))
    );
    assert_eq!(chosen.slot, 420);
    assert!(re_enqueue.is_empty());

    assert!(select_next_accounts_package(re_enqueue).unwrap().is_none());
}

#[test]
fn older_full_snapshot_preempts_epoch_accounts_hash() {
    let packages = vec![
        new_fss(100),
        new_iss(110, 100),
        new_eah(200),
        new_iss(210, 100),
        new_iss(220, 100),
    ];
    let (chosen, re_enqueue) = select_next_accounts_package(packages)
        .unwrap()
        .unwrap();
    assert_eq!(
        chosen.package_kind,
        AccountsPackageKind::Snapshot(SnapshotKind::FullSnapshot)
    );
    assert_eq!(chosen.slot, 100);
    assert_eq!(slots(&re_enqueue), vec![110, 200, 210, 220]);

    let (chosen, re_enqueue) = select_next_accounts_package(re_enqueue)
        .unwrap()
        .unwrap();
    assert_eq!(chosen.package_kind, AccountsPackageKind::EpochAccountsHash);
    assert_eq!(chosen.slot, 200);
    assert_eq!(slots(&re_enqueue), vec![210, 220]);

    let (chosen, re_enqueue) = select_next_accounts_package(re_enqueue)
        .unwrap()
        .unwrap();
    assert_eq!(chosen.slot, 220);
    assert!(re_enqueue.is_empty());
}

#[test]
fn newer_full_snapshot_does_not_preempt() {
    let (chosen, re_enqueue) =
        select_next_accounts_package(vec![new_fss(300), new_eah(200), new_iss(250, 100)])
        .unwrap()
        .unwrap();
    assert_eq!(chosen.package_kind, AccountsPackageKind::EpochAccountsHash);
    assert_eq!(slots(&re_enqueue), vec![300, 250]);
}

#[test]
fn partition_of_selection() {
    // chosen, re-enqueued and dropped together are all the packages
    let packages = || {
        vec![
            new_iss(110, 100),
            new_fss(200),
            new_iss(210, 200),
            new_iss(190, 100),
            new_fss(200),
        ]
    };
    let (chosen, re_enqueue) = select_next_accounts_package(packages())
        .unwrap()
        .unwrap();
    assert_eq!(chosen.slot, 200);
    assert!(re_enqueue.iter().all(|p| p.slot > chosen.slot));
    assert_eq!(slots(&re_enqueue), vec![210]);
    let dropped = packages().len() - 1 - re_enqueue.len();
    assert_eq!(dropped, 3);
}

#[test]
fn priority_order() {
    assert_eq!(
        cmp_accounts_packages_by_priority(&new_eah(1), &new_fss(500)),
        Ordering::Greater
    );
    assert_eq!(
        cmp_accounts_packages_by_priority(&new_fss(1), &new_iss(500, 400)),
        Ordering::Greater
    );
    assert_eq!(
        cmp_accounts_packages_by_priority(&new_fss(10), &new_fss(20)),
        Ordering::Less
    );
    assert_eq!(
        cmp_accounts_packages_by_priority(&new_iss(20, 5), &new_iss(20, 10)),
        Ordering::Less
    );
    assert_eq!(
        cmp_accounts_packages_by_priority(&new_iss(30, 5), &new_iss(20, 10)),
        Ordering::Greater
    );
    assert_eq!(
        cmp_accounts_packages_by_priority(&new_iss(20, 10), &new_iss(20, 10)),
        Ordering::Equal
    );
}

#[test]
fn counts_epoch_accounts_hash_packages() {
    assert_eq!(count_epoch_accounts_hash_packages(&vec![]), 0);
    assert_eq!(
        count_epoch_accounts_hash_packages(&vec![new_eah(1), new_fss(2), new_eah(3)]),
        2
    );
}

#[test]
fn select_refuses_two_epoch_accounts_hash_packages() {
    let result = select_next_accounts_package(vec![new_eah(100), new_iss(150, 100), new_eah(200)]);
    assert!(matches!(
        result,
        Err(NextAccountsPackageError::TooManyEpochAccountsHashPackages(2))
    ));
    assert!(select_next_accounts_package(vec![new_eah(100)]).is_ok());
}
