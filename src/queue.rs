use vstd::prelude::*;

use crate::package::AccountsPackage;
use crate::selector::{
    eah_count, is_next, lemma_eah_count_bound, re_enqueued, select_next_accounts_package,
    NextAccountsPackageError,
};
use crossbeam_channel::{Receiver, Sender, TrySendError};

verus! {

#[verifier::external_type_specification]
#[verifier::external_body]
#[verifier::reject_recursive_types(T)]
pub struct ExSender<T>(crossbeam_channel::Sender<T>);

#[verifier::external_type_specification]
#[verifier::external_body]
#[verifier::reject_recursive_types(T)]
pub struct ExReceiver<T>(crossbeam_channel::Receiver<T>);

#[verifier::external_type_specification]
#[verifier::external_body]
#[verifier::reject_recursive_types(T)]
pub struct ExTrySendError<T>(crossbeam_channel::TrySendError<T>);

/// Relies on crossbeam_channel::Sender::try_send, which sends without
/// blocking and fails when the channel is full or disconnected: whether it
/// succeeds depends on the channel's state, so nothing is promised.
pub assume_specification<T>[ crossbeam_channel::Sender::<T>::try_send ](
    sender: &crossbeam_channel::Sender<T>,
    msg: T,
) -> Result<(), crossbeam_channel::TrySendError<T>>;

/// Relies on crossbeam_channel::Receiver::try_iter: takes, without blocking,
/// the messages that are in the channel. Which ones those are depends on the
/// other threads, so nothing is promised of them.
#[verifier::external_body]
fn drain_available(receiver: &Receiver<AccountsPackage>) -> (r: Vec<AccountsPackage>) {
    receiver.try_iter().collect()
}

/// Takes every accounts package waiting in the channel, picks the one to
/// handle next (see `select_next_accounts_package`), sends the ones for later
/// slots back into the channel in their order, and drops the rest.
///
/// Returns `None` when the channel held no package; otherwise the package to
/// handle, the number of packages taken and the number sent back. Fails as
/// `select_next_accounts_package` does on the packages taken, and with
/// `ReEnqueueFailed` when one cannot be sent back.
pub fn get_next_accounts_package(
    accounts_package_sender: &Sender<AccountsPackage>,
    accounts_package_receiver: &Receiver<AccountsPackage>,
) -> (r: Result<Option<(AccountsPackage, usize, usize)>, NextAccountsPackageError>)
    ensures
        r matches Ok(Some((accounts_package, num_outstanding, num_re_enqueued))) ==> exists|
            s: Seq<AccountsPackage>,
            k: int,
        |
            #![trigger is_next(s, k)]
            s.len() == num_outstanding && 0 <= k < s.len() && s[k] == accounts_package && is_next(
                s,
                k,
            ) && num_re_enqueued == re_enqueued(s, k).len() && eah_count(s) <= 1,
        r matches Err(NextAccountsPackageError::TooManyEpochAccountsHashPackages(count)) ==> exists|
            s: Seq<AccountsPackage>,
        | #[trigger] eah_count(s) == count && count >= 2 && s.len() >= 2,
{
    let accounts_packages = drain_available(accounts_package_receiver);
    let num_outstanding = accounts_packages.len();
    let ghost s = accounts_packages@;
    proof {
        lemma_eah_count_bound(s);
    }
    match select_next_accounts_package(accounts_packages) {
        Err(e) => Err(e),
        Ok(None) => Ok(None),
        Ok(Some((accounts_package, re_enqueue))) => {
            let num_re_enqueued = re_enqueue.len();
            let mut re_enqueue = re_enqueue;
            while re_enqueue.len() > 0
                decreases re_enqueue@.len(),
            {
                let package = re_enqueue.remove(0);
                match accounts_package_sender.try_send(package) {
                    Ok(()) => {},
                    Err(_) => {
                        return Err(NextAccountsPackageError::ReEnqueueFailed);
                    },
                }
            }
            Ok(Some((accounts_package, num_outstanding, num_re_enqueued)))
        },
    }
}

} // verus!
