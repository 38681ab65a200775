//! The upgrade of the storage layout: assignment lists that were written
//! before lists were kept in order are brought into order, once.

use vstd::prelude::*;
use crate::model::STORAGE_VERSION;
use crate::pallet::Pallet;
use crate::stores::sort_lists;

verus! {

/// `work` as far as a `u64` holds it.
pub open spec fn capped(work: nat) -> u64 {
    if work <= u64::MAX {
        work as u64
    } else {
        u64::MAX
    }
}

/// `weight` and `count` together, as far as a `u64` holds them.
fn add_work(weight: u64, count: usize) -> (sum: u64)
    ensures
        sum == capped((weight + count) as nat),
{
    let count = count as u64;
    if count > u64::MAX - weight {
        u64::MAX
    } else {
        weight + count
    }
}

impl Pallet {
    /// The version of the layout that this code writes.
    pub fn current_storage_version() -> (version: u16)
        ensures
            version == STORAGE_VERSION,
    {
        STORAGE_VERSION
    }

    /// The version of the layout that the stores were last brought to.
    pub fn on_chain_storage_version(&self) -> (version: u16)
        ensures
            version == self@.storage_version,
    {
        self.storage_version
    }
}

/// Runs the upgrade of the layout on `pallet`.
pub fn on_runtime_upgrade(pallet: &mut Pallet) -> (weight: u64)
    ensures
        final(pallet)@ == old(pallet)@.migrated(),
        weight == capped(old(pallet)@.migration_work()),
{
    MigrateToV1x::on_runtime_upgrade(pallet)
}

/// The upgrade to the layout in which every assignment list is in ascending
/// natural order, so that it can be searched by bisection.
pub struct MigrateToV1x;

impl MigrateToV1x {
    /// Where the stores are behind the current layout, brings every
    /// assignment list into order and sets the version. Returns the number
    /// of lists that were rewritten.
    pub fn on_runtime_upgrade(pallet: &mut Pallet) -> (weight: u64)
        ensures
            final(pallet)@ == old(pallet)@.migrated(),
            weight == capped(old(pallet)@.migration_work()),
            old(pallet)@.storage_version < STORAGE_VERSION ==> final(pallet)@.assignments_sorted(),
    {
        let target_storage_version = Pallet::current_storage_version();
        let on_chain_storage_version = pallet.on_chain_storage_version();
        let ghost before = pallet@;
        let mut weight: u64 = 0;
        if on_chain_storage_version < target_storage_version {
            let count = sort_lists(&mut pallet.role2user_store);
            weight = add_work(weight, count);
            let count = sort_lists(&mut pallet.role2group_store);
            weight = add_work(weight, count);
            let count = sort_lists(&mut pallet.user2group_store);
            weight = add_work(weight, count);
            let count = sort_lists(&mut pallet.permission2role_store);
            weight = add_work(weight, count);
            pallet.storage_version = target_storage_version;
            assert(pallet@ =~= before.migrated());
        }
        weight
    }
}

} // verus!
