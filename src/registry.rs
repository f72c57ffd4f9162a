//! The set of owners, each with a public key, and the signing threshold.

use crate::error::WalletError;
use crate::owner_map::{Entries, OwnerMap, bytes_of, has_owner, keys_unique};
use vstd::prelude::*;

verus! {

/// Whether a threshold suits a registry of `n` owners.
pub open spec fn threshold_ok(threshold: nat, n: nat) -> bool {
    1 <= threshold <= n
}

/// Owners with their public keys, and how many of them must sign. Immutable
/// once built.
pub struct OwnerRegistry {
    owners: OwnerMap,
    threshold: usize,
}

impl OwnerRegistry {
    /// The owners with their public keys.
    pub closed spec fn owners(&self) -> Entries {
        self.owners@
    }

    /// The number of valid signatures that authorizes a transaction.
    pub closed spec fn threshold_spec(&self) -> nat {
        self.threshold as nat
    }

    /// The registry's invariant: one key per owner, and a threshold between
    /// one and the number of owners.
    pub open spec fn wf(&self) -> bool {
        &&& keys_unique(self.owners())
        &&& threshold_ok(self.threshold_spec(), self.owners().len())
    }

    /// Builds a registry; fails with `InvalidThreshold` exactly when the
    /// threshold is zero or exceeds the number of owners (so also when there
    /// are no owners).
    pub fn new(owners: OwnerMap, threshold: usize) -> (r: Result<OwnerRegistry, WalletError>)
        requires
            owners.wf(),
        ensures
            r is Ok <==> threshold_ok(threshold as nat, owners@.len()),
            r is Err ==> r == Err::<OwnerRegistry, WalletError>(WalletError::InvalidThreshold),
            r matches Ok(g) ==> g.wf() && g.owners() == owners@ && g.threshold_spec()
                == threshold,
    {
        if threshold < 1 || threshold > owners.len() {
            Err(WalletError::InvalidThreshold)
        } else {
            Ok(OwnerRegistry { owners, threshold })
        }
    }

    /// The public key registered for `owner`, if it is an owner.
    pub fn lookup(&self, owner: &str) -> (r: Option<&Vec<u8>>)
        requires
            self.wf(),
        ensures
            r is None <==> !has_owner(self.owners(), owner@),
            r matches Some(k) ==> k@ == bytes_of(self.owners(), owner@),
    {
        self.owners.get(owner)
    }

    /// Whether `owner` is registered.
    pub fn is_owner(&self, owner: &str) -> (r: bool)
        ensures
            r == has_owner(self.owners(), owner@),
    {
        self.owners.contains(owner)
    }

    /// The signing threshold.
    pub fn threshold(&self) -> (r: usize)
        ensures
            r == self.threshold_spec(),
    {
        self.threshold
    }

    /// The number of owners.
    pub fn owner_count(&self) -> (r: usize)
        ensures
            r == self.owners().len(),
    {
        self.owners.len()
    }

    /// The owner table.
    pub fn owner_table(&self) -> (r: &OwnerMap)
        ensures
            r@ == self.owners(),
    {
        &self.owners
    }
}

} // verus!
