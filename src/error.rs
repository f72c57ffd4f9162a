//! Errors of the wallet's operations.

use crate::crypto::BackendError;
use vstd::prelude::*;

verus! {

/// Why a wallet operation failed.
#[derive(Debug, Clone, Copy, PartialEq, Eq, Structural)]
pub enum WalletError {
    /// The threshold is not between one and the number of owners.
    InvalidThreshold,
    /// The contributor is not a registered owner.
    UnknownOwner,
    /// The signing backend failed; the backend's own error is kept.
    BackendFailure(BackendError),
    /// The backend produced a signature that does not verify under the
    /// owner's public key.
    SignatureRejected,
    /// Persisted wallet state is malformed or inconsistent.
    SerializationFailure,
}

} // verus!
