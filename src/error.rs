//! The errors of the tiered storage.
use vstd::prelude::*;
use crate::meta::AccountHash;

verus! {

/// What can go wrong while writing or opening a tiered storage file.
#[derive(Debug, PartialEq, Eq)]
pub enum TieredStorageError {
    /// the file system failed, or the file is too short for what it claims
    Io(String),
    /// the file does not end in the magic number (expected, observed)
    MagicNumberMismatch(u64, u64),
    /// `write_accounts` was called on a storage that is already sealed
    AttemptToUpdateReadOnly(String),
    /// the footer's format version is not known to this reader
    UnsupportedVersion(u64),
    /// the footer names a retired or unknown account meta format
    UnsupportedAccountMetaFormat,
    /// the stored content hash differs from the computed one (expected, observed)
    HashMismatch(AccountHash, AccountHash),
    /// more distinct owners than an owner index can address
    OwnerIndexOverflow,
    /// a padding that does not fit its bit field
    PaddingOverflow,
    /// a format variant that this build does not implement
    Unsupported,
}

/// The results of the tiered storage.
pub type TieredStorageResult<T> = Result<T, TieredStorageError>;

} // verus!
