use vstd::prelude::*;

verus! {

/// The kinds of failure that the store, its file format and the unlock
/// protocol report to their caller. None of them carries a secret.
#[derive(Clone, Copy, Debug, PartialEq, Eq, Structural)]
pub enum PasswordError {
    /// The authentication tag did not match: a wrong master password or an altered file.
    WrongMasterPassword,
    /// Every allowed attempt failed.
    CorruptionLikely,
    /// The bytes are not a store that this format describes.
    Corruption,
    /// The file was written by a newer version of the format.
    OutdatedBinary,
    /// The file uses the legacy first version of the format.
    NeedUpgradeFromV1,
    /// The user declined the upgrade of a legacy file.
    NoUpgrade,
    /// An entry with that name (ignoring case) is already stored.
    AppExists,
    /// No entry has that name (ignoring case).
    AppNotFound,
    /// The key derivation parameters are below the recommended strength.
    WeakParams,
    /// A generated password length lies outside the allowed range.
    InvalidLength,
    /// Reading or writing the terminal or the file failed.
    Io,
}

} // verus!
