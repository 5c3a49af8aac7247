//! Errors of the synchronisation engine.
use vstd::prelude::*;

verus! {

/// What can go wrong while synchronising.
#[derive(Debug, Clone)]
pub enum Error {
    /// The local package state could not be enumerated.
    FlatpakInstallationQueryFailure(String),
    /// A scope tag other than `user` or `default`.
    InvalidFlatpakInstallationKind(String),
    /// A scope that the snapshot or the live state lacks.
    FlatpakNoSuchInstallation,
    /// The local cache file could not be read or written.
    FlatpakInstallationFileFailure(String),
    /// Installing a reference failed: the reference and the reason.
    FlatpakInstallationFailed(String, String),
    /// Uninstalling a reference failed: the reference and the reason.
    FlatpakUninstallationFailed(String, String),
    /// Adding a repository failed: its name and the reason.
    FlatpakRemoteAddFailed(String, String),
    /// Refreshing a freshly added repository failed: its name and the reason.
    FlatpakRemoteRefreshFailed(String, String),
    /// A package-manager transaction failed.
    FlatpakTransactionFailure(String),
    /// A remote snapshot is already bound, under this identifier.
    GistAlreadyInitialized(String),
    /// No remote snapshot has been created or configured yet.
    GistIdMissing,
    /// The secret store holds no credential for the remote store.
    KeychainEntryNotFound,
    /// The remote blob lacks the snapshot file.
    MissingGistFiles,
    /// A network call to the remote store failed.
    HttpFailure(String),
}

} // verus!
