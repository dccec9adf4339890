use vstd::prelude::*;

use crate::transaction::TransactionError;

verus! {

/// Why an installation failed. Every failure ends the installation.
#[derive(Debug, PartialEq, Eq)]
pub enum InstallerError {
    /// The prefix directory could not be created.
    FailedToCreatePrefix(String),
    /// The installed packages could not be read from the prefix.
    FailedToDetectInstalledPackages(String),
    /// The transaction could not be computed.
    FailedToComputeTransaction(TransactionError),
    /// Setting up before linking failed.
    PreProcessingFailed(String),
    /// Removing the package with this archive file name failed.
    UnlinkError(String),
    /// Fetching the package with this archive file name failed.
    FailedToFetch(String),
    /// Linking the package with this archive file name failed.
    LinkError(String),
    /// Reading or writing package metadata failed; the text says what was done.
    IoError(String),
    /// Work was abandoned before it finished.
    Cancelled,
    /// Finishing up after linking failed.
    PostProcessingFailed(String),
}

} // verus!
