//! The failures a synchronization pass can end with.

use vstd::prelude::*;

verus! {

/// Why a synchronization pass, or a step of it, did not succeed.
#[derive(Debug, PartialEq, Eq)]
pub enum InstanceError {
    /// The manifest could not be reached.
    NetworkError,
    /// The manifest is not of the expected shape.
    ManifestParseError,
    /// A directory of the local store could not be created.
    FolderCreationFailed,
    /// A file of the local store could not be written.
    FileCreationFailed,
    /// A package coordinate has fewer than three colon-separated segments.
    CoordinateParseError,
    /// A relative path could not be joined onto the base address of a source.
    SourceResolutionError,
    /// An archive could not be read or unpacked; the text is the failure as reported.
    ExtractionError(String),
    /// The digest of a local file differs from the expected one.
    HashVerificationError,
}

impl Clone for InstanceError {
    fn clone(&self) -> (copy: Self)
        ensures
            copy == *self,
    {
        match self {
            InstanceError::NetworkError => InstanceError::NetworkError,
            InstanceError::ManifestParseError => InstanceError::ManifestParseError,
            InstanceError::FolderCreationFailed => InstanceError::FolderCreationFailed,
            InstanceError::FileCreationFailed => InstanceError::FileCreationFailed,
            InstanceError::CoordinateParseError => InstanceError::CoordinateParseError,
            InstanceError::SourceResolutionError => InstanceError::SourceResolutionError,
            InstanceError::ExtractionError(report) => InstanceError::ExtractionError(
                report.clone(),
            ),
            InstanceError::HashVerificationError => InstanceError::HashVerificationError,
        }
    }
}

} // verus!
