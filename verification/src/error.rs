//! The error taxonomy shared by the adapters, the resolver, the store and
//! the profile reconciler. Adapter- and resolver-level errors surface to the
//! immediate caller unchanged; only the template installer downgrades
//! per-item errors to a skipped-item outcome.

use vstd::prelude::*;

verus! {

/// Everything that can go wrong in the content subsystem.
#[derive(Clone, Copy, Debug, PartialEq, Eq, Structural)]
pub enum LauncherError {
    /// The project or version is absent upstream.
    NotFound,
    /// The resolver found no version matching the constraints.
    NoCompatibleVersion,
    /// The upstream registry forbids redistribution of the file.
    DistributionDisabled,
    /// The downloaded bytes hash differently from the advertised digest.
    HashMismatch,
    /// The network transfer failed.
    DownloadFailed,
    /// Writing the artifact to durable storage failed.
    StoreWriteFailed,
    /// The destination profile id is already taken.
    AlreadyExists,
    /// No profile with the given id exists.
    ProfileNotFound,
}

impl LauncherError {
    /// A short human-readable description of the error.
    pub fn as_str(&self) -> (r: &'static str)
        ensures
            r@.len() > 0,
    {
        proof {
            reveal_strlit("project or version not found");
            reveal_strlit("no compatible version found");
            reveal_strlit("distribution is disabled by the project owner");
            reveal_strlit("downloaded file does not match the advertised hash");
            reveal_strlit("download failed");
            reveal_strlit("failed to write to the content store");
            reveal_strlit("a profile with this id already exists");
            reveal_strlit("profile not found");
        }
        match self {
            LauncherError::NotFound => "project or version not found",
            LauncherError::NoCompatibleVersion => "no compatible version found",
            LauncherError::DistributionDisabled => "distribution is disabled by the project owner",
            LauncherError::HashMismatch => "downloaded file does not match the advertised hash",
            LauncherError::DownloadFailed => "download failed",
            LauncherError::StoreWriteFailed => "failed to write to the content store",
            LauncherError::AlreadyExists => "a profile with this id already exists",
            LauncherError::ProfileNotFound => "profile not found",
        }
    }
}

} // verus!
