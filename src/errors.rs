//! The library's error kinds.
use vstd::prelude::*;

verus! {

/// Failures of taxon lookups, the caches and the name verifier.
#[derive(Debug)]
pub enum TaxonomyError {
    /// The transport failed.
    NetworkError(String),
    /// A response body could not be decoded.
    DecodeError(String),
    /// No taxon matched the name or id in the message.
    NotFound(String),
    /// The cache missed while operating offline.
    OfflineMode,
    /// The local store failed.
    CacheError(String),
    /// A batch lookup was asked for no ids.
    InvalidArgument,
    /// The verifier matched a name but returned no result for it.
    InconsistentUpstreamResponse(String),
}

/// Failures of coordinate conversion and reverse geocoding.
#[derive(Debug, Clone, Copy, PartialEq, Eq, Structural)]
pub enum GeocodingError {
    GoogleMaps,
    InvalidLatitude,
    InvalidLongitude,
    InvalidGps,
}

/// Failures to resolve a path.
#[derive(Debug)]
pub enum PathError {
    /// The path could not be resolved; the message says why.
    Canonicalize(String),
    /// The user's data directory could not be detected.
    DataDir,
    /// The file or directory is not accessible.
    Inaccessible(String),
}

/// Failures to find a folder on a device's storage.
#[derive(Debug)]
pub enum MtpStorageError {
    FolderNotFound(String),
}

} // verus!
