//! The ways in which a scan can fail.

use vstd::prelude::*;

verus! {

/// The configuration could not be resolved.
#[derive(Clone, Copy, Debug, PartialEq, Eq, Structural)]
pub enum ConfigError {
    /// The configuration could not be read.
    Unreadable,
    /// The configuration lacks a key that the engine needs.
    MissingKey,
}

/// The signature database could not be loaded.
#[derive(Clone, Copy, Debug, PartialEq, Eq, Structural)]
pub enum StoreLoadError {
    /// Nothing exists at the database path.
    NotFound,
    /// The database exists and could not be read.
    Unreadable,
    /// What was read is not text.
    Malformed,
}

/// A directory could not be listed.
#[derive(Clone, Copy, Debug, PartialEq, Eq, Structural)]
pub enum EnumerationError {
    /// The directory is not there.
    NotFound,
    /// The directory may not be listed.
    PermissionDenied,
    /// Listing the directory failed in another way.
    IoError,
}

/// A file could not be read for hashing.
#[derive(Clone, Copy, Debug, PartialEq, Eq, Structural)]
pub enum HashError {
    /// The file is not there.
    NotFound,
    /// The file may not be read.
    PermissionDenied,
    /// Reading the file failed in another way.
    IoError,
}

/// Why a scan ended without a verdict on its subject.
#[derive(Clone, Copy, Debug, PartialEq, Eq, Structural)]
pub enum ScanError {
    /// The configuration could not be resolved.
    Config(ConfigError),
    /// The signature database could not be loaded.
    StoreLoad(StoreLoadError),
    /// The directory tree could not be enumerated.
    Enumeration(EnumerationError),
    /// The request names no scan mode that the engine knows.
    InvalidMode,
    /// The request names a scan mode and lacks the argument that the mode needs.
    MissingArgument,
}

} // verus!
