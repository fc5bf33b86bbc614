//! The errors of the package manager.

use vstd::prelude::*;

verus! {

/// An I/O failure, carried as it came.
#[verifier::external_type_specification]
#[verifier::external_body]
pub struct ExIoError(std::io::Error);

/// A failure of the Parquet reader or writer, carried as it came.
#[verifier::external_type_specification]
#[verifier::external_body]
pub struct ExParquetError(parquet::errors::ParquetError);

/// Everything that can go wrong in the package manager.
#[derive(Debug)]
pub enum CpsiError {
    NoRepositories,
    DuplicatePackage(String),
    PackageNotFound(String),
    PackageNotInstalled(String),
    DependencyCycleDetected,
    UnsatisfiedDependency(String),
    AmbiguousProvider(String, String),
    SignatureVerificationFailed(String),
    InvalidPackage(String),
    ScriptFailed(String),
    Database(String),
    FileConflict(String, String),
    PackageRequired(String, String),
    DowngradeNotAllowed(String),
    InvalidDependency(String),
    UnsupportedArchitecture(String),
    RepositoryNotFound(String),
    UntrustedRepository(String),
    ConfirmationRequired(String),
    Io(std::io::Error),
    Parquet(parquet::errors::ParquetError),
    Toml(String),
    NetError(String),
}

} // verus!
