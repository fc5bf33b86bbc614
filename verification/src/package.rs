//! The metadata of a package in a repository.

use vstd::prelude::*;

use crate::architecture::Architecture;
use crate::dependency::Dependency;
use crate::version::Version;

verus! {

/// A package: what it is, what it runs on, what it needs and what it provides.
#[derive(Debug, Clone)]
pub struct Package {
    pub name: String,
    pub version: Version,
    pub release: u32,
    pub arch: Vec<Architecture>,
    pub dependencies: Vec<Dependency>,
    pub description: String,
    pub provides: Vec<String>,
    pub license: String,
    pub package_size: u64,
    pub installed_size: u64,
    pub repository: String,
}

} // verus!
