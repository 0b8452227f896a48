//! The install pipeline of a client-side package manager.
//!
//! A project's manifest names its direct dependencies. The pipeline resolves
//! them against a package index into an install plan, gets the artifacts
//! through a tiered cache, extracts them below the project's install root and
//! records what is installed, so that a second run has nothing left to do.
//!
//! This crate holds the decisions of that pipeline, each with a contract that
//! Verus proves: how requirement strings and version constraints are read
//! ([`requirement`]), which package a metadata document describes
//! ([`client`], [`metadata`]), how the dependency graph is built and ordered
//! ([`resolver`], [`graph`]), how the in-process tiers of the cache answer
//! ([`cache`]), which entries of an archive are written where ([`archive`]),
//! in which steps a package is installed and what a run amounts to
//! ([`installer`]), and what the registry records ([`package_manager`]).
//!
//! The crate does no input or output. Requests to the index, the disk tier of
//! the cache, the file system and the clock belong to the caller, who reports
//! what they gave and is told what to do next.

pub mod archive;
pub mod audit;
pub mod cache;
pub mod client;
pub mod config;
pub mod constants;
pub mod error;
pub mod graph;
pub mod hash;
pub mod installer;
pub mod metadata;
pub mod package;
pub mod package_manager;
pub mod paths;
pub mod python;
pub mod registries;
pub mod requirement;
pub mod resolver;
pub mod search;
pub mod table;
pub mod text;
pub mod vectors;

pub use cache::MultiLevelCache;
pub use client::RegistryClient;
pub use config::CobraConfig;
pub use error::CobraError;
pub use hash::verify_package_hash;
pub use installer::Installer;
pub use package::{Dependency, Package};
pub use python::PythonEnvironment;
pub use registries::{PackageCloudRegistry, PyPIRegistry};
pub use resolver::DependencyResolver;
