//! The error kinds that the components of the pipeline report.

use crate::text::concat;
use vstd::prelude::*;

verus! {

/// An error of the install pipeline. Every kind but `HashMismatch` carries
/// its cause as text.
#[derive(Debug)]
pub enum CobraError {
    /// A manifest or registry document could not be read.
    Config(String),
    /// The transport to the remote index failed.
    Network(String),
    /// A file operation failed.
    Io(String),
    /// The index does not know the package, or its answer lacks a field.
    PackageNotFound(String),
    /// The dependency graph cannot be ordered or completed.
    ResolutionFailed(String),
    /// A package task failed.
    InstallationFailed(String),
    /// The disk tier of the cache failed.
    Cache(String),
    /// The host interpreter could not be queried.
    PythonEnv(String),
    /// An archive is malformed.
    Archive(String),
    /// An artifact does not have the digest that the index announced.
    HashMismatch,
}

/// The mathematical value of a [`CobraError`].
pub enum ErrorView {
    Config(Seq<char>),
    Network(Seq<char>),
    Io(Seq<char>),
    PackageNotFound(Seq<char>),
    ResolutionFailed(Seq<char>),
    InstallationFailed(Seq<char>),
    Cache(Seq<char>),
    PythonEnv(Seq<char>),
    Archive(Seq<char>),
    HashMismatch,
}

impl View for CobraError {
    type V = ErrorView;

    open spec fn view(&self) -> ErrorView {
        match self {
            CobraError::Config(m) => ErrorView::Config(m@),
            CobraError::Network(m) => ErrorView::Network(m@),
            CobraError::Io(m) => ErrorView::Io(m@),
            CobraError::PackageNotFound(m) => ErrorView::PackageNotFound(m@),
            CobraError::ResolutionFailed(m) => ErrorView::ResolutionFailed(m@),
            CobraError::InstallationFailed(m) => ErrorView::InstallationFailed(m@),
            CobraError::Cache(m) => ErrorView::Cache(m@),
            CobraError::PythonEnv(m) => ErrorView::PythonEnv(m@),
            CobraError::Archive(m) => ErrorView::Archive(m@),
            CobraError::HashMismatch => ErrorView::HashMismatch,
        }
    }
}

impl ErrorView {
    /// The one-line text shown to the user: the kind, then the cause.
    pub open spec fn message(self) -> Seq<char> {
        match self {
            ErrorView::Config(m) => "Configuration error: "@ + m,
            ErrorView::Network(m) => "Network error: "@ + m,
            ErrorView::Io(m) => "IO error: "@ + m,
            ErrorView::PackageNotFound(m) => "Package not found: "@ + m,
            ErrorView::ResolutionFailed(m) => "Dependency resolution failed: "@ + m,
            ErrorView::InstallationFailed(m) => "Installation failed: "@ + m,
            ErrorView::Cache(m) => "Cache error: "@ + m,
            ErrorView::PythonEnv(m) => "Python environment error: "@ + m,
            ErrorView::Archive(m) => "Archive extraction error: "@ + m,
            ErrorView::HashMismatch => "Hash verification failed"@,
        }
    }
}

impl CobraError {
    /// The one-line text shown to the user: the kind, then the cause.
    pub fn message(&self) -> (text: String)
        ensures
            text@ == self@.message(),
    {
        match self {
            CobraError::Config(m) => concat("Configuration error: ", m.as_str()),
            CobraError::Network(m) => concat("Network error: ", m.as_str()),
            CobraError::Io(m) => concat("IO error: ", m.as_str()),
            CobraError::PackageNotFound(m) => concat("Package not found: ", m.as_str()),
            CobraError::ResolutionFailed(m) => concat(
                "Dependency resolution failed: ",
                m.as_str(),
            ),
            CobraError::InstallationFailed(m) => concat("Installation failed: ", m.as_str()),
            CobraError::Cache(m) => concat("Cache error: ", m.as_str()),
            CobraError::PythonEnv(m) => concat("Python environment error: ", m.as_str()),
            CobraError::Archive(m) => concat("Archive extraction error: ", m.as_str()),
            CobraError::HashMismatch => String::from_str("Hash verification failed"),
        }
    }
}

impl Clone for CobraError {
    fn clone(&self) -> (copy: Self)
        ensures
            copy@ == self@,
    {
        match self {
            CobraError::Config(m) => CobraError::Config(m.clone()),
            CobraError::Network(m) => CobraError::Network(m.clone()),
            CobraError::Io(m) => CobraError::Io(m.clone()),
            CobraError::PackageNotFound(m) => CobraError::PackageNotFound(m.clone()),
            CobraError::ResolutionFailed(m) => CobraError::ResolutionFailed(m.clone()),
            CobraError::InstallationFailed(m) => CobraError::InstallationFailed(m.clone()),
            CobraError::Cache(m) => CobraError::Cache(m.clone()),
            CobraError::PythonEnv(m) => CobraError::PythonEnv(m.clone()),
            CobraError::Archive(m) => CobraError::Archive(m.clone()),
            CobraError::HashMismatch => CobraError::HashMismatch,
        }
    }
}

} // verus!
