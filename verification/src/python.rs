//! What is known of the host interpreter.

use crate::text::{trim, trimmed};
use vstd::prelude::*;

verus! {

/// The host interpreter: its executable, its version line and the directory
/// that it loads packages from.
#[derive(Debug)]
pub struct PythonEnvironment {
    pub python_path: String,
    pub version: String,
    pub site_packages: String,
}

impl PythonEnvironment {
    /// The name of the interpreter's executable on the search path.
    pub fn command(windows: bool) -> (name: &'static str)
        ensures
            name@ == if windows { "python"@ } else { "python3"@ },
    {
        if windows {
            "python"
        } else {
            "python3"
        }
    }

    /// The environment that the interpreter described on its standard
    /// output: each of the three answers, trimmed.
    pub fn from_outputs(version: &str, site_packages: &str, python_path: &str) -> (env: Self)
        ensures
            env.version@ == trim(version@),
            env.site_packages@ == trim(site_packages@),
            env.python_path@ == trim(python_path@),
    {
        PythonEnvironment {
            python_path: trimmed(python_path),
            version: trimmed(version),
            site_packages: trimmed(site_packages),
        }
    }
}

} // verus!
