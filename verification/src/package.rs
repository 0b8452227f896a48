//! Dependencies and resolved packages, with their mathematical values.

use vstd::prelude::*;
use vstd::std_specs::cmp::PartialEqSpecImpl;

verus! {

/// A requirement on another package: its name and a version constraint.
///
/// The constraint is `*` (any version), an exact pin (`==`), a range
/// (`>=`, `<=`, `~=`, `!=`), or empty, which asks for the latest version.
#[derive(Debug)]
pub struct Dependency {
    pub name: String,
    pub version_spec: String,
}

/// The mathematical value of a [`Dependency`].
pub struct DependencyView {
    pub name: Seq<char>,
    pub version_spec: Seq<char>,
}

impl View for Dependency {
    type V = DependencyView;

    open spec fn view(&self) -> DependencyView {
        DependencyView { name: self.name@, version_spec: self.version_spec@ }
    }
}

impl Clone for Dependency {
    fn clone(&self) -> (copy: Self)
        ensures
            copy@ == self@,
    {
        Dependency { name: self.name.clone(), version_spec: self.version_spec.clone() }
    }
}

impl PartialEq for Dependency {
    fn eq(&self, other: &Self) -> (equal: bool) {
        self.name == other.name && self.version_spec == other.version_spec
    }
}

impl PartialEqSpecImpl for Dependency {
    open spec fn obeys_eq_spec() -> bool {
        true
    }

    open spec fn eq_spec(&self, other: &Self) -> bool {
        self.name@ == other.name@ && self.version_spec@ == other.version_spec@
    }
}

/// A package as the index resolved it: a concrete version, where to fetch
/// its artifact, and what it requires in turn.
#[derive(Debug)]
pub struct Package {
    pub name: String,
    pub version: String,
    pub dependencies: Vec<Dependency>,
    pub download_url: String,
    pub hash: Option<String>,
    pub size: Option<u64>,
    pub description: Option<String>,
    pub author: Option<String>,
    pub homepage: Option<String>,
}

/// The mathematical value of a [`Package`].
pub struct PackageView {
    pub name: Seq<char>,
    pub version: Seq<char>,
    pub dependencies: Seq<DependencyView>,
    pub download_url: Seq<char>,
    pub hash: Option<Seq<char>>,
    pub size: Option<u64>,
    pub description: Option<Seq<char>>,
    pub author: Option<Seq<char>>,
    pub homepage: Option<Seq<char>>,
}

/// The value of an optional text.
pub open spec fn text_view(text: Option<String>) -> Option<Seq<char>> {
    match text {
        Some(t) => Some(t@),
        None => None,
    }
}

/// The values of a sequence of dependencies, in order.
pub open spec fn dependency_views(deps: Seq<Dependency>) -> Seq<DependencyView> {
    Seq::new(deps.len(), |i: int| deps[i]@)
}

/// The values of a sequence of packages, in order.
pub open spec fn package_views(packages: Seq<Package>) -> Seq<PackageView> {
    Seq::new(packages.len(), |i: int| packages[i]@)
}

impl View for Package {
    type V = PackageView;

    open spec fn view(&self) -> PackageView {
        PackageView {
            name: self.name@,
            version: self.version@,
            dependencies: dependency_views(self.dependencies@),
            download_url: self.download_url@,
            hash: text_view(self.hash),
            size: self.size,
            description: text_view(self.description),
            author: text_view(self.author),
            homepage: text_view(self.homepage),
        }
    }
}

impl PackageView {
    /// The pair by which the dependency graph tells packages apart.
    pub open spec fn identity(self) -> (Seq<char>, Seq<char>) {
        (self.name, self.version)
    }
}

/// A copy of an optional text.
pub fn clone_text(text: &Option<String>) -> (copy: Option<String>)
    ensures
        text_view(copy) == text_view(*text),
{
    match text {
        Some(t) => Some(t.clone()),
        None => None,
    }
}

/// A copy of a list of dependencies.
pub fn clone_dependencies(deps: &Vec<Dependency>) -> (copy: Vec<Dependency>)
    ensures
        dependency_views(copy@) == dependency_views(deps@),
{
    let mut copy: Vec<Dependency> = Vec::new();
    let mut i: usize = 0;
    while i < deps.len()
        invariant
            i <= deps.len(),
            copy.len() == i,
            forall|j: int| 0 <= j < i ==> copy@[j]@ == deps@[j]@,
        decreases deps.len() - i,
    {
        copy.push(deps[i].clone());
        i += 1;
    }
    assert(dependency_views(copy@) =~= dependency_views(deps@));
    copy
}

impl Clone for Package {
    fn clone(&self) -> (copy: Self)
        ensures
            copy@ == self@,
    {
        Package {
            name: self.name.clone(),
            version: self.version.clone(),
            dependencies: clone_dependencies(&self.dependencies),
            download_url: self.download_url.clone(),
            hash: clone_text(&self.hash),
            size: self.size,
            description: clone_text(&self.description),
            author: clone_text(&self.author),
            homepage: clone_text(&self.homepage),
        }
    }
}

impl Package {
    /// Whether two packages are the same node of the dependency graph: the
    /// same name at the same version.
    pub fn same_identity(&self, other: &Package) -> (same: bool)
        ensures
            same == (self@.identity() == other@.identity()),
    {
        self.name == other.name && self.version == other.version
    }
}

} // verus!
