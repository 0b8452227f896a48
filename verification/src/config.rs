//! The project manifest as the install pipeline reads it.

use crate::error::{CobraError, ErrorView};
use crate::package::{text_view, Dependency, DependencyView};
use crate::table::NameTable;
use vstd::prelude::*;

verus! {

/// What the manifest says of the project itself.
#[derive(Debug)]
pub struct ProjectInfo {
    pub name: String,
    pub version: String,
    pub description: String,
}

/// The settings of the package manager for one project.
#[derive(Debug)]
pub struct CobraToolConfig {
    pub python_version: String,
    pub parallel_downloads: usize,
    pub cache_enabled: bool,
    pub install_dir: String,
}

/// The tool sections of the manifest.
#[derive(Debug)]
pub struct ToolConfig {
    pub cobra: CobraToolConfig,
}

/// A project manifest: the project, its dependencies by name, and the tool
/// settings.
#[derive(Debug)]
pub struct CobraConfig {
    pub project: ProjectInfo,
    pub dependencies: NameTable<String>,
    pub dev_dependencies: NameTable<String>,
    pub tool: ToolConfig,
}

/// The interpreter version of a manifest that names none.
pub fn default_python_version() -> (version: String)
    ensures
        version@ == "3.11"@,
{
    String::from_str("3.11")
}

/// The download parallelism of a manifest that names none.
pub fn default_parallel_downloads() -> (n: usize)
    ensures
        n == 16,
{
    16
}

/// Whether the cache is used when the manifest does not say.
pub fn default_cache_enabled() -> (enabled: bool)
    ensures
        enabled,
{
    true
}

/// The install directory of a manifest that names none.
pub fn default_install_dir() -> (dir: String)
    ensures
        dir@ == ".cobra_packages"@,
{
    String::from_str(".cobra_packages")
}

impl Default for CobraToolConfig {
    fn default() -> (config: Self)
        ensures
            config.python_version@ == "3.11"@,
            config.parallel_downloads == 16,
            config.cache_enabled,
            config.install_dir@ == ".cobra_packages"@,
    {
        CobraToolConfig {
            python_version: default_python_version(),
            parallel_downloads: default_parallel_downloads(),
            cache_enabled: default_cache_enabled(),
            install_dir: default_install_dir(),
        }
    }
}

impl Default for ToolConfig {
    fn default() -> (config: Self)
        ensures
            config.cobra.python_version@ == "3.11"@,
            config.cobra.parallel_downloads == 16,
            config.cobra.cache_enabled,
            config.cobra.install_dir@ == ".cobra_packages"@,
    {
        ToolConfig { cobra: CobraToolConfig::default() }
    }
}

/// The constraints of a table of dependencies, by name.
pub open spec fn constraints(table: NameTable<String>) -> Map<Seq<char>, Seq<char>> {
    table@.map_values(|spec: String| spec@)
}

/// The dependencies of a table in the order of its names.
pub open spec fn listed(table: NameTable<String>) -> Seq<DependencyView> {
    Seq::new(
        table.names().len(),
        |i: int|
            DependencyView {
                name: table.names()[i],
                version_spec: constraints(table)[table.names()[i]],
            },
    )
}

impl CobraConfig {
    /// The constraints of the dependencies, by name.
    pub open spec fn requirements(&self) -> Map<Seq<char>, Seq<char>> {
        constraints(self.dependencies)
    }

    /// Declares a dependency; a dependency of that name is replaced.
    pub fn add_dependency(&mut self, name: &str, version: &str)
        ensures
            final(self).requirements() == old(self).requirements().insert(name@, version@),
            final(self).project == old(self).project,
            final(self).dev_dependencies == old(self).dev_dependencies,
            final(self).tool == old(self).tool,
    {
        let value = String::from_str(version);
        self.dependencies.insert(String::from_str(name), value);
        assert(final(self).requirements() =~= old(self).requirements().insert(name@, version@));
    }

    /// Withdraws a dependency, and says whether it was declared.
    pub fn remove_dependency(&mut self, name: &str) -> (removed: bool)
        ensures
            removed == old(self).requirements().contains_key(name@),
            final(self).requirements() == old(self).requirements().remove(name@),
            final(self).project == old(self).project,
            final(self).dev_dependencies == old(self).dev_dependencies,
            final(self).tool == old(self).tool,
    {
        let removed = self.dependencies.remove(name).is_some();
        assert(final(self).requirements() =~= old(self).requirements().remove(name@));
        removed
    }

    /// The constraint declared for `name`.
    pub fn get_dependency(&self, name: &str) -> (spec: Option<String>)
        ensures
            text_view(spec) == if self.requirements().contains_key(name@) {
                Some(self.requirements()[name@])
            } else {
                None
            },
    {
        match self.dependencies.get(name) {
            Some(spec) => Some(spec.clone()),
            None => None,
        }
    }

    /// The dependency declared under `name`, or the name as what was not
    /// found.
    pub fn requirement_of(&self, name: &str) -> (r: Result<Dependency, CobraError>)
        ensures
            match r {
                Ok(dep) => self.requirements().contains_key(name@) && dep@ == (DependencyView {
                    name: name@,
                    version_spec: self.requirements()[name@],
                }),
                Err(e) => !self.requirements().contains_key(name@) && e@
                    == ErrorView::PackageNotFound(name@),
            },
    {
        match self.dependencies.get(name) {
            Some(spec) => Ok(
                Dependency { name: String::from_str(name), version_spec: spec.clone() },
            ),
            None => Err(CobraError::PackageNotFound(String::from_str(name))),
        }
    }

    /// The dependencies as a list, in the order in which their names were
    /// first declared.
    pub fn get_dependencies_list(&self) -> (list: Vec<Dependency>)
        ensures
            crate::package::dependency_views(list@) == listed(self.dependencies),
            self.dependencies.indexed(),
    {
        let n = self.dependencies.len();
        let mut list: Vec<Dependency> = Vec::new();
        let mut i: usize = 0;
        while i < n
            invariant
                i <= n,
                n == self.dependencies.names().len(),
                list.len() == i,
                forall|j: int| 0 <= j < i ==> (#[trigger] list@[j])@ == listed(self.dependencies)[j],
            decreases n - i,
        {
            let name = self.dependencies.key_at(i).clone();
            let version_spec = self.dependencies.value_at(i).clone();
            list.push(Dependency { name, version_spec });
            i += 1;
        }
        assert(crate::package::dependency_views(list@) =~= listed(self.dependencies));
        list
    }

    /// The directory, relative to the project, that packages are installed
    /// into.
    pub fn get_install_dir(&self) -> (dir: String)
        ensures
            dir@ == self.tool.cobra.install_dir@,
    {
        self.tool.cobra.install_dir.clone()
    }
}

impl Default for CobraConfig {
    fn default() -> (config: Self)
        ensures
            config.project.name@ == "my-project"@,
            config.project.version@ == "0.1.0"@,
            config.project.description@ == Seq::<char>::empty(),
            config.requirements() == Map::<Seq<char>, Seq<char>>::empty(),
            constraints(config.dev_dependencies) == Map::<Seq<char>, Seq<char>>::empty(),
            config.tool.cobra.python_version@ == "3.11"@,
            config.tool.cobra.parallel_downloads == 16,
            config.tool.cobra.cache_enabled,
            config.tool.cobra.install_dir@ == ".cobra_packages"@,
    {
        let config = CobraConfig {
            project: ProjectInfo {
                name: String::from_str("my-project"),
                version: String::from_str("0.1.0"),
                description: String::new(),
            },
            dependencies: NameTable::new(),
            dev_dependencies: NameTable::new(),
            tool: ToolConfig::default(),
        };
        assert(config.requirements() =~= Map::<Seq<char>, Seq<char>>::empty());
        assert(constraints(config.dev_dependencies) =~= Map::<Seq<char>, Seq<char>>::empty());
        config
    }
}

} // verus!
