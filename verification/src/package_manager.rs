//! The installation registry of a project: which package is installed at
//! which version, where, and since when.
//!
//! The registry is keyed by name, so a project holds at most one version of
//! a package. Reading and writing the registry file, looking at the disk and
//! reading the clock are left to the caller, who hands in what it found.

use crate::package::{Package, PackageView};
use crate::requirement::{satisfies, version_satisfies};
use crate::table::NameTable;
use crate::text::{concat, trim, trimmed};
use vstd::prelude::*;

verus! {

/// One entry of the registry.
#[derive(Debug)]
pub struct InstalledPackage {
    pub name: String,
    pub version: String,
    /// The directory of the package below the install root.
    pub install_path: String,
    /// When the package was registered, in seconds of UTC since 1970.
    pub installed_at: i64,
}

/// The mathematical value of an [`InstalledPackage`].
pub struct InstalledView {
    pub name: Seq<char>,
    pub version: Seq<char>,
    pub install_path: Seq<char>,
    pub installed_at: int,
}

impl View for InstalledPackage {
    type V = InstalledView;

    open spec fn view(&self) -> InstalledView {
        InstalledView {
            name: self.name@,
            version: self.version@,
            install_path: self.install_path@,
            installed_at: self.installed_at as int,
        }
    }
}

impl Clone for InstalledPackage {
    fn clone(&self) -> (copy: Self)
        ensures
            copy@ == self@,
    {
        InstalledPackage {
            name: self.name.clone(),
            version: self.version.clone(),
            install_path: self.install_path.clone(),
            installed_at: self.installed_at,
        }
    }
}

/// The registry as a map from names to entries.
pub type RegistryView = Map<Seq<char>, InstalledView>;

/// The path of `name` below the directory `dir`.
pub open spec fn path_below(dir: Seq<char>, name: Seq<char>) -> Seq<char> {
    dir + "/"@ + name
}

/// The entry that registering `package` at the time `now` writes.
pub open spec fn entry_for(package: PackageView, dir: Seq<char>, now: int) -> InstalledView {
    InstalledView {
        name: package.name,
        version: package.version,
        install_path: path_below(dir, package.name),
        installed_at: now,
    }
}

/// The registry after `package` was registered at the time `now`: the
/// entry of its name is written anew, whatever stood there.
pub open spec fn registered(
    registry: RegistryView,
    package: PackageView,
    dir: Seq<char>,
    now: int,
) -> RegistryView {
    registry.insert(package.name, entry_for(package, dir, now))
}

/// Whether `name` counts as installed: the registry has it, the recorded
/// version meets the constraint, and its directory exists.
pub open spec fn is_installed(
    registry: RegistryView,
    name: Seq<char>,
    version_spec: Seq<char>,
    path_exists: bool,
) -> bool {
    registry.contains_key(name) && satisfies(registry[name].version, version_spec) && path_exists
}

/// The registry after the check of `name`: an entry that does not count as
/// installed is dropped.
pub open spec fn healed(
    registry: RegistryView,
    name: Seq<char>,
    version_spec: Seq<char>,
    path_exists: bool,
) -> RegistryView {
    if is_installed(registry, name, version_spec, path_exists) {
        registry
    } else {
        registry.remove(name)
    }
}

/// What the check of one package found.
#[derive(Clone, Copy, Debug, PartialEq, Eq, Structural)]
pub enum InstallCheck {
    /// The package is installed as required.
    Installed,
    /// The registry does not know the package.
    Missing,
    /// The registry knew the package, but at another version or without its
    /// directory; the entry was dropped and the registry is to be saved.
    Dropped,
}

/// The registry of one project.
#[derive(Debug)]
pub struct PackageRegistry {
    pub packages: NameTable<InstalledPackage>,
}

impl View for PackageRegistry {
    type V = RegistryView;

    open spec fn view(&self) -> RegistryView {
        self.packages@.map_values(|p: InstalledPackage| p@)
    }
}

impl PackageRegistry {
    /// The entries in the order in which their names were first registered.
    pub open spec fn listing(&self) -> Seq<InstalledView> {
        Seq::new(self.packages.names().len(), |i: int| self@[self.packages.names()[i]])
    }

    /// A registry without entries: no name is recorded, and nothing is
    /// listed.
    pub fn new() -> (registry: Self)
        ensures
            registry@ == RegistryView::empty(),
            registry.listing() == Seq::<InstalledView>::empty(),
    {
        let registry = PackageRegistry { packages: NameTable::new() };
        assert(registry@ =~= RegistryView::empty());
        assert(registry.listing() =~= Seq::<InstalledView>::empty());
        registry
    }

    /// The recorded directory of `name`, whose existence the check of
    /// `name` asks for.
    pub fn install_path_of(&self, name: &str) -> (path: Option<String>)
        ensures
            match path {
                Some(p) => self@.contains_key(name@) && p@ == self@[name@].install_path,
                None => !self@.contains_key(name@),
            },
    {
        match self.packages.get(name) {
            Some(entry) => Some(entry.install_path.clone()),
            None => None,
        }
    }

    /// The recorded version of `name`.
    pub fn version_of(&self, name: &str) -> (version: Option<String>)
        ensures
            match version {
                Some(v) => self@.contains_key(name@) && v@ == self@[name@].version,
                None => !self@.contains_key(name@),
            },
    {
        match self.packages.get(name) {
            Some(entry) => Some(entry.version.clone()),
            None => None,
        }
    }

    /// The entries as a list, in the order in which their names were first
    /// registered.
    pub fn list(&self) -> (entries: Vec<InstalledPackage>)
        ensures
            entries@.len() == self.listing().len(),
            forall|i: int| 0 <= i < entries@.len() ==> (#[trigger] entries@[i])@ == self.listing()[i],
            self.packages.indexed(),
    {
        let n = self.packages.len();
        let mut entries: Vec<InstalledPackage> = Vec::new();
        let mut i: usize = 0;
        while i < n
            invariant
                i <= n,
                n == self.packages.names().len(),
                entries@.len() == i,
                forall|j: int| 0 <= j < i ==> (#[trigger] entries@[j])@ == self.listing()[j],
            decreases n - i,
        {
            entries.push(self.packages.value_at(i).clone());
            i += 1;
        }
        entries
    }
}

/// The manager of the packages that are installed below one directory.
#[derive(Debug)]
pub struct LocalPackageManager {
    install_dir: String,
    registry_path: String,
}

impl LocalPackageManager {
    /// The install root.
    pub closed spec fn root(&self) -> Seq<char> {
        self.install_dir@
    }

    /// The place of the registry file.
    pub closed spec fn registry_file(&self) -> Seq<char> {
        self.registry_path@
    }

    /// A manager for the install root `install_dir`; the registry file is
    /// `registry.json` below it.
    pub fn new(install_dir: String) -> (manager: Self)
        ensures
            manager.root() == install_dir@,
            manager.registry_file() == path_below(install_dir@, "registry.json"@),
    {
        let below = concat(install_dir.as_str(), "/");
        let registry_path = concat(below.as_str(), "registry.json");
        LocalPackageManager { install_dir, registry_path }
    }

    /// The install root.
    pub fn get_install_dir(&self) -> (dir: &str)
        ensures
            dir@ == self.root(),
    {
        self.install_dir.as_str()
    }

    /// The place of the registry file.
    pub fn get_registry_path(&self) -> (path: &str)
        ensures
            path@ == self.registry_file(),
    {
        self.registry_path.as_str()
    }

    /// The directory of the package `name` below the install root.
    pub fn package_path(&self, name: &str) -> (path: String)
        ensures
            path@ == path_below(self.root(), name@),
    {
        let below = concat(self.install_dir.as_str(), "/");
        concat(below.as_str(), name)
    }

    /// Whether an installed version meets a constraint: `*` is met by every
    /// version, `==X` by `X`, any other constraint by the version that is
    /// spelled like it.
    pub fn version_satisfies(&self, installed: &str, required: &str) -> (r: bool)
        ensures
            r == satisfies(installed@, required@),
    {
        version_satisfies(installed, required)
    }

    /// Checks whether `name` is installed as `version` requires, given
    /// whether its recorded directory exists (see
    /// [`PackageRegistry::install_path_of`]; without an entry the flag is
    /// not looked at). An entry that fails the check is dropped.
    pub fn is_package_installed(
        &self,
        registry: &mut PackageRegistry,
        name: &str,
        version: &str,
        path_exists: bool,
    ) -> (check: InstallCheck)
        ensures
            check == InstallCheck::Installed <==> is_installed(
                old(registry)@,
                name@,
                version@,
                path_exists,
            ),
            check == InstallCheck::Missing <==> !old(registry)@.contains_key(name@),
            final(registry)@ == healed(old(registry)@, name@, version@, path_exists),
    {
        let installed = match registry.packages.get(name) {
            Some(entry) => version_satisfies(entry.version.as_str(), version) && path_exists,
            None => {
                assert(old(registry)@.remove(name@) =~= old(registry)@);
                return InstallCheck::Missing;
            },
        };
        if installed {
            InstallCheck::Installed
        } else {
            let _ = registry.packages.remove(name);
            assert(final(registry)@ =~= old(registry)@.remove(name@));
            InstallCheck::Dropped
        }
    }

    /// Registers `package` as installed at the time `now`: the entry of
    /// its name is written anew with the package's version, its directory
    /// below the install root, and `now`. The time of a name does not go
    /// back as long as the clock does not.
    pub fn register_package(&self, registry: &mut PackageRegistry, package: &Package, now: i64)
        ensures
            final(registry)@ == old(registry)@.insert(
                package@.name,
                entry_for(package@, self.root(), now as int),
            ),
            final(registry)@ == registered(old(registry)@, package@, self.root(), now as int),
            old(registry)@.contains_key(package@.name) && old(registry)@[package@.name].installed_at
                <= now ==> final(registry)@[package@.name].installed_at >= old(registry)@[package@.name].installed_at,
    {
        let entry = InstalledPackage {
            name: package.name.clone(),
            version: package.version.clone(),
            install_path: self.package_path(package.name.as_str()),
            installed_at: now,
        };
        registry.packages.insert(package.name.clone(), entry);
        assert(final(registry)@ =~= registered(
            old(registry)@,
            package@,
            self.root(),
            now as int,
        ));
    }

    /// Drops the entry of `name`, and says whether there was one; only then
    /// is the registry to be saved.
    pub fn unregister_package(&self, registry: &mut PackageRegistry, name: &str) -> (removed: bool)
        ensures
            removed == old(registry)@.contains_key(name@),
            final(registry)@ == old(registry)@.remove(name@),
    {
        let removed = registry.packages.remove(name).is_some();
        assert(final(registry)@ =~= old(registry)@.remove(name@));
        removed
    }

    /// The installed packages, in the order in which their names were first
    /// registered.
    pub fn list_installed(&self, registry: &PackageRegistry) -> (entries: Vec<InstalledPackage>)
        ensures
            entries@.len() == registry.listing().len(),
            forall|i: int|
                0 <= i < entries@.len() ==> (#[trigger] entries@[i])@ == registry.listing()[i],
    {
        registry.list()
    }

    /// The directory that holds the installation record of `name` at
    /// `version` below the install root.
    pub fn dist_info_path(&self, name: &str, version: &str) -> (path: String)
        ensures
            path@ == path_below(self.root(), name@ + "-"@ + version@ + ".dist-info"@),
    {
        let mut path = concat(self.install_dir.as_str(), "/");
        path.append(name);
        path.append("-");
        path.append(version);
        path.append(".dist-info");
        assert(path@ =~= path_below(self.root(), name@ + "-"@ + version@ + ".dist-info"@));
        path
    }

    /// The text of the path file that makes the install root known to the
    /// host interpreter: the install root and a line feed.
    pub fn pth_file_contents(&self) -> (text: String)
        ensures
            text@ == self.root() + "\n"@,
    {
        concat(self.install_dir.as_str(), "\n")
    }
}

/// The directory that the host interpreter printed: its output, trimmed.
pub fn user_site_from_output(output: &str) -> (dir: String)
    ensures
        dir@ == trim(output@),
{
    trimmed(output)
}

/// The place of the path file below the interpreter's per-user directory.
pub fn pth_file_path(user_site: &str) -> (path: String)
    ensures
        path@ == path_below(user_site@, "cobra-packages.pth"@),
{
    let below = concat(user_site, "/");
    concat(below.as_str(), "cobra-packages.pth")
}

/// A package that was registered and then unregistered is not installed,
/// whatever is on disk.
pub proof fn lemma_unregister_after_register(
    registry: RegistryView,
    package: PackageView,
    dir: Seq<char>,
    now: int,
    path_exists: bool,
)
    ensures
        !is_installed(
            registered(registry, package, dir, now).remove(package.name),
            package.name,
            "*"@,
            path_exists,
        ),
{
}

/// A package that was just registered is installed under the constraint
/// `*` as soon as its directory exists, and the check leaves the registry
/// as it is.
pub proof fn lemma_registered_is_installed(
    registry: RegistryView,
    package: PackageView,
    dir: Seq<char>,
    now: int,
)
    ensures
        is_installed(registered(registry, package, dir, now), package.name, "*"@, true),
        healed(registered(registry, package, dir, now), package.name, "*"@, true) == registered(
            registry,
            package,
            dir,
            now,
        ),
{
}

/// When the directory of a package has gone, the check drops its entry, and
/// a second check finds the package missing.
pub proof fn lemma_self_heal(registry: RegistryView, name: Seq<char>, version_spec: Seq<char>)
    ensures
        !is_installed(registry, name, version_spec, false),
        !healed(registry, name, version_spec, false).contains_key(name),
{
}

} // verus!
