//! The consistency check of a project: what the manifest requires against
//! what the registry records and the disk holds.

use crate::package::{dependency_views, Dependency, DependencyView};
use crate::package_manager::{InstalledPackage, InstalledView};
use crate::requirement::{matches_constraint, version_matches};
use crate::text::same_text;
use vstd::prelude::*;

verus! {

/// The values of a sequence of registry entries, in order.
pub open spec fn installed_views(entries: Seq<InstalledPackage>) -> Seq<InstalledView> {
    Seq::new(entries.len(), |i: int| entries[i]@)
}

/// Whether the registry has an entry named `name`.
pub open spec fn is_recorded(installed: Seq<InstalledView>, name: Seq<char>) -> bool {
    exists|i: int| 0 <= i < installed.len() && (#[trigger] installed[i]).name == name
}

/// Whether the manifest requires a package named `name`.
pub open spec fn is_required(configured: Seq<DependencyView>, name: Seq<char>) -> bool {
    exists|i: int| 0 <= i < configured.len() && (#[trigger] configured[i]).name == name
}

/// The index of the first entry named `name` at or after `from`, or the
/// number of entries.
pub open spec fn first_recorded(installed: Seq<InstalledView>, name: Seq<char>, from: int) -> int
    decreases installed.len() - from,
{
    if 0 <= from < installed.len() && installed[from].name != name {
        first_recorded(installed, name, from + 1)
    } else {
        from
    }
}

/// A package that is installed at a version which the manifest does not
/// accept.
#[derive(Debug)]
pub struct VersionConflict {
    pub name: String,
    pub required: String,
    pub installed: String,
}

/// The mathematical value of a [`VersionConflict`].
pub struct ConflictView {
    pub name: Seq<char>,
    pub required: Seq<char>,
    pub installed: Seq<char>,
}

impl View for VersionConflict {
    type V = ConflictView;

    open spec fn view(&self) -> ConflictView {
        ConflictView { name: self.name@, required: self.required@, installed: self.installed@ }
    }
}

/// The names among the first `upto` requirements that the registry does
/// not record.
pub open spec fn missing(
    configured: Seq<DependencyView>,
    installed: Seq<InstalledView>,
    upto: int,
) -> Seq<Seq<char>>
    decreases upto,
{
    if upto <= 0 {
        Seq::empty()
    } else if is_recorded(installed, configured[upto - 1].name) {
        missing(configured, installed, upto - 1)
    } else {
        missing(configured, installed, upto - 1).push(configured[upto - 1].name)
    }
}

/// The names among the first `upto` entries that the manifest does not
/// require.
pub open spec fn extra(
    configured: Seq<DependencyView>,
    installed: Seq<InstalledView>,
    upto: int,
) -> Seq<Seq<char>>
    decreases upto,
{
    if upto <= 0 {
        Seq::empty()
    } else if is_required(configured, installed[upto - 1].name) {
        extra(configured, installed, upto - 1)
    } else {
        extra(configured, installed, upto - 1).push(installed[upto - 1].name)
    }
}

/// The conflict of one requirement with the first entry of its name, if
/// there is such an entry and its version does not agree.
pub open spec fn conflict_of(dep: DependencyView, installed: Seq<InstalledView>) -> Option<
    ConflictView,
> {
    let i = first_recorded(installed, dep.name, 0);
    if 0 <= i < installed.len() && !matches_constraint(installed[i].version, dep.version_spec) {
        Some(
            ConflictView {
                name: dep.name,
                required: dep.version_spec,
                installed: installed[i].version,
            },
        )
    } else {
        None
    }
}

/// The conflicts of the first `upto` requirements.
pub open spec fn conflicts(
    configured: Seq<DependencyView>,
    installed: Seq<InstalledView>,
    upto: int,
) -> Seq<ConflictView>
    decreases upto,
{
    if upto <= 0 {
        Seq::empty()
    } else {
        match conflict_of(configured[upto - 1], installed) {
            Some(c) => conflicts(configured, installed, upto - 1).push(c),
            None => conflicts(configured, installed, upto - 1),
        }
    }
}

/// The names among the first `upto` entries whose directory is gone. An
/// entry without a flag counts as in place.
pub open spec fn corrupted(installed: Seq<InstalledView>, exists: Seq<bool>, upto: int) -> Seq<
    Seq<char>,
>
    decreases upto,
{
    if upto <= 0 {
        Seq::empty()
    } else if upto - 1 < exists.len() && !exists[upto - 1] {
        corrupted(installed, exists, upto - 1).push(installed[upto - 1].name)
    } else {
        corrupted(installed, exists, upto - 1)
    }
}

/// What the consistency check found.
#[derive(Debug)]
pub struct AuditReport {
    /// Required, but not recorded as installed.
    pub missing: Vec<String>,
    /// Recorded as installed, but not required.
    pub extra: Vec<String>,
    /// Installed at a version that the manifest does not accept.
    pub conflicts: Vec<VersionConflict>,
    /// Recorded as installed, but without its directory.
    pub corrupted: Vec<String>,
}

/// The values of a sequence of texts, in order.
pub open spec fn name_views(names: Seq<String>) -> Seq<Seq<char>> {
    Seq::new(names.len(), |i: int| names[i]@)
}

/// The values of a sequence of conflicts, in order.
pub open spec fn conflict_views(found: Seq<VersionConflict>) -> Seq<ConflictView> {
    Seq::new(found.len(), |i: int| found[i]@)
}

impl AuditReport {
    /// The number of findings.
    pub open spec fn findings(&self) -> nat {
        self.missing@.len() + self.extra@.len() + self.conflicts@.len() + self.corrupted@.len()
    }

    /// The number of findings, as far as it can be counted.
    pub fn issues(&self) -> (n: Option<usize>)
        ensures
            match n {
                Some(count) => count == self.findings(),
                None => self.findings() > usize::MAX,
            },
    {
        let a = self.missing.len().checked_add(self.extra.len())?;
        let b = a.checked_add(self.conflicts.len())?;
        b.checked_add(self.corrupted.len())
    }

    /// Whether nothing was found.
    pub fn is_healthy(&self) -> (r: bool)
        ensures
            r == (self.findings() == 0),
    {
        self.missing.len() == 0 && self.extra.len() == 0 && self.conflicts.len() == 0
            && self.corrupted.len() == 0
    }
}

/// The index of the first entry named `name`.
fn find_recorded(installed: &Vec<InstalledPackage>, name: &str) -> (r: Option<usize>)
    ensures
        match r {
            Some(i) => i < installed@.len() && i == first_recorded(
                installed_views(installed@),
                name@,
                0,
            ) && is_recorded(installed_views(installed@), name@),
            None => first_recorded(installed_views(installed@), name@, 0) == installed@.len()
                && !is_recorded(installed_views(installed@), name@),
        },
{
    let ghost views = installed_views(installed@);
    let mut i: usize = 0;
    while i < installed.len()
        invariant
            i <= installed.len(),
            views == installed_views(installed@),
            first_recorded(views, name@, 0) == first_recorded(views, name@, i as int),
            forall|j: int| 0 <= j < i ==> (#[trigger] views[j]).name != name@,
        decreases installed.len() - i,
    {
        assert(views[i as int] == installed@[i as int]@);
        if same_text(installed[i].name.as_str(), name) {
            return Some(i);
        }
        i += 1;
    }
    None
}

/// Whether the manifest requires a package named `name`.
fn find_required(configured: &Vec<Dependency>, name: &str) -> (r: bool)
    ensures
        r == is_required(dependency_views(configured@), name@),
{
    let ghost views = dependency_views(configured@);
    let mut i: usize = 0;
    while i < configured.len()
        invariant
            i <= configured.len(),
            views == dependency_views(configured@),
            forall|j: int| 0 <= j < i ==> (#[trigger] views[j]).name != name@,
        decreases configured.len() - i,
    {
        assert(views[i as int] == configured@[i as int]@);
        if same_text(configured[i].name.as_str(), name) {
            return true;
        }
        i += 1;
    }
    false
}

/// Checks what the manifest requires against what the registry records,
/// where `exists[i]` says whether the directory of the entry `i` is in
/// place.
pub fn audit(configured: &Vec<Dependency>, installed: &Vec<InstalledPackage>, exists: &Vec<bool>) -> (report:
    AuditReport)
    ensures
        name_views(report.missing@) == missing(
            dependency_views(configured@),
            installed_views(installed@),
            configured@.len() as int,
        ),
        name_views(report.extra@) == extra(
            dependency_views(configured@),
            installed_views(installed@),
            installed@.len() as int,
        ),
        conflict_views(report.conflicts@) == conflicts(
            dependency_views(configured@),
            installed_views(installed@),
            configured@.len() as int,
        ),
        name_views(report.corrupted@) == corrupted(
            installed_views(installed@),
            exists@,
            installed@.len() as int,
        ),
{
    let ghost wanted = dependency_views(configured@);
    let ghost recorded = installed_views(installed@);
    let mut missing_names: Vec<String> = Vec::new();
    let mut found_conflicts: Vec<VersionConflict> = Vec::new();
    assert(name_views(missing_names@) =~= missing(wanted, recorded, 0));
    assert(conflict_views(found_conflicts@) =~= conflicts(wanted, recorded, 0));
    let mut i: usize = 0;
    while i < configured.len()
        invariant
            i <= configured.len(),
            wanted == dependency_views(configured@),
            recorded == installed_views(installed@),
            name_views(missing_names@) == missing(wanted, recorded, i as int),
            conflict_views(found_conflicts@) == conflicts(wanted, recorded, i as int),
        decreases configured.len() - i,
    {
        let ghost names_before = name_views(missing_names@);
        let ghost conflicts_before = conflict_views(found_conflicts@);
        let dep = &configured[i];
        assert(wanted[i as int] == dep@);
        match find_recorded(installed, dep.name.as_str()) {
            None => {
                missing_names.push(dep.name.clone());
                assert(name_views(missing_names@) =~= names_before.push(dep@.name));
            },
            Some(at) => {
                let entry = &installed[at];
                assert(recorded[at as int] == entry@);
                if !version_matches(entry.version.as_str(), dep.version_spec.as_str()) {
                    let conflict = VersionConflict {
                        name: dep.name.clone(),
                        required: dep.version_spec.clone(),
                        installed: entry.version.clone(),
                    };
                    let ghost made = conflict@;
                    found_conflicts.push(conflict);
                    assert(conflict_views(found_conflicts@) =~= conflicts_before.push(made));
                }
            },
        }
        i += 1;
    }
    let mut extra_names: Vec<String> = Vec::new();
    let mut corrupted_names: Vec<String> = Vec::new();
    assert(name_views(extra_names@) =~= extra(wanted, recorded, 0));
    assert(name_views(corrupted_names@) =~= corrupted(recorded, exists@, 0));
    let mut k: usize = 0;
    while k < installed.len()
        invariant
            k <= installed.len(),
            wanted == dependency_views(configured@),
            recorded == installed_views(installed@),
            name_views(extra_names@) == extra(wanted, recorded, k as int),
            name_views(corrupted_names@) == corrupted(recorded, exists@, k as int),
        decreases installed.len() - k,
    {
        let ghost extra_before = name_views(extra_names@);
        let ghost corrupted_before = name_views(corrupted_names@);
        let entry = &installed[k];
        assert(recorded[k as int] == entry@);
        if !find_required(configured, entry.name.as_str()) {
            extra_names.push(entry.name.clone());
            assert(name_views(extra_names@) =~= extra_before.push(entry@.name));
        }
        if k < exists.len() && !exists[k] {
            corrupted_names.push(entry.name.clone());
            assert(name_views(corrupted_names@) =~= corrupted_before.push(entry@.name));
        }
        k += 1;
    }
    AuditReport {
        missing: missing_names,
        extra: extra_names,
        conflicts: found_conflicts,
        corrupted: corrupted_names,
    }
}

} // verus!
