//! The index client's decisions: which address to ask, and what package a
//! metadata document describes.
//!
//! Talking to the index is left to the caller, who asks the address from
//! [`RegistryClient::package_url`] and hands the answer, decoded into an
//! [`IndexDocument`], to [`RegistryClient::get_package_info`].

use crate::error::{CobraError, ErrorView};
use crate::package::{
    clone_text, dependency_views, text_view, Dependency, DependencyView, Package, PackageView,
};
use crate::requirement::{
    exact_version, is_latest, parse_dependency, parsed_requirement, pinned_version, wants_latest,
};
use crate::text::{concat, same_text};
use vstd::prelude::*;

verus! {

/// The digests of one artifact, as far as the index gives them.
#[derive(Debug)]
pub struct Digests {
    pub sha256: Option<String>,
}

/// One artifact in a metadata document. A field that the document lacks,
/// or that has another type than expected, is `None`.
#[derive(Debug)]
pub struct ArtifactEntry {
    /// `bdist_wheel` for a pre-built artifact, `sdist` for a source archive.
    pub packagetype: Option<String>,
    pub url: Option<String>,
    pub size: Option<u64>,
    pub digests: Option<Digests>,
}

/// What the install pipeline reads of a metadata document of the index.
#[derive(Debug)]
pub struct IndexDocument {
    pub version: Option<String>,
    /// The requirement strings; an entry that is no text is `None`.
    pub requires_dist: Option<Vec<Option<String>>>,
    pub summary: Option<String>,
    pub author: Option<String>,
    pub home_page: Option<String>,
    pub project_url: Option<String>,
    pub urls: Option<Vec<ArtifactEntry>>,
}

/// The answer of the index to a metadata request.
#[derive(Debug)]
pub enum IndexReply {
    /// A status outside 200 to 299.
    Refused,
    /// The decoded document of a successful answer.
    Document(IndexDocument),
}

/// The artifact that was chosen from a document.
pub struct Choice {
    pub url: Seq<char>,
    pub size: Option<u64>,
    pub hash: Option<Seq<char>>,
}

/// Whether an entry has the package type `kind`.
pub open spec fn has_kind(entry: ArtifactEntry, kind: Seq<char>) -> bool {
    entry.packagetype matches Some(t) && t@ == kind
}

/// The index of the first entry of the kind `kind` at or after `from`, or
/// the number of entries when there is none.
pub open spec fn first_of_kind(entries: Seq<ArtifactEntry>, kind: Seq<char>, from: int) -> int
    decreases entries.len() - from,
{
    if 0 <= from < entries.len() && !has_kind(entries[from], kind) {
        first_of_kind(entries, kind, from + 1)
    } else {
        from
    }
}

/// The choice of `entry`: its address (empty without one), its size, and
/// its SHA-256 digest where it has digests.
pub open spec fn taken(entry: ArtifactEntry) -> Choice {
    Choice {
        url: match entry.url {
            Some(u) => u@,
            None => Seq::empty(),
        },
        size: entry.size,
        hash: match entry.digests {
            Some(d) => text_view(d.sha256),
            None => None,
        },
    }
}

/// The choice of the first entry of the kind `kind`, or `before` where
/// there is none.
pub open spec fn pick(entries: Seq<ArtifactEntry>, kind: Seq<char>, before: Choice) -> Choice {
    let i = first_of_kind(entries, kind, 0);
    if 0 <= i < entries.len() {
        taken(entries[i])
    } else {
        before
    }
}

/// The artifact of a document: the first pre-built one; if that gives no
/// address, the first source archive, and nothing of the pre-built one is
/// kept.
pub open spec fn chosen(urls: Option<Vec<ArtifactEntry>>) -> Choice {
    let nothing = Choice { url: Seq::empty(), size: None, hash: None };
    match urls {
        None => nothing,
        Some(entries) => {
            let wheel = pick(entries@, "bdist_wheel"@, nothing);
            if wheel.url.len() == 0 {
                pick(entries@, "sdist"@, wheel)
            } else {
                wheel
            }
        },
    }
}

/// The dependencies that the first `upto` requirement strings stand for.
pub open spec fn required(strings: Seq<Option<String>>, upto: int) -> Seq<DependencyView>
    decreases upto,
{
    if upto <= 0 {
        Seq::empty()
    } else {
        match strings[upto - 1] {
            Some(text) => required(strings, upto - 1).push(
                DependencyView {
                    name: parsed_requirement(text@).0,
                    version_spec: parsed_requirement(text@).1,
                },
            ),
            None => required(strings, upto - 1),
        }
    }
}

/// The dependencies of a document.
pub open spec fn requirements(requires_dist: Option<Vec<Option<String>>>) -> Seq<DependencyView> {
    match requires_dist {
        Some(strings) => required(strings@, strings@.len() as int),
        None => Seq::empty(),
    }
}

/// The package that the document `doc` describes under the name `name`, or
/// why it describes none: a document without a version, or without an
/// address to fetch from.
pub open spec fn described(name: Seq<char>, doc: IndexDocument) -> Result<PackageView, ErrorView> {
    match doc.version {
        None => Err(ErrorView::PackageNotFound("Invalid package data for "@ + name)),
        Some(version) => if chosen(doc.urls).url.len() == 0 {
            Err(ErrorView::PackageNotFound("No download URL found for "@ + name))
        } else {
            Ok(
                PackageView {
                    name,
                    version: version@,
                    dependencies: requirements(doc.requires_dist),
                    download_url: chosen(doc.urls).url,
                    hash: chosen(doc.urls).hash,
                    size: chosen(doc.urls).size,
                    description: text_view(doc.summary),
                    author: text_view(doc.author),
                    homepage: match doc.home_page {
                        Some(h) => Some(h@),
                        None => text_view(doc.project_url),
                    },
                },
            )
        },
    }
}

/// The package that a reply describes: none when the index refused.
pub open spec fn answered(name: Seq<char>, reply: IndexReply) -> Result<PackageView, ErrorView> {
    match reply {
        IndexReply::Refused => Err(ErrorView::PackageNotFound(name)),
        IndexReply::Document(doc) => described(name, doc),
    }
}

/// The address of the metadata of `name` under the constraint `spec`: the
/// latest version for `*` and the empty constraint, else the pinned one.
pub open spec fn metadata_url(base: Seq<char>, name: Seq<char>, spec: Seq<char>) -> Seq<char> {
    if is_latest(spec) {
        base + "/pypi/"@ + name + "/json"@
    } else {
        base + "/pypi/"@ + name + "/"@ + pinned_version(spec) + "/json"@
    }
}

/// Whether a status code reports success: 200 to 299.
pub open spec fn is_success(status: u16) -> bool {
    200 <= status < 300
}

/// Tests whether a status code reports success.
pub fn status_is_success(status: u16) -> (r: bool)
    ensures
        r == is_success(status),
{
    200 <= status && status < 300
}

/// The working copy of a choice.
struct Picked {
    url: String,
    size: Option<u64>,
    hash: Option<String>,
}

impl Picked {
    spec fn choice(self) -> Choice {
        Choice { url: self.url@, size: self.size, hash: text_view(self.hash) }
    }
}

/// Takes the first entry of the kind `kind`, if there is one.
fn pick_first(entries: &Vec<ArtifactEntry>, kind: &str, before: Picked) -> (after: Picked)
    ensures
        after.choice() == pick(entries@, kind@, before.choice()),
{
    let mut i: usize = 0;
    while i < entries.len()
        invariant
            i <= entries.len(),
            first_of_kind(entries@, kind@, 0) == first_of_kind(entries@, kind@, i as int),
        decreases entries.len() - i,
    {
        let of_kind = match &entries[i].packagetype {
            Some(t) => same_text(t.as_str(), kind),
            None => false,
        };
        if of_kind {
            let entry = &entries[i];
            let url = match &entry.url {
                Some(u) => u.clone(),
                None => String::new(),
            };
            let hash = match &entry.digests {
                Some(d) => clone_text(&d.sha256),
                None => None,
            };
            return Picked { url, size: entry.size, hash };
        }
        i += 1;
    }
    before
}

/// The dependencies that requirement strings stand for.
fn parse_requirements(strings: &Vec<Option<String>>) -> (deps: Vec<Dependency>)
    ensures
        dependency_views(deps@) == required(strings@, strings@.len() as int),
{
    let mut deps: Vec<Dependency> = Vec::new();
    let mut i: usize = 0;
    assert(dependency_views(deps@) =~= required(strings@, 0));
    while i < strings.len()
        invariant
            i <= strings.len(),
            dependency_views(deps@) == required(strings@, i as int),
        decreases strings.len() - i,
    {
        let ghost before = dependency_views(deps@);
        match &strings[i] {
            Some(text) => {
                match parse_dependency(text.as_str()) {
                    Some((name, version_spec)) => {
                        let dep = Dependency { name, version_spec };
                        deps.push(dep);
                        assert(dependency_views(deps@) =~= before.push(dep@));
                    },
                    None => {},
                }
            },
            None => {},
        }
        i += 1;
    }
    deps
}

/// The package that the index described in `reply` when it was asked for
/// `name`. The package bears the name that was asked for.
pub fn describe(name: &str, reply: &IndexReply) -> (r: Result<Package, CobraError>)
    ensures
        match r {
            Ok(package) => answered(name@, *reply) == Ok::<PackageView, ErrorView>(package@),
            Err(e) => answered(name@, *reply) == Err::<PackageView, ErrorView>(e@),
        },
        r matches Ok(package) ==> package@.download_url.len() > 0 && package@.name == name@,
{
    let doc = match reply {
        IndexReply::Refused => {
            return Err(CobraError::PackageNotFound(String::from_str(name)));
        },
        IndexReply::Document(doc) => doc,
    };
    let version = match &doc.version {
        Some(v) => v.clone(),
        None => {
            return Err(
                CobraError::PackageNotFound(concat("Invalid package data for ", name)),
            );
        },
    };
    let mut picked = Picked { url: String::new(), size: None, hash: None };
    match &doc.urls {
        Some(entries) => {
            picked = pick_first(entries, "bdist_wheel", picked);
            if picked.url.as_str().unicode_len() == 0 {
                picked = pick_first(entries, "sdist", picked);
            }
        },
        None => {},
    }
    if picked.url.as_str().unicode_len() == 0 {
        return Err(CobraError::PackageNotFound(concat("No download URL found for ", name)));
    }
    let dependencies = match &doc.requires_dist {
        Some(strings) => parse_requirements(strings),
        None => {
            let none: Vec<Dependency> = Vec::new();
            assert(dependency_views(none@) =~= Seq::<DependencyView>::empty());
            none
        },
    };
    let homepage = match &doc.home_page {
        Some(h) => Some(h.clone()),
        None => clone_text(&doc.project_url),
    };
    Ok(
        Package {
            name: String::from_str(name),
            version,
            dependencies,
            download_url: picked.url,
            hash: picked.hash,
            size: picked.size,
            description: clone_text(&doc.summary),
            author: clone_text(&doc.author),
            homepage,
        },
    )
}

/// The client of the package index.
pub struct RegistryClient {
    pypi_base_url: String,
}

impl RegistryClient {
    /// The address of the index, without a slash at its end.
    pub closed spec fn base_url(&self) -> Seq<char> {
        self.pypi_base_url@
    }

    /// A client of the public index.
    pub fn new() -> (client: Self)
        ensures
            client.base_url() == "https://pypi.org"@,
    {
        RegistryClient { pypi_base_url: String::from_str("https://pypi.org") }
    }

    /// A client of an index at another address.
    pub fn with_base_url(base_url: String) -> (client: Self)
        ensures
            client.base_url() == base_url@,
    {
        RegistryClient { pypi_base_url: base_url }
    }

    /// The address to ask for the metadata of `name` under `version_spec`.
    pub fn package_url(&self, name: &str, version_spec: &str) -> (url: String)
        ensures
            url@ == metadata_url(self.base_url(), name@, version_spec@),
    {
        let mut url = concat(self.pypi_base_url.as_str(), "/pypi/");
        url.append(name);
        if wants_latest(version_spec) {
            url.append("/json");
        } else {
            let version = exact_version(version_spec);
            url.append("/");
            url.append(version.as_str());
            url.append("/json");
        }
        url
    }

    /// The package that the index described in `reply` when it was asked
    /// for `name`. The package bears the name that was asked for.
    pub fn get_package_info(&self, name: &str, reply: &IndexReply) -> (r: Result<
        Package,
        CobraError,
    >)
        ensures
            match r {
                Ok(package) => answered(name@, *reply) == Ok::<PackageView, ErrorView>(package@),
                Err(e) => answered(name@, *reply) == Err::<PackageView, ErrorView>(e@),
            },
            r matches Ok(package) ==> package@.download_url.len() > 0 && package@.name == name@,
    {
        describe(name, reply)
    }

    /// Judges the answer to an artifact request: an answer outside 200 to
    /// 299 fails the installation, with the status as its cause.
    pub fn download_package(&self, status: u16, status_text: &str) -> (r: Result<(), CobraError>)
        ensures
            match r {
                Ok(_) => is_success(status),
                Err(e) => !is_success(status) && e@ == ErrorView::InstallationFailed(
                    "Failed to download: "@ + status_text@,
                ),
            },
    {
        if status_is_success(status) {
            Ok(())
        } else {
            Err(CobraError::InstallationFailed(concat("Failed to download: ", status_text)))
        }
    }
}

impl Default for RegistryClient {
    fn default() -> (client: Self)
        ensures
            client.base_url() == "https://pypi.org"@,
    {
        RegistryClient::new()
    }
}

} // verus!
