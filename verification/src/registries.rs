//! Two further registries, as far as they decide: which address to ask and
//! what an answer means. Asking is left to the caller.

use crate::client::{IndexDocument, IndexReply};
use crate::error::{CobraError, ErrorView};
use crate::package::{clone_text, text_view, Dependency, DependencyView, Package, PackageView};
use crate::text::concat;
use vstd::prelude::*;

verus! {

/// What a package document of a private registry says, as far as it is
/// read. A field that the document lacks or that is no text is `None`.
#[derive(Debug)]
pub struct CloudPackage {
    pub name: Option<String>,
    pub version: Option<String>,
    pub download_url: Option<String>,
}

/// The answer of a private registry to a package request.
#[derive(Debug)]
pub enum CloudReply {
    /// A status outside 200 to 299.
    Refused,
    /// The decoded document of a successful answer.
    Document(CloudPackage),
}

/// The answer of a private registry to a listing request.
#[derive(Debug)]
pub enum CloudListing {
    /// A status outside 200 to 299.
    Refused,
    /// A successful answer that is no list.
    NoList,
    /// The name of each item of the list; `None` for an item without one.
    Names(Vec<Option<String>>),
}

/// The package that a private registry described: its three fields and
/// nothing else, or the request's name as what was not found.
pub open spec fn cloud_package(asked: Seq<char>, reply: CloudReply) -> Result<
    PackageView,
    ErrorView,
> {
    match reply {
        CloudReply::Document(
            CloudPackage { name: Some(name), version: Some(version), download_url: Some(url) },
        ) => Ok(
            PackageView {
                name: name@,
                version: version@,
                dependencies: Seq::empty(),
                download_url: url@,
                hash: None,
                size: None,
                description: None,
                author: None,
                homepage: None,
            },
        ),
        _ => Err(ErrorView::PackageNotFound(asked)),
    }
}

/// The names among the first `upto` items of a listing.
pub open spec fn listed_names(items: Seq<Option<String>>, upto: int) -> Seq<Seq<char>>
    decreases upto,
{
    if upto <= 0 {
        Seq::empty()
    } else {
        match items[upto - 1] {
            Some(name) => listed_names(items, upto - 1).push(name@),
            None => listed_names(items, upto - 1),
        }
    }
}

/// The names of a sequence of texts, in order.
pub open spec fn text_views(texts: Seq<String>) -> Seq<Seq<char>> {
    Seq::new(texts.len(), |i: int| texts[i]@)
}

/// A registry for private packages.
pub struct PackageCloudRegistry {
    base_url: String,
    api_token: Option<String>,
}

impl PackageCloudRegistry {
    /// The address of the registry.
    pub closed spec fn base(&self) -> Seq<char> {
        self.base_url@
    }

    /// The token that requests bear.
    pub closed spec fn token(&self) -> Option<Seq<char>> {
        text_view(self.api_token)
    }

    /// The public registry, without a token.
    pub fn new() -> (registry: Self)
        ensures
            registry.base() == "https://packagecloud.io"@,
            registry.token() is None,
    {
        PackageCloudRegistry {
            base_url: String::from_str("https://packagecloud.io"),
            api_token: None,
        }
    }

    /// The public registry, with a token.
    pub fn with_token(token: String) -> (registry: Self)
        ensures
            registry.base() == "https://packagecloud.io"@,
            registry.token() == Some(token@),
    {
        PackageCloudRegistry {
            base_url: String::from_str("https://packagecloud.io"),
            api_token: Some(token),
        }
    }

    /// A registry at another address.
    pub fn with_custom_url(url: String, token: Option<String>) -> (registry: Self)
        ensures
            registry.base() == url@,
            registry.token() == text_view(token),
    {
        PackageCloudRegistry { base_url: url, api_token: token }
    }

    /// The token that requests bear.
    pub fn bearer_token(&self) -> (token: Option<String>)
        ensures
            text_view(token) == self.token(),
    {
        clone_text(&self.api_token)
    }

    /// The address of the document of a package.
    pub fn package_url(&self, repo: &str, package_name: &str) -> (url: String)
        ensures
            url@ == self.base() + "/api/v1/repos/"@ + repo@ + "/package/python/"@ + package_name@
                + ".json"@,
    {
        let mut url = concat(self.base_url.as_str(), "/api/v1/repos/");
        url.append(repo);
        url.append("/package/python/");
        url.append(package_name);
        url.append(".json");
        url
    }

    /// The address of the listing of a repository.
    pub fn listing_url(&self, repo: &str) -> (url: String)
        ensures
            url@ == self.base() + "/api/v1/repos/"@ + repo@ + "/packages.json"@,
    {
        let mut url = concat(self.base_url.as_str(), "/api/v1/repos/");
        url.append(repo);
        url.append("/packages.json");
        url
    }

    /// The package that the registry described when it was asked for
    /// `package_name`.
    pub fn get_package(&self, package_name: &str, reply: &CloudReply) -> (r: Result<
        Package,
        CobraError,
    >)
        ensures
            match r {
                Ok(package) => cloud_package(package_name@, *reply) == Ok::<
                    PackageView,
                    ErrorView,
                >(package@),
                Err(e) => cloud_package(package_name@, *reply) == Err::<PackageView, ErrorView>(
                    e@,
                ),
            },
    {
        match reply {
            CloudReply::Document(
                CloudPackage { name: Some(name), version: Some(version), download_url: Some(url) },
            ) => {
                let dependencies: Vec<Dependency> = Vec::new();
                assert(crate::package::dependency_views(dependencies@) =~= Seq::<
                    DependencyView,
                >::empty());
                Ok(
                    Package {
                        name: name.clone(),
                        version: version.clone(),
                        dependencies,
                        download_url: url.clone(),
                        hash: None,
                        size: None,
                        description: None,
                        author: None,
                        homepage: None,
                    },
                )
            },
            _ => Err(CobraError::PackageNotFound(String::from_str(package_name))),
        }
    }

    /// The names of the packages of a repository: those of a listing, in
    /// its order; none for an answer that is refused or no list.
    pub fn list_packages(&self, reply: &CloudListing) -> (r: Result<Vec<String>, CobraError>)
        ensures
            r matches Ok(names) && text_views(names@) == (match *reply {
                CloudListing::Names(items) => listed_names(items@, items@.len() as int),
                _ => Seq::empty(),
            }),
    {
        let mut names: Vec<String> = Vec::new();
        assert(text_views(names@) =~= Seq::<Seq<char>>::empty());
        match reply {
            CloudListing::Names(items) => {
                let mut i: usize = 0;
                while i < items.len()
                    invariant
                        i <= items.len(),
                        text_views(names@) == listed_names(items@, i as int),
                    decreases items.len() - i,
                {
                    let ghost before = text_views(names@);
                    match &items[i] {
                        Some(name) => {
                            names.push(name.clone());
                            assert(text_views(names@) =~= before.push(name@));
                        },
                        None => {},
                    }
                    i += 1;
                }
            },
            _ => {},
        }
        Ok(names)
    }
}

impl Default for PackageCloudRegistry {
    fn default() -> (registry: Self)
        ensures
            registry.base() == "https://packagecloud.io"@,
            registry.token() is None,
    {
        PackageCloudRegistry::new()
    }
}

/// The latest version that an index announced for `package_name`.
pub open spec fn latest_version(package_name: Seq<char>, reply: IndexReply) -> Result<
    Seq<char>,
    ErrorView,
> {
    match reply {
        IndexReply::Document(IndexDocument { version: Some(version), .. }) => Ok(version@),
        _ => Err(ErrorView::PackageNotFound(package_name)),
    }
}

/// The public index or a mirror of it, for search and version queries.
pub struct PyPIRegistry {
    base_url: String,
}

impl PyPIRegistry {
    /// The address of the index.
    pub closed spec fn base(&self) -> Seq<char> {
        self.base_url@
    }

    /// The public index.
    pub fn new() -> (registry: Self)
        ensures
            registry.base() == "https://pypi.org"@,
    {
        PyPIRegistry { base_url: String::from_str("https://pypi.org") }
    }

    /// A mirror of the index.
    pub fn with_mirror(mirror_url: String) -> (registry: Self)
        ensures
            registry.base() == mirror_url@,
    {
        PyPIRegistry { base_url: mirror_url }
    }

    /// The address of a search.
    pub fn search_url(&self, query: &str) -> (url: String)
        ensures
            url@ == self.base() + "/search/?q="@ + query@,
    {
        let mut url = concat(self.base_url.as_str(), "/search/?q=");
        url.append(query);
        url
    }

    /// The address of the latest metadata of a package.
    pub fn latest_url(&self, package_name: &str) -> (url: String)
        ensures
            url@ == self.base() + "/pypi/"@ + package_name@ + "/json"@,
    {
        let mut url = concat(self.base_url.as_str(), "/pypi/");
        url.append(package_name);
        url.append("/json");
        url
    }

    /// The packages that a search found: none for a successful search,
    /// whose answer is not read, and an error for a refused one.
    pub fn search_packages(&self, succeeded: bool) -> (r: Result<Vec<String>, CobraError>)
        ensures
            match r {
                Ok(names) => succeeded && names@.len() == 0,
                Err(e) => !succeeded && e@ == ErrorView::PackageNotFound("Search failed"@),
            },
    {
        if succeeded {
            Ok(Vec::new())
        } else {
            Err(CobraError::PackageNotFound(String::from_str("Search failed")))
        }
    }

    /// The latest version that the index announced for `package_name`.
    pub fn get_latest_version(&self, package_name: &str, reply: &IndexReply) -> (r: Result<
        String,
        CobraError,
    >)
        ensures
            match r {
                Ok(version) => latest_version(package_name@, *reply) == Ok::<
                    Seq<char>,
                    ErrorView,
                >(version@),
                Err(e) => latest_version(package_name@, *reply) == Err::<Seq<char>, ErrorView>(
                    e@,
                ),
            },
    {
        match reply {
            IndexReply::Document(IndexDocument { version: Some(version), .. }) => Ok(
                version.clone(),
            ),
            _ => Err(CobraError::PackageNotFound(String::from_str(package_name))),
        }
    }
}

impl Default for PyPIRegistry {
    fn default() -> (registry: Self)
        ensures
            registry.base() == "https://pypi.org"@,
    {
        PyPIRegistry::new()
    }
}

} // verus!
