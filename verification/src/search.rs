//! The search command's decisions: the address of a search, which entries
//! of the built-in catalogue a query matches, and how results are shown.

use crate::error::{CobraError, ErrorView};
use crate::text::{concat, find, find_in, slice_text, to_chars, trim, trim_window};
use vstd::prelude::*;

verus! {

/// `s` in lower case, as `str::to_lowercase` writes it.
pub uninterp spec fn lowercase_of(s: Seq<char>) -> Seq<char>;

/// `s` with every byte of its UTF-8 form percent-encoded, except letters,
/// digits and `-`, `_`, `.`, `~`, as `urlencoding::encode` writes it.
pub uninterp spec fn percent_encoded(s: Seq<char>) -> Seq<char>;

/// `str::to_lowercase`.
#[verifier::external_body]
fn lowercase(s: &str) -> (lower: String)
    ensures
        lower@ == lowercase_of(s@),
{
    s.to_lowercase()
}

/// `urlencoding::encode`.
#[verifier::external_body]
fn url_encode(s: &str) -> (encoded: String)
    ensures
        encoded@ == percent_encoded(s@),
{
    urlencoding::encode(s).into_owned()
}

/// One package that a search found.
#[derive(Debug)]
pub struct SearchResult {
    pub name: String,
    pub version: String,
    pub description: Option<String>,
    pub author: Option<String>,
    pub author_email: Option<String>,
}

/// Whether a result is the catalogue entry of the given name and
/// description.
pub open spec fn is_catalogue_entry(r: SearchResult, entry: (Seq<char>, Seq<char>)) -> bool {
    &&& r.name@ == entry.0
    &&& r.version@ == "latest"@
    &&& r.description matches Some(d) && d@ == entry.1
    &&& r.author matches Some(a) && a@ == "Python Community"@
    &&& r.author_email is None
}

/// The built-in catalogue: names with their descriptions.
pub open spec fn catalogue() -> Seq<(Seq<char>, Seq<char>)> {
    seq![
        ("requests"@, "HTTP library for Python"@),
        ("numpy"@, "Fundamental package for scientific computing"@),
        ("pandas"@, "Data manipulation and analysis library"@),
        ("flask"@, "Lightweight WSGI web application framework"@),
        ("django"@, "High-level Python web framework"@),
        ("pytest"@, "Testing framework for Python"@),
        ("click"@, "Command line interface creation kit"@),
        ("colorama"@, "Cross-platform colored terminal text"@),
        ("six"@, "Python 2 and 3 compatibility utilities"@),
        ("setuptools"@, "Build system for Python packages"@),
    ]
}

/// The number of entries of the catalogue.
pub const CATALOGUE_LEN: usize = 10;

/// The entry `i` of the catalogue.
fn catalogue_entry(i: usize) -> (entry: (&'static str, &'static str))
    requires
        i < CATALOGUE_LEN,
    ensures
        (entry.0@, entry.1@) == catalogue()[i as int],
{
    if i == 0 {
        ("requests", "HTTP library for Python")
    } else if i == 1 {
        ("numpy", "Fundamental package for scientific computing")
    } else if i == 2 {
        ("pandas", "Data manipulation and analysis library")
    } else if i == 3 {
        ("flask", "Lightweight WSGI web application framework")
    } else if i == 4 {
        ("django", "High-level Python web framework")
    } else if i == 5 {
        ("pytest", "Testing framework for Python")
    } else if i == 6 {
        ("click", "Command line interface creation kit")
    } else if i == 7 {
        ("colorama", "Cross-platform colored terminal text")
    } else if i == 8 {
        ("six", "Python 2 and 3 compatibility utilities")
    } else {
        ("setuptools", "Build system for Python packages")
    }
}

/// Whether a query matches an entry: in lower case, the query occurs in
/// the name or in the description.
pub open spec fn matches_query(entry: (Seq<char>, Seq<char>), query: Seq<char>) -> bool {
    find(lowercase_of(entry.0), lowercase_of(query)) is Some || find(
        lowercase_of(entry.1),
        lowercase_of(query),
    ) is Some
}

/// The entries among the first `upto` of the catalogue that a query
/// matches, in the order of the catalogue.
pub open spec fn matching(query: Seq<char>, upto: int) -> Seq<(Seq<char>, Seq<char>)>
    decreases upto,
{
    if upto <= 0 {
        Seq::empty()
    } else if matches_query(catalogue()[upto - 1], query) {
        matching(query, upto - 1).push(catalogue()[upto - 1])
    } else {
        matching(query, upto - 1)
    }
}

/// Whether `needle` occurs in `text`.
fn occurs_in(text: &str, needle: &Vec<char>) -> (r: bool)
    ensures
        r == (find(text@, needle@) is Some),
{
    let v = to_chars(text);
    let n = v.len();
    assert(v@.subrange(0, n as int) =~= text@);
    find_in(&v, 0, n, needle).is_some()
}

/// The entries of the catalogue that `query` matches. The page that the
/// index sent is not read. The result is never an error.
pub fn parse_search_results(_html: &str, query: &str) -> (r: Result<Vec<SearchResult>, CobraError>)
    ensures
        r matches Ok(results) && results@.len() == matching(query@, CATALOGUE_LEN as int).len()
            && forall|i: int|
            0 <= i < results@.len() ==> is_catalogue_entry(
                #[trigger] results@[i],
                matching(query@, CATALOGUE_LEN as int)[i],
            ),
{
    let wanted = lowercase(query);
    let needle = to_chars(wanted.as_str());
    let mut results: Vec<SearchResult> = Vec::new();
    let mut i: usize = 0;
    while i < CATALOGUE_LEN
        invariant
            i <= CATALOGUE_LEN,
            needle@ == lowercase_of(query@),
            results@.len() == matching(query@, i as int).len(),
            forall|k: int|
                0 <= k < results@.len() ==> is_catalogue_entry(
                    #[trigger] results@[k],
                    matching(query@, i as int)[k],
                ),
        decreases CATALOGUE_LEN - i,
    {
        let (name, description) = catalogue_entry(i);
        let lower_name = lowercase(name);
        let lower_description = lowercase(description);
        if occurs_in(lower_name.as_str(), &needle) || occurs_in(
            lower_description.as_str(),
            &needle,
        ) {
            results.push(
                SearchResult {
                    name: String::from_str(name),
                    version: String::from_str("latest"),
                    description: Some(String::from_str(description)),
                    author: Some(String::from_str("Python Community")),
                    author_email: None,
                },
            );
        }
        i += 1;
    }
    Ok(results)
}

/// The address of a search for `query`.
pub fn search_url(query: &str) -> (url: String)
    ensures
        url@ == "https://pypi.org/search/?q="@ + percent_encoded(query@) + "&format=json"@,
{
    let encoded = url_encode(query);
    let mut url = concat("https://pypi.org/search/?q=", encoded.as_str());
    url.append("&format=json");
    url
}

/// Refuses a query that is empty but for whitespace.
pub fn check_query(query: &str) -> (r: Result<(), CobraError>)
    ensures
        match r {
            Ok(_) => trim(query@).len() > 0,
            Err(e) => trim(query@).len() == 0 && e@ == ErrorView::Config(
                "Search query cannot be empty"@,
            ),
        },
{
    let v = to_chars(query);
    let n = v.len();
    assert(v@.subrange(0, n as int) =~= query@);
    let (lo, hi) = trim_window(&v, 0, n);
    if lo < hi {
        Ok(())
    } else {
        Err(CobraError::Config(String::from_str("Search query cannot be empty")))
    }
}

/// The number of results to show: the limit, ten where none is given, but
/// no more than were found.
pub fn display_limit(limit: Option<usize>, found: usize) -> (shown: usize)
    ensures
        shown == (if (match limit {
            Some(l) => l,
            None => 10,
        }) < found {
            match limit {
                Some(l) => l,
                None => 10,
            }
        } else {
            found
        }),
{
    let wanted = match limit {
        Some(l) => l,
        None => 10,
    };
    if wanted < found {
        wanted
    } else {
        found
    }
}

/// A description as it is shown: one of more than 80 characters is cut to
/// its first 77, followed by three dots.
pub open spec fn shortened(description: Seq<char>) -> Seq<char> {
    if description.len() > 80 {
        description.take(77) + "..."@
    } else {
        description
    }
}

/// A description as it is shown.
pub fn shorten_description(description: &str) -> (shown: String)
    ensures
        shown@ == shortened(description@),
{
    let n = description.unicode_len();
    if n > 80 {
        let head = slice_text(description, 0, 77);
        assert(description@.subrange(0, 77) =~= description@.take(77));
        concat(head.as_str(), "...")
    } else {
        String::from_str(description)
    }
}

} // verus!
