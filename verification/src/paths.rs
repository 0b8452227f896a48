//! Paths as text: where the cache lives, and where a file is written before
//! it takes its final name. Paths are joined with `/`.

use crate::error::{CobraError, ErrorView};
use crate::package_manager::path_below;
use crate::text::{concat, scan_back, scan_backward, slice_text, to_chars, CharClass};
use vstd::prelude::*;

verus! {

/// The directory of the package manager below a per-user directory.
pub open spec fn app_dir(user_dir: Seq<char>) -> Seq<char> {
    path_below(user_dir, "cobra"@)
}

/// The directory of the disk tier of the cache below the per-user cache
/// directory.
pub open spec fn cache_store(user_cache_dir: Seq<char>) -> Seq<char> {
    path_below(app_dir(user_cache_dir), "packages"@)
}

/// The directory of the package manager below a per-user directory, or the
/// error of a system that has no such directory.
pub fn get_cache_dir(user_cache_dir: Option<&str>) -> (r: Result<String, CobraError>)
    ensures
        match (r, user_cache_dir) {
            (Ok(dir), Some(base)) => dir@ == app_dir(base@),
            (Err(e), None) => e@ == ErrorView::Io("Cache directory not found"@),
            _ => false,
        },
{
    match user_cache_dir {
        Some(base) => {
            let below = concat(base, "/");
            Ok(concat(below.as_str(), "cobra"))
        },
        None => Err(CobraError::Io(String::from_str("Cache directory not found"))),
    }
}

/// The configuration directory of the package manager below a per-user
/// directory, or the error of a system that has no such directory.
pub fn get_config_dir(user_config_dir: Option<&str>) -> (r: Result<String, CobraError>)
    ensures
        match (r, user_config_dir) {
            (Ok(dir), Some(base)) => dir@ == app_dir(base@),
            (Err(e), None) => e@ == ErrorView::Io("Config directory not found"@),
            _ => false,
        },
{
    match user_config_dir {
        Some(base) => {
            let below = concat(base, "/");
            Ok(concat(below.as_str(), "cobra"))
        },
        None => Err(CobraError::Io(String::from_str("Config directory not found"))),
    }
}

/// The directory of the disk tier of the cache.
pub fn cache_store_path(cache_dir: &str) -> (path: String)
    ensures
        path@ == path_below(cache_dir@, "packages"@),
{
    let below = concat(cache_dir, "/");
    concat(below.as_str(), "packages")
}

/// The length of the part of `path` up to and with its last `/`.
pub open spec fn parent_len(path: Seq<char>) -> int {
    scan_back(path, CharClass::Except('/'), path.len() as int)
}

/// The place where the contents of `path` are written before they take
/// its name: in the same directory, the file name between a dot and
/// `.tmp`. A path without a file name has no such place.
pub open spec fn temp_sibling(path: Seq<char>) -> Option<Seq<char>> {
    let cut = parent_len(path);
    if cut >= path.len() {
        None
    } else {
        Some(path.take(cut) + "."@ + path.skip(cut) + ".tmp"@)
    }
}

/// The place where the contents of `path` are written before they are
/// renamed to `path`.
pub fn temp_sibling_path(path: &str) -> (r: Result<String, CobraError>)
    ensures
        match r {
            Ok(temp) => temp_sibling(path@) == Some(temp@),
            Err(e) => temp_sibling(path@) is None && e@ == ErrorView::Io(
                "Parent directory not found"@,
            ),
        },
{
    let v = to_chars(path);
    let n = v.len();
    assert(v@.subrange(0, n as int) =~= path@);
    let cut = scan_backward(&v, 0, n, CharClass::Except('/'));
    if cut >= n {
        return Err(CobraError::Io(String::from_str("Parent directory not found")));
    }
    let mut temp = slice_text(path, 0, cut);
    let name = slice_text(path, cut, n);
    temp.append(".");
    temp.append(name.as_str());
    temp.append(".tmp");
    proof {
        assert(path@.subrange(0, cut as int) =~= path@.take(cut as int));
        assert(path@.subrange(cut as int, n as int) =~= path@.skip(cut as int));
    }
    Ok(temp)
}

} // verus!
