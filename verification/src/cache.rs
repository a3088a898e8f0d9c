//! Where the README of a repository is kept between runs. Reading and
//! writing the files is the caller's part; which file it is, is decided
//! here.

use crate::text::{replace, replaced};
use vstd::prelude::*;
use vstd::string::*;

verus! {

/// The directory that holds the cached READMEs.
pub const CACHE_DIR: &'static str = ".readme-cache";

/// The key of a repository: its name with `-` for every `/`.
pub open spec fn cache_key(repo_name: Seq<char>) -> Seq<char> {
    replaced(repo_name, "/"@, "-"@)
}

/// The key under which a repository's README is kept.
pub fn get_cache_key(repo_name: &str) -> (r: String)
    ensures
        r@ == cache_key(repo_name@),
{
    replace(repo_name, "/", "-")
}

/// The name of the file, inside the cache directory, that holds a
/// repository's README.
pub fn get_cache_file(repo_name: &str) -> (r: String)
    ensures
        r@ == cache_key(repo_name@) + ".md"@,
{
    let mut out = get_cache_key(repo_name);
    out.append(".md");
    out
}

/// A cached README counts only where it could be read.
pub fn cached_readme(exists: bool, content: Option<String>) -> (r: Option<String>)
    ensures
        r == (if exists {
            content
        } else {
            None
        }),
{
    if exists {
        content
    } else {
        None
    }
}

} // verus!
