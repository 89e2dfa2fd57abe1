//! GitHub releases the launcher downloads runtimes from.

use crate::text::concat;
use vstd::prelude::*;

verus! {

pub struct GithubAsset {
    pub name: String,
    pub size: u64,
    pub browser_download_url: String,
}

pub struct GithubRelease {
    pub tag_name: String,
    pub assets: Vec<GithubAsset>,
}

/// The API address of a repository's releases.
pub fn releases_url(author: &str, repository: &str) -> (r: String)
    ensures
        r@ == "https://api.github.com/repos/"@ + author@ + "/"@ + repository@ + "/releases"@,
{
    let a = concat("https://api.github.com/repos/", author);
    let b = concat(a.as_str(), "/");
    let c = concat(b.as_str(), repository);
    concat(c.as_str(), "/releases")
}

/// The API address of one release of a repository.
pub fn release_url(author: &str, repository: &str, version: &str) -> (r: String)
    ensures
        r@ == "https://api.github.com/repos/"@ + author@ + "/"@ + repository@ + "/releases"@
            + "/"@ + version@,
{
    let a = releases_url(author, repository);
    let b = concat(a.as_str(), "/");
    concat(b.as_str(), version)
}

} // verus!
