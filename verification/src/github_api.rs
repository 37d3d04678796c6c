//! The GitHub REST API as the service uses it: the repository record it
//! reads and the request it makes for one.

use vstd::prelude::*;

verus! {

/// A repository as the GitHub API describes it.
pub struct Repository {
    /// The repository's name
    pub name: String,
    /// `owner/name`
    pub full_name: String,
    /// The repository's description
    pub description: Option<String>,
    /// The repository's main language
    pub language: Option<String>,
    /// How many users starred it
    pub stargazers_count: u32,
    /// How many forks it has
    pub forks_count: u32,
    /// The default branch
    pub default_branch: Option<String>,
}

/// The API URL of repository `repo` (`owner/name`).
pub fn repository_url(repo: &str) -> (r: String)
    ensures
        r@ == "https://api.github.com/repos/"@ + repo@,
{
    let mut r = String::from_str("https://api.github.com/repos/");
    r.append(repo);
    r
}

/// The `Authorization` header value sent with a token.
pub fn authorization_value(token: &str) -> (r: String)
    ensures
        r@ == "token "@ + token@,
{
    let mut r = String::from_str("token ");
    r.append(token);
    r
}

} // verus!
