//! GitHub issues: the values of the tracker, and how a repository is told from its address.

use crate::outside::{capture_group, regex_group};
use crate::text::{
    contains_char, contains_text, find_char, first_index_of, has_char, has_text, trim, trimmed,
};
use vstd::prelude::*;

verus! {

/// Why an address of a repository was refused.
#[derive(Clone, Debug, PartialEq, Eq)]
pub enum GitHubIssuesError {
    /// The address names no repository.
    InvalidRepoUrl(String),
}

/// A user of the tracker.
#[derive(Clone, Debug, PartialEq, Eq)]
pub struct GitHubUser {
    pub login: String,
    pub avatar_url: String,
}

/// A label of an issue.
#[derive(Clone, Debug, PartialEq, Eq)]
pub struct GitHubLabel {
    pub name: String,
    pub color: String,
}

/// The milestone of an issue.
#[derive(Clone, Debug, PartialEq, Eq)]
pub struct GitHubMilestone {
    pub title: String,
    pub number: i64,
}

/// Which issues to list.
#[derive(Clone, Debug, PartialEq, Eq)]
pub struct ListIssuesParams {
    pub state: Option<String>,
    pub labels: Option<String>,
    pub sort: Option<String>,
    pub direction: Option<String>,
    pub per_page: Option<i32>,
    pub page: Option<i32>,
}

impl Default for ListIssuesParams {
    /// The first thirty open issues, the last updated first.
    fn default() -> (r: Self)
        ensures
            r.state.deep_view() == Some("open"@),
            r.labels is None,
            r.sort.deep_view() == Some("updated"@),
            r.direction.deep_view() == Some("desc"@),
            r.per_page == Some(30i32),
            r.page == Some(1i32),
    {
        ListIssuesParams {
            state: Some(String::from_str("open")),
            labels: None,
            sort: Some(String::from_str("updated")),
            direction: Some(String::from_str("desc")),
            per_page: Some(30),
            page: Some(1),
        }
    }
}

/// The expression that finds owner and repository in an address of the host.
pub open spec fn repo_pattern() -> Seq<char> {
    "github\\.com[:/](?P<owner>[^/]+)/(?P<repo>[^/\\s]+?)(?:\\.git)?(?:/|$|\\s)"@
}

/// The address is of the short form `owner/repo`: exactly one `/`, no scheme and no `@`.
pub open spec fn is_short_form(address: Seq<char>) -> bool {
    let slash = first_index_of(address, '/', 0);
    &&& slash < address.len()
    &&& !has_char(address.skip(slash + 1), '/')
    &&& !has_text(address, "://"@)
    &&& !has_char(address, '@')
}

/// Owner and repository that the address names, if it names any: the two sides of the `/`
/// for the short form, else what the pattern of the host captures.
pub open spec fn repo_of_address(address: Seq<char>) -> Option<(Seq<char>, Seq<char>)> {
    if is_short_form(address) {
        let slash = first_index_of(address, '/', 0);
        Some((address.take(slash), address.skip(slash + 1)))
    } else {
        match (
            regex_group(repo_pattern(), address, "owner"@),
            regex_group(repo_pattern(), address, "repo"@),
        ) {
            (Some(owner), Some(repo)) => Some((owner, repo)),
            _ => None,
        }
    }
}

/// The address of an issue is that of a pull request.
pub open spec fn is_pull_request_address(address: Seq<char>) -> bool {
    has_text(address, "/pull/"@)
}

/// The entry point of the tracker's rules.
#[derive(Clone, Copy, Debug)]
pub struct GitHubIssuesService;

impl GitHubIssuesService {
    /// Tells owner and repository from an address, with the white space at its ends cut off.
    /// The short form `owner/repo` is taken as it stands; any other address has to name the
    /// host. An address that does neither is refused, and the error holds the address.
    pub fn parse_repo_url(url: &str) -> (r: Result<(String, String), GitHubIssuesError>)
        ensures
            match repo_of_address(trimmed(url@)) {
                Some((owner, repo)) => r matches Ok(pair) && pair.0@ == owner && pair.1@ == repo,
                None => r matches Err(GitHubIssuesError::InvalidRepoUrl(address)) && address@
                    == trimmed(url@),
            },
    {
        let address = trim(url);
        let text = address.as_str();
        let n = text.unicode_len();
        let slash = find_char(text, '/', 0);
        if slash < n && !contains_text(text, "://") && !contains_char(text, '@') {
            let rest = text.substring_char(slash + 1, n);
            assert(rest@ =~= text@.skip(slash + 1));
            if !contains_char(rest, '/') {
                let owner = text.substring_char(0, slash);
                assert(owner@ =~= text@.take(slash as int));
                return Ok((String::from_str(owner), String::from_str(rest)));
            }
        }
        let pattern = "github\\.com[:/](?P<owner>[^/]+)/(?P<repo>[^/\\s]+?)(?:\\.git)?(?:/|$|\\s)";
        let owner = capture_group(pattern, text, "owner");
        let repo = capture_group(pattern, text, "repo");
        match (owner, repo) {
            (Some(owner), Some(repo)) => Ok((owner, repo)),
            _ => Err(GitHubIssuesError::InvalidRepoUrl(address)),
        }
    }

    /// Tells whether the address of an issue is that of a pull request, which the tracker
    /// lists among the issues and which listings leave out.
    pub fn is_pull_request_url(html_url: &str) -> (r: bool)
        ensures
            r == is_pull_request_address(html_url@),
    {
        contains_text(html_url, "/pull/")
    }
}

} // verus!
