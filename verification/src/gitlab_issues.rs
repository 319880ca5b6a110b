//! GitLab issues: the values of the tracker, and how a project is told from its address.

use crate::outside::{capture_group, percent_encode, percent_encoded, regex_group};
use crate::text::{
    contains_char, contains_text, has_char, has_text, trim, trim_end_char, trimmed,
    without_trailing,
};
use vstd::prelude::*;

verus! {

/// Why an address of a project was refused.
#[derive(Clone, Debug, PartialEq, Eq)]
pub enum GitLabIssuesError {
    /// The address names no project.
    InvalidProjectUrl(String),
}

/// A user of the tracker.
#[derive(Clone, Debug, PartialEq, Eq)]
pub struct GitLabUser {
    pub username: String,
    pub avatar_url: Option<String>,
}

/// The milestone of an issue.
#[derive(Clone, Debug, PartialEq, Eq)]
pub struct GitLabMilestone {
    pub title: String,
    pub iid: i64,
}

/// Which issues to list.
#[derive(Clone, Debug, PartialEq, Eq)]
pub struct ListGitLabIssuesParams {
    pub state: Option<String>,
    pub labels: Option<String>,
    pub sort: Option<String>,
    pub order_by: Option<String>,
    pub per_page: Option<i32>,
    pub page: Option<i32>,
}

impl Default for ListGitLabIssuesParams {
    /// The first thirty opened issues, the last updated first.
    fn default() -> (r: Self)
        ensures
            r.state.deep_view() == Some("opened"@),
            r.labels is None,
            r.sort.deep_view() == Some("desc"@),
            r.order_by.deep_view() == Some("updated_at"@),
            r.per_page == Some(30i32),
            r.page == Some(1i32),
    {
        ListGitLabIssuesParams {
            state: Some(String::from_str("opened")),
            labels: None,
            sort: Some(String::from_str("desc")),
            order_by: Some(String::from_str("updated_at")),
            per_page: Some(30),
            page: Some(1),
        }
    }
}

/// The expression that finds the project path in an address of the host.
pub open spec fn project_pattern() -> Seq<char> {
    "gitlab\\.com[:/](?P<path>.+?)(?:\\.git)?(?:/)?$"@
}

/// The project path that the address names, percent-encoded, if it names any: the address
/// itself where it has a `/` but neither scheme nor `@`, else what the pattern of the host
/// captures, without `/` at its end.
pub open spec fn project_of_address(address: Seq<char>) -> Option<Seq<char>> {
    if !has_char(address, '/') {
        None
    } else if !has_text(address, "://"@) && !has_char(address, '@') {
        Some(percent_encoded(address))
    } else {
        match regex_group(project_pattern(), address, "path"@) {
            Some(path) => Some(percent_encoded(without_trailing(path, '/'))),
            None => None,
        }
    }
}

/// The entry point of the tracker's rules.
#[derive(Clone, Copy, Debug)]
pub struct GitLabIssuesService;

impl GitLabIssuesService {
    /// Tells the project path from an address, with the white space at its ends cut off, and
    /// percent-encodes it for use in a request. A plain path `group/project` is taken as it
    /// stands; any other address has to name the host. An address that does neither is
    /// refused, and the error holds the address.
    pub fn parse_project_url(url: &str) -> (r: Result<String, GitLabIssuesError>)
        ensures
            match project_of_address(trimmed(url@)) {
                Some(path) => r matches Ok(encoded) && encoded@ == path,
                None => r matches Err(GitLabIssuesError::InvalidProjectUrl(address)) && address@
                    == trimmed(url@),
            },
    {
        let address = trim(url);
        let text = address.as_str();
        if !contains_char(text, '/') {
            return Err(GitLabIssuesError::InvalidProjectUrl(address));
        }
        if !contains_text(text, "://") && !contains_char(text, '@') {
            return Ok(percent_encode(text));
        }
        match capture_group("gitlab\\.com[:/](?P<path>.+?)(?:\\.git)?(?:/)?$", text, "path") {
            Some(path) => Ok(percent_encode(trim_end_char(path.as_str(), '/').as_str())),
            None => Err(GitLabIssuesError::InvalidProjectUrl(address)),
        }
    }
}

} // verus!
