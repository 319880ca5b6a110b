//! What clients send to list and import issues, and what they are told about a project's
//! tracker settings.

use crate::github_issues::ListIssuesParams;
use crate::gitlab_issues::ListGitLabIssuesParams;
use crate::vortex_issues::ListVortexIssuesParams;
use vstd::prelude::*;

verus! {

/// The text given, or `fallback` where none is given.
pub fn text_or(value: Option<String>, fallback: &str) -> (r: Option<String>)
    ensures
        r.deep_view() == Some(
            match value {
                Some(text) => text@,
                None => fallback@,
            },
        ),
{
    match value {
        Some(text) => Some(text),
        None => Some(String::from_str(fallback)),
    }
}

/// The number given, or `fallback` where none is given.
pub fn number_or(value: Option<i32>, fallback: i32) -> (r: Option<i32>)
    ensures
        r == Some(
            match value {
                Some(number) => number,
                None => fallback,
            },
        ),
{
    match value {
        Some(number) => Some(number),
        None => Some(fallback),
    }
}

/// The first of the two that is given.
pub fn first_given(first: Option<String>, second: Option<String>) -> (r: Option<String>)
    ensures
        r.deep_view() == (if first is Some {
            first.deep_view()
        } else {
            second.deep_view()
        }),
{
    match first {
        Some(text) => Some(text),
        None => second,
    }
}

/// A request to list the GitHub issues of a project.
#[derive(Clone, Debug, PartialEq, Eq)]
pub struct ListIssuesQuery {
    pub state: Option<String>,
    pub labels: Option<String>,
    pub page: Option<i32>,
    pub per_page: Option<i32>,
}

impl ListIssuesQuery {
    /// What to ask the tracker: open issues unless a state is given, the project's labels
    /// unless labels are given, the last updated first, thirty to a page, the first page.
    pub fn into_params(self, project_labels: Option<String>) -> (r: ListIssuesParams)
        ensures
            r.state.deep_view() == Some(
                match self.state {
                    Some(state) => state@,
                    None => "open"@,
                },
            ),
            r.labels.deep_view() == (if self.labels is Some {
                self.labels.deep_view()
            } else {
                project_labels.deep_view()
            }),
            r.sort.deep_view() == Some("updated"@),
            r.direction.deep_view() == Some("desc"@),
            r.per_page == Some(
                match self.per_page {
                    Some(n) => n,
                    None => 30i32,
                },
            ),
            r.page == Some(
                match self.page {
                    Some(n) => n,
                    None => 1i32,
                },
            ),
    {
        ListIssuesParams {
            state: text_or(self.state, "open"),
            labels: first_given(self.labels, project_labels),
            sort: Some(String::from_str("updated")),
            direction: Some(String::from_str("desc")),
            per_page: number_or(self.per_page, 30),
            page: number_or(self.page, 1),
        }
    }
}

/// A request to import one GitHub issue as a task.
#[derive(Clone, Copy, Debug, PartialEq, Eq, Structural)]
pub struct ImportIssueRequest {
    pub issue_number: i64,
    pub auto_start: Option<bool>,
}

/// What a project has set for GitHub.
#[derive(Clone, Debug, PartialEq, Eq)]
pub struct GitHubConfigStatus {
    pub has_repo_url: bool,
    pub has_token: bool,
    pub repo_url: Option<String>,
    pub sync_enabled: bool,
    pub sync_labels: Option<String>,
}

impl GitHubConfigStatus {
    /// The status of a project with these settings. The token itself is not told, only
    /// whether there is one.
    pub fn of_settings(
        repo_url: Option<String>,
        has_token: bool,
        sync_enabled: bool,
        sync_labels: Option<String>,
    ) -> (r: Self)
        ensures
            r.has_repo_url == repo_url is Some,
            r.has_token == has_token,
            r.repo_url.deep_view() == repo_url.deep_view(),
            r.sync_enabled == sync_enabled,
            r.sync_labels.deep_view() == sync_labels.deep_view(),
    {
        GitHubConfigStatus {
            has_repo_url: repo_url.is_some(),
            has_token,
            repo_url,
            sync_enabled,
            sync_labels,
        }
    }
}

/// A request to list the GitLab issues of a project.
#[derive(Clone, Debug, PartialEq, Eq)]
pub struct ListGitLabIssuesQuery {
    pub state: Option<String>,
    pub labels: Option<String>,
    pub page: Option<i32>,
    pub per_page: Option<i32>,
}

impl ListGitLabIssuesQuery {
    /// What to ask the tracker: opened issues unless a state is given, the project's labels
    /// unless labels are given, the last updated first, thirty to a page, the first page.
    pub fn into_params(self, project_labels: Option<String>) -> (r: ListGitLabIssuesParams)
        ensures
            r.state.deep_view() == Some(
                match self.state {
                    Some(state) => state@,
                    None => "opened"@,
                },
            ),
            r.labels.deep_view() == (if self.labels is Some {
                self.labels.deep_view()
            } else {
                project_labels.deep_view()
            }),
            r.sort.deep_view() == Some("desc"@),
            r.order_by.deep_view() == Some("updated_at"@),
            r.per_page == Some(
                match self.per_page {
                    Some(n) => n,
                    None => 30i32,
                },
            ),
            r.page == Some(
                match self.page {
                    Some(n) => n,
                    None => 1i32,
                },
            ),
    {
        ListGitLabIssuesParams {
            state: text_or(self.state, "opened"),
            labels: first_given(self.labels, project_labels),
            sort: Some(String::from_str("desc")),
            order_by: Some(String::from_str("updated_at")),
            per_page: number_or(self.per_page, 30),
            page: number_or(self.page, 1),
        }
    }
}

/// A request to import one GitLab issue as a task.
#[derive(Clone, Copy, Debug, PartialEq, Eq, Structural)]
pub struct ImportGitLabIssueRequest {
    pub issue_iid: i64,
    pub auto_start: Option<bool>,
}

/// What a project has set for GitLab.
#[derive(Clone, Debug, PartialEq, Eq)]
pub struct GitLabConfigStatus {
    pub has_project_url: bool,
    pub has_token: bool,
    pub project_url: Option<String>,
    pub sync_enabled: bool,
    pub sync_labels: Option<String>,
}

impl GitLabConfigStatus {
    /// The status of a project with these settings. The token itself is not told, only
    /// whether there is one.
    pub fn of_settings(
        project_url: Option<String>,
        has_token: bool,
        sync_enabled: bool,
        sync_labels: Option<String>,
    ) -> (r: Self)
        ensures
            r.has_project_url == project_url is Some,
            r.has_token == has_token,
            r.project_url.deep_view() == project_url.deep_view(),
            r.sync_enabled == sync_enabled,
            r.sync_labels.deep_view() == sync_labels.deep_view(),
    {
        GitLabConfigStatus {
            has_project_url: project_url.is_some(),
            has_token,
            project_url,
            sync_enabled,
            sync_labels,
        }
    }
}

/// A request to list the Vortex issues of a project.
#[derive(Clone, Debug, PartialEq, Eq)]
pub struct ListVortexIssuesQuery {
    pub status: Option<String>,
    pub priority: Option<String>,
    pub page: Option<i32>,
    pub limit: Option<i32>,
}

impl ListVortexIssuesQuery {
    /// What to ask the tracker: open issues unless a status is given, the priority asked for,
    /// the project's labels, fifty to a page, the first page.
    pub fn into_params(self, project_labels: Option<String>) -> (r: ListVortexIssuesParams)
        ensures
            r.status.deep_view() == Some(
                match self.status {
                    Some(status) => status@,
                    None => "Open"@,
                },
            ),
            r.priority.deep_view() == self.priority.deep_view(),
            r.labels.deep_view() == project_labels.deep_view(),
            r.page == Some(
                match self.page {
                    Some(n) => n,
                    None => 1i32,
                },
            ),
            r.limit == Some(
                match self.limit {
                    Some(n) => n,
                    None => 50i32,
                },
            ),
    {
        ListVortexIssuesParams {
            status: text_or(self.status, "Open"),
            priority: self.priority,
            labels: project_labels,
            page: number_or(self.page, 1),
            limit: number_or(self.limit, 50),
        }
    }
}

/// A request to import one Vortex issue as a task.
#[derive(Clone, Debug, PartialEq, Eq)]
pub struct ImportVortexIssueRequest {
    pub issue_id: String,
}

/// What a project has set for Vortex.
#[derive(Clone, Debug, PartialEq, Eq)]
pub struct VortexConfigStatus {
    pub has_project_id: bool,
    pub has_token: bool,
    pub project_id: Option<String>,
    pub sync_enabled: bool,
    pub sync_labels: Option<String>,
}

impl VortexConfigStatus {
    /// The status of a project with these settings. The token itself is not told, only
    /// whether there is one.
    pub fn of_settings(
        project_id: Option<String>,
        has_token: bool,
        sync_enabled: bool,
        sync_labels: Option<String>,
    ) -> (r: Self)
        ensures
            r.has_project_id == project_id is Some,
            r.has_token == has_token,
            r.project_id.deep_view() == project_id.deep_view(),
            r.sync_enabled == sync_enabled,
            r.sync_labels.deep_view() == sync_labels.deep_view(),
    {
        VortexConfigStatus {
            has_project_id: project_id.is_some(),
            has_token,
            project_id,
            sync_enabled,
            sync_labels,
        }
    }
}

} // verus!
