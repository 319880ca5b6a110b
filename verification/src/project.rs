//! Projects: what may be changed of one, and what a search in one finds.

use vstd::prelude::*;

verus! {

/// What may be changed of a project. The name and the tracker settings keep what is recorded
/// where the field is left out; a tracker setting also keeps it where the field is empty.
#[derive(Clone, Debug, PartialEq, Eq)]
pub struct UpdateProject {
    pub name: Option<String>,
    pub dev_script: Option<String>,
    pub dev_script_working_dir: Option<String>,
    pub default_agent_working_dir: Option<String>,
    pub github_repo_url: Option<String>,
    pub github_token: Option<String>,
    pub github_sync_enabled: Option<bool>,
    pub github_sync_labels: Option<String>,
    pub gitlab_project_url: Option<String>,
    pub gitlab_token: Option<String>,
    pub gitlab_sync_enabled: Option<bool>,
    pub gitlab_sync_labels: Option<String>,
}

/// The setting after an update: the new text where one is given and not empty, else the
/// recorded one.
pub open spec fn kept_or_replaced(given: Option<Seq<char>>, recorded: Option<Seq<char>>) -> Option<
    Seq<char>,
> {
    match given {
        Some(text) => if text.len() > 0 {
            Some(text)
        } else {
            recorded
        },
        None => recorded,
    }
}

impl UpdateProject {
    /// A tracker setting after the update.
    pub fn merged_setting(given: &Option<String>, recorded: Option<String>) -> (r: Option<String>)
        ensures
            r.deep_view() == kept_or_replaced(given.deep_view(), recorded.deep_view()),
    {
        match given {
            Some(text) => {
                if text.as_str().unicode_len() > 0 {
                    Some(text.clone())
                } else {
                    recorded
                }
            },
            None => recorded,
        }
    }

    /// A switch after the update: the new state where one is given, else the recorded one.
    pub fn merged_switch(given: Option<bool>, recorded: bool) -> (r: bool)
        ensures
            r == (match given {
                Some(state) => state,
                None => recorded,
            }),
    {
        match given {
            Some(state) => state,
            None => recorded,
        }
    }

    /// The name after the update: the new one where one is given, else the recorded one.
    pub fn merged_name(&self, recorded: String) -> (r: String)
        ensures
            r@ == (match self.name {
                Some(name) => name@,
                None => recorded@,
            }),
    {
        match &self.name {
            Some(name) => name.clone(),
            None => recorded,
        }
    }
}

/// A repository to attach to a project that is being made: the name it is shown by and
/// where it lies.
#[derive(Clone, Debug, PartialEq, Eq)]
pub struct CreateProjectRepo {
    pub display_name: String,
    pub git_repo_path: String,
}

/// What is needed to make a project: its name and the repositories to attach to it.
#[derive(Clone, Debug, PartialEq, Eq)]
pub struct CreateProject {
    pub name: String,
    pub repositories: Vec<CreateProjectRepo>,
}

/// How a search result matched.
#[derive(Clone, Copy, Debug, PartialEq, Eq, Structural)]
pub enum SearchMatchType {
    FileName,
    DirectoryName,
    FullPath,
}

/// One path that a search found.
#[derive(Clone, Debug, PartialEq, Eq)]
pub struct SearchResult {
    pub path: String,
    pub is_file: bool,
    pub match_type: SearchMatchType,
}

} // verus!
