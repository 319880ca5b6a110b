//! Workspaces for tasks, and the queue that runs sequential tasks one at a time.
//!
//! A workspace is one shared directory with a working tree for each repository of a task.
//! The working trees lie beside their repositories; the shared directory holds a link to each.
//! This crate decides how such a workspace is built, repaired after a restart, migrated from
//! older layouts, torn down and swept when orphaned. It touches neither the disk nor the
//! version control: each operation is a machine that names the next action and takes its
//! outcome (see [`disk`]), so that the decisions are proved here and performed elsewhere.
//!
//! The second part is the sequential queue ([`sequential_queue`]): per project, the tasks
//! that run one at a time, ordered by position.
//!
//! - [`workspace_manager`]: the entry points of the lifecycle and the place of a working tree
//! - [`create`], [`reconcile`], [`migrate`], [`destroy`], [`sweep`]: the operations
//! - [`create_laws`], [`reconcile_laws`]: what the operations leave on a modelled disk
//! - [`sequential_queue`], [`queue_laws`]: the queue and what holds of it
//! - [`path`], [`text`], [`outside`]: paths, text, and the calls into other crates
//! - the remaining modules hold the values and rules of accounts, projects and issue
//!   trackers

pub mod account_requests;
pub mod auth;
pub mod create;
pub mod create_laws;
pub mod decimal;
pub mod destroy;
pub mod disk;
pub mod github_issues;
pub mod gitlab_issues;
pub mod issue_import;
pub mod issue_requests;
pub mod migrate;
pub mod outside;
pub mod path;
pub mod project;
pub mod queue_laws;
pub mod reconcile;
pub mod reconcile_laws;
pub mod sequential_queue;
pub mod sweep;
pub mod task;
pub mod task_update;
pub mod text;
pub mod user;
pub mod vortex_issues;
pub mod workspace;
pub mod workspace_manager;
