use vstd::prelude::*;

pub mod auth;
pub mod bug_reports;
pub mod config;
pub mod docs;
pub mod docs_api;
pub mod docs_build;
pub mod docs_sync;
pub mod error;
pub mod github;
pub mod models;
pub mod r2;
pub mod releases;
pub mod sync;
pub mod sync_run;
pub mod text;

verus! {

} // verus!
