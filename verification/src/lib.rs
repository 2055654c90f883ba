//! Project management logic for nannou creative-coding sketches: finding
//! projects, deriving folder names from git URLs, configuration paths, the
//! project-creation workflow, copying a project's manifest, git status
//! reports, and following a cargo build from the desktop app.
//!
//! The filesystem, processes and the environment are left to the caller:
//! functions here take what was read and return what is to be done.

pub mod text;
pub mod git_url;
pub mod projects;
pub mod config;
pub mod command;
pub mod create;
pub mod compile;
pub mod git;
pub mod manifest;
