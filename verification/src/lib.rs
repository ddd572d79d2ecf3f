//! The logic of a terminal front end for StGit patch stacks.
pub mod text;
pub mod stgit;
pub mod app;
pub mod keys;
pub mod ui;
pub mod laws;
