//! Tracking projects on a workstation: finding them, moving them, archiving and restoring
//! them, and keeping their manifests.
//!
//! Every operation here decides and computes; the filesystem, processes and the terminal are
//! the caller's. An operation is told what exists and answers with the steps to take
//! (`plan::FsAction`) or an error (`plan::ProjError`).
pub mod text;
pub mod paths;
pub mod plan;
pub mod archive;
pub mod entries;
pub mod discovery;
pub mod manifest;
pub mod lifecycle;
pub mod metadata;
pub mod git;
pub mod interact;
pub mod cli;
pub mod listing;
pub mod keyval;
