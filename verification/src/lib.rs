//! Planning the build of a Perl from source.
//!
//! A [`PerlBuild`] says what to build and where to install it. One of its
//! `install_*` methods makes a [`Job`] of it, which decides step by step what
//! is to be done: which release is meant, where its tarball is kept, what it
//! unpacks to, which fix-ups are applied, and which commands run with which
//! arguments and environment. The job does none of it itself. It hands out a
//! [`Request`], and goes on with the [`Reply`]. In the end there is a [`Built`]
//! or an [`Error`].
//!
//! [`plan`] is the whole course of a job as a mathematical function, which
//! [`Job::resume`] is proved to follow. What holds of it stands in [`course`],
//! step by step, and in [`runs`], from the first request to the last. What holds
//! of the pieces stands in [`laws`], in [`meaning`] for texts, in [`readings`]
//! for what is read out of them, and in [`wording`] for commands, options and
//! paths.

pub mod archive;
pub mod built;
pub mod commands;
pub mod config;
pub mod course;
pub mod error;
pub mod job;
pub mod laws;
pub mod meaning;
pub mod msvc;
pub mod paths;
pub mod plan;
pub mod readings;
pub mod releases;
pub mod runs;
pub mod text;
pub mod version;
pub mod wording;

pub use built::Built;
pub use config::{PatchPerl, PerlBuild, Toolchain};
pub use error::Error;
pub use job::{extract_tarball, Job, Machine, Reply, Request};
pub use paths::Platform;
pub use releases::PerlRelease;
