//! Core of a build-time benchmarking tool.
//!
//! The library measures how long candidate packages take to compile across a
//! matrix of build profiles and feature configurations.  It holds the
//! verified logic: reading candidates out of a dependency manifest, planning
//! the files of throwaway scaffold projects, fixing each job's build
//! invocation, classifying and folding the build tool's timing diagnostics,
//! aggregating per-job outcomes, and laying out the report table.  Process
//! spawning, the filesystem and the terminal stay outside, in the binary
//! that drives this library.
//!
//! All text is handled as UTF-8 bytes (`Vec<u8>` / `&[u8]`), so that every
//! transformation can be specified exactly over `Seq<u8>`.

pub mod aggregate;
pub mod config;
pub mod manifest;
pub mod report;
pub mod runner;
pub mod scaffold;
pub mod text;
pub mod timing;
