//! Finds the dependencies that a JavaScript or TypeScript project declares
//! but does not use, and those that it uses but does not declare.
//!
//! The library works on what was read from disk: the manifest of the
//! project, its parsed files and the manifests of its installed
//! dependencies. From the import declarations of each file it derives the
//! package names that the file uses, merges them into a usage map and
//! compares that map with the manifest.

pub mod checker;
pub mod config;
pub mod extract;
pub mod imports;
pub mod laws;
pub mod names;
pub mod package;
pub mod rules;
pub mod text;
pub mod usage;
pub mod walk;

pub use checker::{CheckResult, Checker, ParsedModule, SourceFile};
pub use config::Config;
pub use rules::CheckError;
pub use walk::WorkerResult;
