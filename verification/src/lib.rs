//! Packaging a selection of the modules of a project.
//!
//! A project keeps its features in modules: the folders below its modules
//! folder. A package holds the skeleton of the project, the selected modules
//! and the modules that they need, with an entry file that refers to the
//! packaged modules only. This library finds the imports between the files
//! (`analyzer`), closes the selection under them (`resolver`), rewrites and
//! checks the entry file (`rewriter`), and orders the stages of a build
//! (`pipeline`). It touches no file: its callers read and write, and hand it
//! texts and lists.
pub mod analyzer;
pub mod build_strategy;
pub mod error;
pub mod indexer;
pub mod llm_client;
pub mod models;
pub mod overview;
pub mod packer;
pub mod pattern;
pub mod pipeline;
pub mod resolver;
pub mod rewriter;
pub mod scan_strategy;
pub mod scanner;
pub mod signatures;
pub mod sorting;
pub mod text;
