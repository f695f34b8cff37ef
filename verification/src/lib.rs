//! Queries over the dependency graph of a Cargo workspace.
//!
//! The crate builds a package graph and a feature graph from resolved
//! metadata, evaluates platform-conditional dependencies, and computes which
//! (package, feature) pairs a build activates.

pub mod cmdlib;
pub mod commands;
pub mod compare;
pub mod errors;
pub mod graph;
pub mod indexmap_support;
pub mod metadata;
pub mod petgraph_support;
pub mod reach;
pub mod semver_support;
pub mod sorted;
pub mod target_spec;
pub mod text;

pub use errors::{Error, FeatureBuildStage, FeatureGraphWarning};
pub use metadata::{Metadata, PackageId};
pub use target_spec::{Platform, TargetFeatures};
