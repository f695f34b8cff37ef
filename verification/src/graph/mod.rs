//! The package graph: packages and the dependencies between them.

pub mod assemble;
pub mod cargo;
pub mod dependency;
pub mod feature;
pub mod graph_impl;
pub mod ingest;
pub mod select;
pub mod workspace;

pub use crate::petgraph_support::DependencyDirection;
pub use dependency::{
    DependencyEdge, DependencyMetadata, DependencyReq, DependencyReqImpl, DependencyStatus,
    TargetPredicate,
};
pub use graph_impl::{
    Cycles, DependencyLink, DependsCache, PackageGraph, PackageGraphData, PackageMetadata,
};
pub use select::{DotGraph, FilterOptions, Kind, PackageDotVisitor, PackageQuery, PackageSet};
pub use workspace::Workspace;
