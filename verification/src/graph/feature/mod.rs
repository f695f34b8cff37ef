//! The feature graph: a node for each package and for each of its
//! features, and an edge where turning on one of them turns on another.

pub mod construct;
pub mod feature_graph;
pub mod laws;
pub mod query;

pub use construct::{FeatureEdge, FeatureNode};
pub use feature_graph::FeatureGraph;
pub use query::{
    all_filter, default_filter, feature_filter, none_filter, FeatureFilter, FeatureId,
    FeatureQuery, FeatureSet,
};
