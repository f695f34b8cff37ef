//! Support for command-line operations: the options that name packages
//! and features, as Cargo's do, and what they ask of a graph.

use crate::errors::{Error, ErrorView};
use crate::graph::feature::query::{
    all_filter, default_filter, feature_filter, none_filter, query_seeds, FeatureFilter,
    FeatureQuery,
};
use crate::graph::feature::FeatureGraph;
use crate::graph::select::{first_member_named, first_unknown_name};
use crate::graph::PackageGraph;
use vstd::prelude::*;

verus! {

/// Support for packages and features.
///
/// The options here mirror Cargo's.
#[derive(Clone, Debug, PartialEq, Eq)]
pub struct PackagesAndFeatures {
    /// Packages to start the query from (default: entire workspace)
    pub packages: Vec<String>,
    /// List of features to activate across all packages
    pub features: Vec<String>,
    /// Activate all available features
    pub all_features: bool,
    /// Do not activate the `default` feature
    pub no_default_features: bool,
}

/// Whether a filter is the one that the options stand for: it takes
/// every feature, or the default features unless they are turned off, and
/// the features that are named.
pub open spec fn is_filter_of(filter: FeatureFilter, pf: PackagesAndFeatures) -> bool {
    &&& filter matches FeatureFilter::Features { base, names }
    &&& *base == if pf.all_features {
        FeatureFilter::All
    } else if pf.no_default_features {
        FeatureFilter::NoFeatures
    } else {
        FeatureFilter::Default
    }
    &&& crate::graph::dependency::strings_view(names@) == crate::graph::dependency::strings_view(
        pf.features@,
    )
}

/// Whether the packages are those that the options start from: the
/// members of the workspace, or for each name the first member that has
/// it, in the order of the packages.
pub open spec fn starting_packages(pf: PackagesAndFeatures, graph: PackageGraph, from: Seq<usize>) -> bool {
    if pf.packages.len() == 0 {
        &&& from.len() == graph@.workspace.members.len()
        &&& forall|k: int|
            0 <= k < from.len() ==> (#[trigger] from[k]) < graph@.packages.len()
                && graph@.packages[from[k] as int].package.id@ == graph@.workspace.members[k].1
    } else {
        &&& from.len() == pf.packages.len()
        &&& forall|k: int|
            0 <= k < from.len() ==> first_member_named(
                graph@,
                (#[trigger] from[k]) as int,
                pf.packages[k]@,
            )
    }
}

impl PackagesAndFeatures {
    /// The filter for features that these options stand for.
    pub fn make_feature_filter(&self) -> (r: FeatureFilter)
        ensures
            is_filter_of(r, *self),
    {
        let base = if self.all_features {
            all_filter()
        } else if self.no_default_features {
            none_filter()
        } else {
            default_filter()
        };
        feature_filter(base, crate::graph::ingest::clone_strings(&self.features))
    }

    /// Evaluates this struct against the given graph, and converts it into a `FeatureQuery`.
    ///
    /// Fails on the first name of a package that no member of the
    /// workspace has.
    pub fn make_feature_query<'a, 'g>(&self, graph: &'a FeatureGraph<'g>) -> (r: Result<
        FeatureQuery<'a>,
        Error,
    >)
        requires
            graph.wf(),
        ensures
            match r {
                Ok(q) => {
                    &&& q.wf()
                    &&& q.graph() == graph
                    &&& self.packages.len() > 0 ==> first_unknown_name(
                        graph.package_graph()@,
                        self.packages@,
                        0,
                    ) is None
                    &&& exists|from: Seq<usize>, filter: FeatureFilter| #[trigger]
                        starting_packages(*self, *graph.package_graph(), from) && #[trigger] is_filter_of(
                            filter,
                            *self,
                        ) && q.seeds() == query_seeds(
                            graph.package_graph()@.packages,
                            from,
                            filter,
                            from.len() as int,
                        )
                },
                Err(e) => crate::graph::select::is_unknown_name_error(
                    graph.package_graph()@,
                    self.packages@,
                    e,
                ),
            },
    {
        let package_query = if self.packages.len() == 0 {
            graph.packages().query_workspace()
        } else {
            match graph.packages().query_workspace_names(&self.packages) {
                Ok(q) => q,
                Err(e) => {
                    return Err(e);
                },
            }
        };
        let filter = self.make_feature_filter();
        let q = graph.query_packages(&package_query, &filter);
        assert(starting_packages(*self, *graph.package_graph(), package_query.seeds()));
        assert(is_filter_of(filter, *self));
        Ok(q)
    }
}

} // verus!
